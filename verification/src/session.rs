use vstd::prelude::*;
use vstd::utf8::encode_utf8;
use crate::codec;
use crate::diffing;
use crate::report;

verus! {

/// State of one editing session: the resolved file path, the snapshot last
/// synced with disk, the live edit buffer, whether the confirmation dialog is
/// open, and the status line the presentation layer shows.
pub struct EditorSession {
    pub path: String,
    pub original: String,
    pub current: String,
    pub show_confirm: bool,
    pub status: String,
}

impl EditorSession {
    /// Fresh session before the first load: empty snapshots, an empty status,
    /// and no confirmation dialog.
    pub fn new(path: String) -> (s: Self)
        ensures
            s.path@ == path@,
            s.original@ == Seq::<char>::empty(),
            s.current@ == Seq::<char>::empty(),
            !s.show_confirm,
            s.status@ == Seq::<char>::empty(),
    {
        EditorSession {
            path,
            original: String::new(),
            current: String::new(),
            show_confirm: false,
            status: String::new(),
        }
    }

    /// Applies the outcome of a load: on success both snapshots become the
    /// loaded text and the status clears; on failure only the status changes,
    /// to the reported error.
    pub fn apply_load(&mut self, outcome: Result<String, String>)
        ensures
            final(self).path == old(self).path,
            final(self).show_confirm == old(self).show_confirm,
            match outcome {
                Ok(content) => {
                    &&& final(self).original@ == content@
                    &&& final(self).current@ == content@
                    &&& final(self).status@ == Seq::<char>::empty()
                },
                Err(message) => {
                    &&& final(self).original == old(self).original
                    &&& final(self).current == old(self).current
                    &&& final(self).status@ == message@
                },
            },
    {
        match outcome {
            Ok(content) => {
                self.current = content.clone();
                self.original = content;
                self.status = String::new();
            },
            Err(message) => {
                self.status = message;
            },
        }
    }

    /// Records a user edit: the live buffer takes the given text; nothing
    /// else moves.
    pub fn set_current(&mut self, text: String)
        ensures
            final(self).current@ == text@,
            final(self).path == old(self).path,
            final(self).original == old(self).original,
            final(self).show_confirm == old(self).show_confirm,
            final(self).status == old(self).status,
    {
        self.current = text;
    }

    /// A save request: computes the change report between the two snapshots
    /// and opens the confirmation dialog. Nothing is written yet: committing
    /// waits for explicit confirmation of exactly this report.
    pub fn request_save(&mut self) -> (rows: Vec<diffing::DiffLine>)
        ensures
            diffing::diff_post(old(self).original@, old(self).current@, rows@),
            final(self).show_confirm,
            final(self).path == old(self).path,
            final(self).original == old(self).original,
            final(self).current == old(self).current,
            final(self).status == old(self).status,
    {
        let rows = diffing::diff(self.original.as_str(), self.current.as_str());
        self.show_confirm = true;
        rows
    }

    /// Closes the confirmation dialog without committing: nothing else moves,
    /// and editing goes on.
    pub fn cancel_save(&mut self)
        ensures
            !final(self).show_confirm,
            final(self).path == old(self).path,
            final(self).original == old(self).original,
            final(self).current == old(self).current,
            final(self).status == old(self).status,
    {
        self.show_confirm = false;
    }

    /// The bytes a confirmed commit writes: the UTF-8 serialization of the
    /// live buffer. Loading those bytes back yields the buffer again when it
    /// holds no tabs (loading normalizes tabs one way). Only text whose
    /// report the user confirmed may be serialized, so the dialog must be
    /// open.
    pub fn confirmed_bytes(&self) -> (bytes: Vec<u8>)
        requires
            self.show_confirm,
        ensures
            bytes@ == encode_utf8(self.current@),
            !self.current@.contains('\t') ==> codec::loaded_text(bytes@) == self.current@,
    {
        let bytes = codec::encode_content(self.current.as_str());
        proof {
            if !self.current@.contains('\t') {
                codec::lemma_commit_load_round_trip(self.current@);
            }
        }
        bytes
    }

    /// Applies the outcome of the confirmed write. On success the original
    /// snapshot catches up with the buffer and the fixed confirmation shows;
    /// on failure the snapshot stays where it was and the status carries the
    /// classified error. The dialog closes either way.
    pub fn apply_save(&mut self, ok: bool, permission_denied: bool, os_error: &str)
        ensures
            !final(self).show_confirm,
            final(self).path == old(self).path,
            final(self).current == old(self).current,
            ok ==> {
                &&& final(self).original == old(self).current
                &&& final(self).status@ == report::save_success_text()
            },
            !ok ==> final(self).original == old(self).original,
            !ok && permission_denied ==> final(self).status@ == report::permission_denied_text(),
            !ok && !permission_denied ==> final(self).status@ == report::generic_save_error_text(
                os_error@,
            ),
    {
        if ok {
            self.original = self.current.clone();
            self.status = report::save_success_message();
        } else {
            self.status = report::save_error_message(permission_denied, os_error);
        }
        self.show_confirm = false;
    }
}

} // verus!
