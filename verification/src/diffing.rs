use vstd::prelude::*;
use vstd::string::{StrSliceExecFns, StringExecFns};
use vstd::utf8::encode_utf8_decode_utf8;

verus! {

/// Tag of one row of a line-oriented change report.
#[derive(Clone, Copy, PartialEq, Eq, Structural, Debug)]
pub enum DiffKind {
    Equal,
    Removed,
    Added,
}

/// One row of the change report shown before a commit: the display text with
/// its marker prefix, and the kind the prefix stands for.
#[derive(Debug)]
pub struct DiffLine {
    pub kind: DiffKind,
    pub text: String,
}

/// Length of the leading line of the text, terminator included: a line ends
/// after the first line feed, after a carriage return and line feed pair, or
/// after a lone carriage return.
pub open spec fn first_line_len(s: Seq<char>) -> int
    decreases s.len(),
{
    if s.len() == 0 {
        0
    } else if s[0] == '\n' {
        1
    } else if s[0] == '\r' {
        if s.len() >= 2 && s[1] == '\n' {
            2
        } else {
            1
        }
    } else {
        1 + first_line_len(s.skip(1))
    }
}

proof fn lemma_first_line_len_bounds(s: Seq<char>)
    requires
        s.len() > 0,
    ensures
        1 <= first_line_len(s) <= s.len(),
    decreases s.len(),
{
    if s[0] != '\n' && s[0] != '\r' {
        if s.len() > 1 {
            lemma_first_line_len_bounds(s.skip(1));
        } else {
            assert(s.skip(1).len() == 0);
            assert(first_line_len(s.skip(1)) == 0);
        }
    }
}

/// The text split into lines, terminators kept: every character of the text
/// belongs to exactly one line, and a text without a trailing terminator ends
/// in an unterminated line. The empty text has no lines.
pub open spec fn split_lines(s: Seq<char>) -> Seq<Seq<char>>
    decreases s.len(),
{
    if s.len() == 0 {
        Seq::empty()
    } else {
        let n = first_line_len(s);
        if 1 <= n <= s.len() {
            seq![s.take(n)] + split_lines(s.skip(n))
        } else {
            seq![s]
        }
    }
}

/// Concatenation of a sequence of lines.
pub open spec fn join_lines(lines: Seq<Seq<char>>) -> Seq<char>
    decreases lines.len(),
{
    if lines.len() == 0 {
        Seq::empty()
    } else {
        join_lines(lines.drop_last()) + lines.last()
    }
}

proof fn lemma_join_lines_cons(first: Seq<char>, rest: Seq<Seq<char>>)
    ensures
        join_lines(seq![first] + rest) == first + join_lines(rest),
    decreases rest.len(),
{
    if rest.len() == 0 {
        let one = seq![first] + rest;
        assert(one.len() == 1);
        assert(one.last() == first);
        assert(one.drop_last() =~= Seq::<Seq<char>>::empty());
        assert(join_lines(one.drop_last()) =~= Seq::<char>::empty());
        assert(join_lines(one) =~= first + join_lines(rest));
    } else {
        assert((seq![first] + rest).drop_last() =~= seq![first] + rest.drop_last());
        lemma_join_lines_cons(first, rest.drop_last());
        assert((first + join_lines(rest.drop_last())) + rest.last() =~= first + join_lines(rest));
    }
}

/// Splitting loses nothing: the lines of a text, joined back in order, are
/// the text itself.
pub proof fn lemma_split_lines_join(s: Seq<char>)
    ensures
        join_lines(split_lines(s)) == s,
    decreases s.len(),
{
    if s.len() == 0 {
        assert(join_lines(split_lines(s)) =~= s);
    } else {
        let n = first_line_len(s);
        lemma_first_line_len_bounds(s);
        lemma_split_lines_join(s.skip(n));
        lemma_join_lines_cons(s.take(n), split_lines(s.skip(n)));
        assert(s.take(n) + s.skip(n) =~= s);
    }
}

/// A line with its trailing terminator characters removed.
pub open spec fn strip_eol(s: Seq<char>) -> Seq<char>
    decreases s.len(),
{
    if s.len() > 0 && (s.last() == '\n' || s.last() == '\r') {
        strip_eol(s.drop_last())
    } else {
        s
    }
}

/// Each of the given lines with its trailing terminator characters removed.
pub open spec fn strip_all(lines: Seq<Seq<char>>) -> Seq<Seq<char>>
    decreases lines.len(),
{
    if lines.len() == 0 {
        Seq::empty()
    } else {
        strip_all(lines.drop_last()).push(strip_eol(lines.last()))
    }
}

/// The text's lines, terminators removed.
pub open spec fn stripped_lines(s: Seq<char>) -> Seq<Seq<char>> {
    strip_all(split_lines(s))
}

/// Numeric code of a row kind, as the edit script carries it.
pub open spec fn kind_code(kind: DiffKind) -> int {
    match kind {
        DiffKind::Equal => 0,
        DiffKind::Removed => 1,
        DiffKind::Added => 2,
    }
}

/// Row kind for a code of the edit script.
pub open spec fn code_kind(code: int) -> DiffKind {
    if code == 1 {
        DiffKind::Removed
    } else if code == 2 {
        DiffKind::Added
    } else {
        DiffKind::Equal
    }
}

/// The edit script between two texts, as a sequence of coded entries: each
/// entry carries a kind code and one line of one of the texts. The script is
/// determined by the two texts alone.
pub uninterp spec fn line_diff_script(old_text: Seq<char>, new_text: Seq<char>) -> Seq<
    (int, Seq<char>),
>;

/// Coded form of one raw change.
pub open spec fn script_entry(change: (DiffKind, String)) -> (int, Seq<char>) {
    (kind_code(change.0), change.1@)
}

/// Coded form of a sequence of raw changes.
pub open spec fn script_view(changes: Seq<(DiffKind, String)>) -> Seq<(int, Seq<char>)> {
    changes.map_values(|change: (DiffKind, String)| script_entry(change))
}

/// Lines of the old text that a script mentions: the values of its equal and
/// removed entries, in order.
pub open spec fn script_old_lines(script: Seq<(int, Seq<char>)>) -> Seq<Seq<char>>
    decreases script.len(),
{
    if script.len() == 0 {
        Seq::empty()
    } else {
        let rest = script_old_lines(script.drop_last());
        if script.last().0 == 2 {
            rest
        } else {
            rest.push(script.last().1)
        }
    }
}

/// Lines of the new text that a script mentions: the values of its equal and
/// added entries, in order.
pub open spec fn script_new_lines(script: Seq<(int, Seq<char>)>) -> Seq<Seq<char>>
    decreases script.len(),
{
    if script.len() == 0 {
        Seq::empty()
    } else {
        let rest = script_new_lines(script.drop_last());
        if script.last().0 == 1 {
            rest
        } else {
            rest.push(script.last().1)
        }
    }
}

/// Relies on similar's `TextDiff`: `from_lines` splits both texts into lines
/// with terminators kept (split after a line feed, a carriage return and line
/// feed pair, or a lone carriage return); walking `iter_all_changes` yields
/// one change per line, removals before insertions within a replacement; the
/// equal and delete changes carry the old text's lines exactly and in order,
/// the equal and insert changes the new text's; the script depends on the two
/// texts alone.
#[verifier::external_body]
fn raw_line_diff(old_text: &str, new_text: &str) -> (r: Vec<(DiffKind, String)>)
    ensures
        script_view(r@) == line_diff_script(old_text@, new_text@),
        script_old_lines(script_view(r@)) == split_lines(old_text@),
        script_new_lines(script_view(r@)) == split_lines(new_text@),
{
    let diff = similar::TextDiff::from_lines(old_text, new_text);
    let mut out: Vec<(DiffKind, String)> = Vec::new();
    for change in diff.iter_all_changes() {
        let kind = match change.tag() {
            similar::ChangeTag::Equal => DiffKind::Equal,
            similar::ChangeTag::Delete => DiffKind::Removed,
            similar::ChangeTag::Insert => DiffKind::Added,
        };
        out.push((kind, change.value().to_string()));
    }
    out
}

/// Compares two byte sequences for equality.
fn bytes_equal(a: &Vec<u8>, b: &Vec<u8>) -> (r: bool)
    ensures
        r == (a@ == b@),
{
    if a.len() != b.len() {
        return false;
    }
    let mut i: usize = 0;
    while i < a.len()
        invariant
            i <= a@.len(),
            a@.len() == b@.len(),
            forall|j: int| 0 <= j < i ==> a@[j] == b@[j],
        decreases a@.len() - i,
    {
        if a[i] != b[i] {
            return false;
        }
        i = i + 1;
    }
    proof {
        assert(a@ =~= b@);
    }
    true
}

/// Decides whether two texts are the same sequence of characters, by
/// comparing their UTF-8 bytes.
pub fn str_equal(a: &str, b: &str) -> (r: bool)
    ensures
        r == (a@ == b@),
{
    let av = a.as_bytes_vec();
    let bv = b.as_bytes_vec();
    let eq = bytes_equal(&av, &bv);
    proof {
        if av@ == bv@ {
            encode_utf8_decode_utf8(a@);
            encode_utf8_decode_utf8(b@);
            assert(a@ == b@);
        }
    }
    eq
}

/// Fixed display sentinel reported when the two snapshots are identical.
pub open spec fn no_changes_text() -> Seq<char> {
    "No changes detected."@
}

/// Display prefix of each kind of row.
pub open spec fn kind_prefix(kind: DiffKind) -> Seq<char> {
    match kind {
        DiffKind::Equal => "  "@,
        DiffKind::Removed => "- "@,
        DiffKind::Added => "+ "@,
    }
}

/// True when the rows render the script: one row per entry, carrying the
/// entry's kind and its line, terminator stripped, behind the kind's marker.
pub open spec fn rendered_rows_match(script: Seq<(int, Seq<char>)>, rows: Seq<DiffLine>) -> bool {
    &&& rows.len() == script.len()
    &&& forall|i: int|
        0 <= i < script.len() ==> {
            &&& (#[trigger] rows[i]).kind == code_kind(script[i].0)
            &&& rows[i].text@ == kind_prefix(code_kind(script[i].0)) + strip_eol(script[i].1)
        }
}

/// Texts of the equal and removed rows, in order, their two-character marker
/// prefixes stripped.
pub open spec fn old_side_texts(rows: Seq<DiffLine>) -> Seq<Seq<char>>
    decreases rows.len(),
{
    if rows.len() == 0 {
        Seq::empty()
    } else {
        let rest = old_side_texts(rows.drop_last());
        if rows.last().kind is Added {
            rest
        } else {
            rest.push(rows.last().text@.skip(2))
        }
    }
}

/// Texts of the equal and added rows, in order, their two-character marker
/// prefixes stripped.
pub open spec fn new_side_texts(rows: Seq<DiffLine>) -> Seq<Seq<char>>
    decreases rows.len(),
{
    if rows.len() == 0 {
        Seq::empty()
    } else {
        let rest = new_side_texts(rows.drop_last());
        if rows.last().kind is Removed {
            rest
        } else {
            rest.push(rows.last().text@.skip(2))
        }
    }
}

/// What a change report promises: for identical snapshots exactly the fixed
/// sentinel row; otherwise the rendered edit script, whose equal and removed
/// rows spell out the old text's lines and whose equal and added rows spell
/// out the new text's.
pub open spec fn diff_post(old_text: Seq<char>, new_text: Seq<char>, rows: Seq<DiffLine>) -> bool {
    &&& old_text == new_text ==> {
        &&& rows.len() == 1
        &&& rows[0].kind is Equal
        &&& rows[0].text@ == no_changes_text()
    }
    &&& old_text != new_text ==> {
        &&& rendered_rows_match(line_diff_script(old_text, new_text), rows)
        &&& old_side_texts(rows) == stripped_lines(old_text)
        &&& new_side_texts(rows) == stripped_lines(new_text)
    }
}

proof fn lemma_code_kind_of_kind(kind: DiffKind)
    ensures
        code_kind(kind_code(kind)) == kind,
{
}

/// Reading a rendered script back: stripping the marker prefixes from the
/// rows of either side recovers that side's script lines without terminators.
proof fn lemma_sides_of_rendered(script: Seq<(int, Seq<char>)>, rows: Seq<DiffLine>)
    requires
        rendered_rows_match(script, rows),
    ensures
        old_side_texts(rows) == strip_all(script_old_lines(script)),
        new_side_texts(rows) == strip_all(script_new_lines(script)),
    decreases script.len(),
{
    reveal_strlit("  ");
    reveal_strlit("- ");
    reveal_strlit("+ ");
    if script.len() == 0 {
        assert(old_side_texts(rows) =~= strip_all(script_old_lines(script)));
        assert(new_side_texts(rows) =~= strip_all(script_new_lines(script)));
    } else {
        let sc0 = script.drop_last();
        let rows0 = rows.drop_last();
        assert(rendered_rows_match(sc0, rows0)) by {
            assert(forall|i: int| 0 <= i < sc0.len() ==> rows0[i] == rows[i] && sc0[i] == script[i]);
        }
        lemma_sides_of_rendered(sc0, rows0);
        let entry = script.last();
        let row = rows.last();
        assert(row == rows[script.len() - 1]);
        assert(kind_prefix(code_kind(entry.0)).len() == 2);
        assert(row.text@.skip(2) =~= strip_eol(entry.1));
        if entry.0 == 2 {
            assert(old_side_texts(rows) =~= strip_all(script_old_lines(script)));
        } else {
            assert(script_old_lines(script) == script_old_lines(sc0).push(entry.1));
            assert(strip_all(script_old_lines(sc0).push(entry.1)) =~= strip_all(
                script_old_lines(sc0),
            ).push(strip_eol(entry.1))) by {
                assert(script_old_lines(sc0).push(entry.1).drop_last() =~= script_old_lines(sc0));
            }
            assert(old_side_texts(rows) =~= strip_all(script_old_lines(script)));
        }
        if entry.0 == 1 {
            assert(new_side_texts(rows) =~= strip_all(script_new_lines(script)));
        } else {
            assert(script_new_lines(script) == script_new_lines(sc0).push(entry.1));
            assert(strip_all(script_new_lines(sc0).push(entry.1)) =~= strip_all(
                script_new_lines(sc0),
            ).push(strip_eol(entry.1))) by {
                assert(script_new_lines(sc0).push(entry.1).drop_last() =~= script_new_lines(sc0));
            }
            assert(new_side_texts(rows) =~= strip_all(script_new_lines(script)));
        }
    }
}

/// Length of the text once its trailing terminator characters are dropped.
fn eol_stripped_len(s: &str) -> (k: usize)
    ensures
        k <= s@.len(),
        s@.take(k as int) == strip_eol(s@),
{
    let n = s.unicode_len();
    let mut k: usize = 0;
    let mut i: usize = 0;
    while i < n
        invariant
            i <= n,
            k <= i,
            n == s@.len(),
            strip_eol(s@.take(i as int)) == s@.take(k as int),
        decreases n - i,
    {
        let c = s.get_char(i);
        i = i + 1;
        proof {
            let cur = s@.take(i as int);
            assert(cur.drop_last() =~= s@.take(i - 1));
            assert(cur.last() == s@[i - 1]);
        }
        if c != '\n' && c != '\r' {
            k = i;
            proof {
                assert(strip_eol(s@.take(i as int)) =~= s@.take(i as int));
            }
        }
    }
    proof {
        assert(s@.take(n as int) =~= s@);
    }
    k
}

/// Display marker of each kind of row.
fn kind_marker(kind: DiffKind) -> (r: &'static str)
    ensures
        r@ == kind_prefix(kind),
{
    match kind {
        DiffKind::Equal => "  ",
        DiffKind::Removed => "- ",
        DiffKind::Added => "+ ",
    }
}

/// Line-level change report between the two snapshots. Identical snapshots
/// get the single fixed sentinel row; otherwise each line of the edit script
/// becomes one row, its terminator stripped and its kind's marker prefixed,
/// removals standing before the insertions that replace them.
pub fn diff(original: &str, current: &str) -> (rows: Vec<DiffLine>)
    ensures
        diff_post(original@, current@, rows@),
{
    if str_equal(original, current) {
        let mut rows: Vec<DiffLine> = Vec::new();
        rows.push(
            DiffLine { kind: DiffKind::Equal, text: String::from_str("No changes detected.") },
        );
        rows
    } else {
        let raw = raw_line_diff(original, current);
        let ghost script = line_diff_script(original@, current@);
        let mut rows: Vec<DiffLine> = Vec::new();
        let mut i: usize = 0;
        while i < raw.len()
            invariant
                i <= raw@.len(),
                script_view(raw@) == script,
                script_old_lines(script) == split_lines(original@),
                script_new_lines(script) == split_lines(current@),
                rows@.len() == i,
                forall|j: int|
                    0 <= j < i ==> {
                        &&& (#[trigger] rows@[j]).kind == raw@[j].0
                        &&& rows@[j].text@ == kind_prefix(raw@[j].0) + strip_eol(raw@[j].1@)
                    },
            decreases raw@.len() - i,
        {
            let entry = &raw[i];
            let stripped_to = eol_stripped_len(entry.1.as_str());
            let stripped = entry.1.as_str().substring_char(0, stripped_to);
            let mut text = String::from_str(kind_marker(entry.0));
            text.append(stripped);
            rows.push(DiffLine { kind: entry.0, text });
            i = i + 1;
        }
        proof {
            assert(rendered_rows_match(script, rows@)) by {
                assert forall|j: int| 0 <= j < script.len() implies {
                    &&& (#[trigger] rows@[j]).kind == code_kind(script[j].0)
                    &&& rows@[j].text@ == kind_prefix(code_kind(script[j].0)) + strip_eol(
                        script[j].1,
                    )
                } by {
                    assert(script[j] == script_entry(raw@[j]));
                    lemma_code_kind_of_kind(raw@[j].0);
                }
            }
            lemma_sides_of_rendered(script, rows@);
        }
        rows
    }
}

} // verus!
