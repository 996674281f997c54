use hosts_edit::codec::decode_file_bytes;
use hosts_edit::diffing::DiffKind;
use hosts_edit::report::{read_error_message, save_error_message, save_success_message};
use hosts_edit::session::EditorSession;

#[test]
fn load_success_sets_both_snapshots() {
    let mut session = EditorSession::new("hosts".to_string());
    session.apply_load(Ok("a\nb\n".to_string()));
    assert_eq!(session.original, "a\nb\n");
    assert_eq!(session.current, "a\nb\n");
    assert_eq!(session.status, "");
    assert!(!session.show_confirm);
}

#[test]
fn load_failure_reports_and_keeps_snapshots() {
    let mut session = EditorSession::new("hosts".to_string());
    session.apply_load(Ok("a\n".to_string()));
    session.apply_load(Err(read_error_message("file locked")));
    assert_eq!(session.status, "Cannot read hosts file: file locked");
    assert_eq!(session.original, "a\n");
    assert_eq!(session.current, "a\n");
}

#[test]
fn save_request_opens_dialog_and_reports_changes() {
    let mut session = EditorSession::new("hosts".to_string());
    session.apply_load(Ok("a\nb\n".to_string()));
    session.set_current("a\nx\n".to_string());
    let rows = session.request_save();
    assert!(session.show_confirm);
    let kinds: Vec<DiffKind> = rows.iter().map(|row| row.kind).collect();
    assert_eq!(
        kinds,
        vec![DiffKind::Equal, DiffKind::Removed, DiffKind::Added]
    );
}

#[test]
fn confirmed_save_updates_original_and_status() {
    let mut session = EditorSession::new("hosts".to_string());
    session.apply_load(Ok("a\n".to_string()));
    session.set_current("b\n".to_string());
    let _rows = session.request_save();
    let bytes = session.confirmed_bytes();
    assert_eq!(bytes, b"b\n".to_vec());
    assert_eq!(decode_file_bytes(&bytes), "b\n");
    session.apply_save(true, false, "");
    assert_eq!(session.original, "b\n");
    assert_eq!(session.status, "File saved successfully");
    assert!(!session.show_confirm);
}

#[test]
fn denied_save_keeps_original_and_instructs() {
    let mut session = EditorSession::new("hosts".to_string());
    session.apply_load(Ok("a\n".to_string()));
    session.set_current("b\n".to_string());
    let _rows = session.request_save();
    session.apply_save(false, true, "access is denied");
    assert_eq!(session.original, "a\n");
    assert_eq!(session.current, "b\n");
    assert_eq!(
        session.status,
        "Permission denied! Please run as administrator."
    );
    assert!(!session.show_confirm);
}

#[test]
fn other_write_failure_reports_os_error() {
    let mut session = EditorSession::new("hosts".to_string());
    session.apply_load(Ok("a\n".to_string()));
    let _rows = session.request_save();
    session.apply_save(false, false, "disk full");
    assert_eq!(session.status, "Failed to save: disk full");
    assert_eq!(session.original, "a\n");
}

#[test]
fn cancel_closes_dialog_and_keeps_editing() {
    let mut session = EditorSession::new("hosts".to_string());
    session.apply_load(Ok("a\n".to_string()));
    session.set_current("b\n".to_string());
    let _rows = session.request_save();
    session.cancel_save();
    assert!(!session.show_confirm);
    assert_eq!(session.original, "a\n");
    assert_eq!(session.current, "b\n");
    assert_eq!(session.status, "");
}

#[test]
fn status_messages_are_fixed() {
    assert_eq!(save_success_message(), "File saved successfully");
    assert_eq!(
        save_error_message(true, "ignored"),
        "Permission denied! Please run as administrator."
    );
    assert_eq!(save_error_message(false, "why"), "Failed to save: why");
    assert_eq!(read_error_message("why"), "Cannot read hosts file: why");
}
