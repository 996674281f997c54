use hosts_edit::diffing::{diff, DiffKind, DiffLine};

fn texts(rows: &[DiffLine]) -> Vec<(DiffKind, &str)> {
    rows.iter().map(|row| (row.kind, row.text.as_str())).collect()
}

#[test]
fn identical_snapshots_get_the_sentinel_row() {
    let rows = diff("a\nb\nc\n", "a\nb\nc\n");
    assert_eq!(texts(&rows), vec![(DiffKind::Equal, "No changes detected.")]);
}

#[test]
fn identical_empty_snapshots_get_the_sentinel_row() {
    let rows = diff("", "");
    assert_eq!(texts(&rows), vec![(DiffKind::Equal, "No changes detected.")]);
}

#[test]
fn replaced_middle_line() {
    let rows = diff("a\nb\nc\n", "a\nx\nc\n");
    assert_eq!(
        texts(&rows),
        vec![
            (DiffKind::Equal, "  a"),
            (DiffKind::Removed, "- b"),
            (DiffKind::Added, "+ x"),
            (DiffKind::Equal, "  c"),
        ]
    );
}

#[test]
fn added_line_into_empty_text() {
    let rows = diff("", "x\n");
    assert_eq!(texts(&rows), vec![(DiffKind::Added, "+ x")]);
}

#[test]
fn removed_everything() {
    let rows = diff("x\ny\n", "");
    assert_eq!(
        texts(&rows),
        vec![(DiffKind::Removed, "- x"), (DiffKind::Removed, "- y")]
    );
}

#[test]
fn carriage_return_line_feed_is_stripped() {
    let rows = diff("a\r\n", "b\r\n");
    assert_eq!(
        texts(&rows),
        vec![(DiffKind::Removed, "- a"), (DiffKind::Added, "+ b")]
    );
}

#[test]
fn unterminated_last_line_kept() {
    let rows = diff("a\nb", "a\nc");
    assert_eq!(
        texts(&rows),
        vec![
            (DiffKind::Equal, "  a"),
            (DiffKind::Removed, "- b"),
            (DiffKind::Added, "+ c"),
        ]
    );
}

#[test]
fn sides_of_the_report_reconstruct_both_texts() {
    let old_text = "one\ntwo\nthree\n";
    let new_text = "one\nthree\nfour\n";
    let rows = diff(old_text, new_text);

    let old_side: Vec<&str> = rows
        .iter()
        .filter(|row| row.kind != DiffKind::Added)
        .map(|row| &row.text[2..])
        .collect();
    let new_side: Vec<&str> = rows
        .iter()
        .filter(|row| row.kind != DiffKind::Removed)
        .map(|row| &row.text[2..])
        .collect();

    assert_eq!(old_side, vec!["one", "two", "three"]);
    assert_eq!(new_side, vec!["one", "three", "four"]);
}
