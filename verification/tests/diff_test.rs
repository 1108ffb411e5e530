use mdx::diff::{diff_lines, side_by_side_lines, unified_lines, ChangeKind, Hunk, LineChange};

fn change(kind: ChangeKind, line: &str) -> LineChange {
    LineChange { kind, line: line.to_string() }
}

#[test]
fn identical_texts_have_no_diff() {
    assert_eq!(diff_lines("a.md", "b.md", "same\n", "same\n", false, 80), None);
    assert_eq!(diff_lines("a.md", "b.md", "same\n", "same\n", true, 80), None);
}

#[test]
fn side_by_side_puts_each_change_in_its_column() {
    let lines = diff_lines("a.md", "b.md", "x\ny\n", "x\nz\n", false, 23).unwrap();
    assert_eq!(
        lines,
        vec![
            "\x1b[1ma.md      \x1b[0m | \x1b[1mb.md\x1b[0m".to_string(),
            "-".repeat(23),
            "\x1b[90mx         \x1b[0m | \x1b[90mx\x1b[0m".to_string(),
            "\x1b[31my         \x1b[0m | ".to_string(),
            "           | \x1b[32mz\x1b[0m".to_string(),
        ]
    );
}

#[test]
fn side_by_side_cuts_long_lines() {
    let changes = vec![change(ChangeKind::Delete, "abcdefghijklmnop\n")];
    let lines = side_by_side_lines("a", "b", &changes, 23);
    assert_eq!(lines[2], "\x1b[31mabcdefghi\u{2026}\x1b[0m | ");
}

#[test]
fn unified_layout_marks_each_line() {
    let lines = diff_lines("a.md", "b.md", "x\ny\n", "x\nz\n", true, 0).unwrap();
    assert_eq!(
        lines,
        vec![
            "\x1b[1m--- a.md\x1b[0m".to_string(),
            "\x1b[1m+++ b.md\x1b[0m".to_string(),
            "\x1b[36m@@ @@ -1,2 +1,2 @@ @@\x1b[0m".to_string(),
            "\x1b[90m x\x1b[0m".to_string(),
            "\x1b[31m-y\x1b[0m".to_string(),
            "\x1b[32m+z\x1b[0m".to_string(),
        ]
    );
}

#[test]
fn unified_lines_lay_out_given_hunks() {
    let hunks = vec![Hunk { header: "H".to_string(), changes: vec![change(ChangeKind::Insert, "new")] }];
    let lines = unified_lines("old", "new", &hunks);
    assert_eq!(lines.len(), 4);
    assert_eq!(lines[2], "\x1b[36m@@ H @@\x1b[0m");
    assert_eq!(lines[3], "\x1b[32m+new\x1b[0m");
}
