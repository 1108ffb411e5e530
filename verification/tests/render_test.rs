use mdx::render::{
    render_inline_image, strip_ansi, strip_ansi_width, truncate_ansi_str, Chars, SegmentCharIter,
    StyledSegment,
};
use mdx::style::{Color, ImageProtocol, Style};
use mdx::render::{heading_lines, heading_rule, paragraph_lines};

#[test]
fn strip_ansi_removes_escapes() {
    assert_eq!(strip_ansi("\x1b[31mred\x1b[0m plain"), "red plain");
    assert_eq!(strip_ansi("no escapes"), "no escapes");
    assert_eq!(strip_ansi("cut \x1b[3"), "cut ");
    assert_eq!(strip_ansi_width("\x1b[1m日本\x1b[0m"), 4);
}

#[test]
fn truncate_ansi_keeps_escapes_and_resets() {
    assert_eq!(truncate_ansi_str("\x1b[31mabcdef\x1b[0m", 3), "\x1b[31mabc\x1b[0m");
    assert_eq!(truncate_ansi_str("abcdef", 4), "abcd");
    assert_eq!(truncate_ansi_str("日本語", 5), "日本");
    assert_eq!(truncate_ansi_str("ab", 10), "ab");
}

#[test]
fn segment_styles_follow_wrapped_text() {
    let bold = Style { bold: true, ..Style::default() };
    let red = Style { fg: Some(Color::Red), ..Style::default() };
    let segs = vec![
        StyledSegment { text: "ab ".to_string(), style: bold },
        StyledSegment { text: "cd".to_string(), style: red },
    ];
    let mut it = SegmentCharIter::new(&segs);
    assert_eq!(it.next_style('a'), bold);
    assert_eq!(it.next_style('b'), bold);
    // The wrapper replaced the space by a line break: the space is skipped.
    assert_eq!(it.next_style('c'), red);
    assert_eq!(it.next_style('d'), red);
    assert_eq!(it.next_style('x'), Style::default());
}

#[test]
fn char_sets() {
    let u = Chars::unicode();
    assert_eq!(u.h1_rule, '═');
    assert_eq!(u.bullet_l0, "●");
    assert_eq!(u.table_header_cross, "╪");
    let a = Chars::ascii();
    assert_eq!(a.h1_rule, '=');
    assert_eq!(a.task_done, "[x]");
    assert_eq!(a.table_v, "|");
}

#[test]
fn inline_images_fall_back_to_text() {
    assert!(!render_inline_image("img.png", ImageProtocol::Kitty));
}

#[test]
fn paragraph_lines_keep_each_segments_style() {
    let bold = Style { bold: true, ..Style::default() };
    let segs = vec![
        StyledSegment { text: "hello ".to_string(), style: Style::plain() },
        StyledSegment { text: "world".to_string(), style: bold },
    ];
    let one = paragraph_lines(&segs, 80);
    assert_eq!(one.len(), 1);
    let text: String = one[0].iter().map(|(c, _)| *c).collect();
    assert_eq!(text, "hello world");
    assert_eq!(one[0][0].1, Style::plain());
    assert_eq!(one[0][6].1, bold);
    let two = paragraph_lines(&segs, 5);
    assert_eq!(two.len(), 2);
    let first: String = two[0].iter().map(|(c, _)| *c).collect();
    let second: String = two[1].iter().map(|(c, _)| *c).collect();
    assert_eq!(first, "hello");
    assert_eq!(second, "world");
    assert!(two[1].iter().all(|(_, s)| *s == bold));
}

#[test]
fn heading_lines_wrap_the_display_text() {
    assert_eq!(heading_lines("Title", 2, true, 80), vec!["## Title".to_string()]);
    assert_eq!(heading_lines("one two", 1, false, 4), vec!["ONE".to_string(), "TWO".to_string()]);
}

#[test]
fn only_top_headings_get_a_rule() {
    let c = Chars::ascii();
    assert_eq!(heading_rule(&c, 1, false, 4), Some("====".to_string()));
    assert_eq!(heading_rule(&c, 2, false, 3), Some("---".to_string()));
    assert_eq!(heading_rule(&c, 3, false, 3), None);
    assert_eq!(heading_rule(&c, 1, true, 3), None);
}
