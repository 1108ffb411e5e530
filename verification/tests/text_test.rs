use mdx::text::{
    display_width, pad_to_width, repeat_char, truncate_to_width, truncate_url, wrap_text,
    Alignment, FenceTracker,
};

#[test]
fn test_backtick_fence_open_and_close() {
    let mut f = FenceTracker::new();
    assert!(f.feed("```rust"));
    assert!(f.feed("code"));
    assert!(!f.feed("```"));
    assert!(!f.feed("after"));
}

#[test]
fn test_tilde_fence_is_tracked_separately() {
    let mut f = FenceTracker::new();
    assert!(f.feed("~~~"));
    assert!(f.feed("```"));
    assert!(!f.feed("~~~"));
}

#[test]
fn test_closing_fence_must_be_at_least_as_long() {
    let mut f = FenceTracker::new();
    assert!(f.feed("````"));
    assert!(f.feed("```"), "shorter run must not close the fence");
    assert!(!f.feed("````"));
}

#[test]
fn test_runs_shorter_than_three_are_content() {
    let mut f = FenceTracker::new();
    assert!(!f.feed("`` inline ``"));
    assert!(!f.feed("text"));
}

#[test]
fn fence_in_fence_reports_state() {
    let mut f = FenceTracker::new();
    assert!(!f.in_fence());
    f.feed("  ~~~~ ");
    assert!(f.in_fence());
}

#[test]
fn test_truncate_to_width_leaves_short_strings_alone() {
    assert_eq!(truncate_to_width("abc", 10), "abc");
    assert_eq!(truncate_to_width("", 10), "");
}

#[test]
fn test_truncate_to_width_never_splits_a_character() {
    for width in 0..12 {
        let out = truncate_to_width("✅✅✅✅✅✅", width);
        assert!(out.chars().count() * 3 >= out.len(), "produced invalid UTF-8");
    }
    assert_eq!(truncate_to_width("日本語テキスト", 6), "日本\u{2026}");
}

#[test]
fn test_truncate_to_width_counts_display_columns() {
    assert!(display_width(&truncate_to_width("✅✅✅✅✅✅", 8)) <= 8);
    assert!(display_width(&truncate_to_width("abcdefghij", 8)) <= 8);
    assert!(display_width(&truncate_to_width("日本語テキスト日本語", 10)) <= 10);
}

#[test]
fn test_truncate_to_width_marks_the_cut() {
    assert!(truncate_to_width("abcdefghij", 5).ends_with('\u{2026}'));
    assert!(!truncate_to_width("abc", 5).ends_with('\u{2026}'));
}

#[test]
fn truncate_url_small_widths_cut_to_fit() {
    assert_eq!(truncate_url("https://example.com", 3), "htt");
    assert_eq!(truncate_url("https://example.com", 8), "https:/\u{2026}");
}

#[test]
fn pad_to_width_alignments() {
    assert_eq!(pad_to_width("ab", 5, Alignment::Left), "ab   ");
    assert_eq!(pad_to_width("ab", 5, Alignment::Right), "   ab");
    assert_eq!(pad_to_width("ab", 5, Alignment::Center), " ab  ");
    assert_eq!(pad_to_width("日本", 3, Alignment::Left), "日本");
}

#[test]
fn repeat_char_and_wrap() {
    assert_eq!(repeat_char('─', 3), "───");
    assert_eq!(repeat_char('x', 0), "");
    assert_eq!(wrap_text("aaa bbb", 0), "aaa bbb");
    assert_eq!(wrap_text("aaa bbb ccc", 7), "aaa bbb\nccc");
    assert_eq!(display_width("日本a"), 5);
}

#[test]
fn narrow_widths_cut_without_the_ellipsis() {
    assert_eq!(truncate_to_width("abcdef", 3), "abc");
    assert_eq!(truncate_url("https://example.com/long", 2), "ht");
    assert_eq!(truncate_to_width("日本語", 3), "日");
    assert_eq!(truncate_to_width("abc", 0), "");
}
