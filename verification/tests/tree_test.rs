use mdx::ast::{inline_text, parse_markdown, CodeStyle};
use mdx::dump::{ast_to_json, convert_ast_to_json, convert_plain_text, extract_plain_text, extract_title};
use mdx::fmt::format_markdown;
use mdx::lint::{check_broken_links, check_duplicate_headings, check_image_alt_text, extract_text, link_checks, Issue};
use mdx::lint::{lint_issues, sort_issues};
use mdx::stats::{collect_stats, reading_minutes};
use mdx::toc::{collect_headings, toc_lines};
use typed_arena::Arena;

fn flatten(md: &str, code: CodeStyle) -> String {
    let arena = Arena::new();
    let root = parse_markdown(&arena, md);
    inline_text(root, code)
}

#[test]
fn test_plain_text() {
    assert_eq!(flatten("hello world", CodeStyle::Bare), "hello world");
}

#[test]
fn test_code_style_fenced_keeps_backticks() {
    assert_eq!(flatten("a `b` c", CodeStyle::Fenced), "a `b` c");
}

#[test]
fn test_code_style_bare_drops_backticks() {
    assert_eq!(flatten("a `b` c", CodeStyle::Bare), "a b c");
}

#[test]
fn test_inline_code_is_never_dropped() {
    assert!(flatten("`--flag` reference", CodeStyle::Bare).contains("--flag"));
}

#[test]
fn test_hard_break_becomes_a_space() {
    let out = flatten("one  \ntwo", CodeStyle::Bare);
    assert!(out.contains("one two"), "got: {:?}", out);
}

#[test]
fn test_soft_break_becomes_a_space() {
    assert!(flatten("one\ntwo", CodeStyle::Bare).contains("one two"));
}

#[test]
fn test_emphasis_is_unwrapped() {
    assert_eq!(flatten("**bold** and *it*", CodeStyle::Bare), "bold and it");
}

#[test]
fn test_fmt_preserves_gfm_alert() {
    let input = "> [!NOTE]\n> Useful information.\n";
    let out = format_markdown(input);
    assert!(out.contains("> [!NOTE]"), "alert marker must survive a fmt round-trip, got: {}", out);
}

#[test]
fn test_fmt_preserves_all_alert_types() {
    for kind in ["NOTE", "TIP", "IMPORTANT", "WARNING", "CAUTION"] {
        let input = format!("> [!{}]\n> Body text.\n", kind);
        let out = format_markdown(&input);
        assert!(out.contains(&format!("> [!{}]", kind)), "alert type {} must survive fmt, got: {}", kind, out);
    }
}

#[test]
fn test_fmt_preserves_alert_custom_title() {
    let input = "> [!TIP] Pro tip\n> Body.\n";
    let out = format_markdown(input);
    assert!(out.contains("> [!TIP] Pro tip"), "custom alert title must survive fmt, got: {}", out);
}

#[test]
fn test_fmt_alert_is_idempotent() {
    let once = format_markdown("> [!WARNING]\n> Careful.\n");
    let twice = format_markdown(&once);
    assert_eq!(once, twice, "fmt must be stable across repeated runs");
}

#[test]
fn test_fmt_leaves_unknown_bracket_blockquote_alone() {
    let out = format_markdown("> [!NOPE]\n> Body.\n");
    assert!(out.contains("NOPE"), "non-alert bracket text must survive fmt, got: {}", out);
    assert!(!out.contains("[!NOTE]"), "non-alert blockquote must not become an alert, got: {}", out);
    assert_eq!(out, format_markdown(&out), "fmt must be stable for non-alert blockquotes");
}

#[test]
fn test_fmt_alert_title_escapes_are_unescaped_once_then_stable() {
    let once = format_markdown("> [!NOTE] a\\_b\n> Body.\n");
    assert!(once.contains("> [!NOTE] a_b"), "alert title is unescaped once, got: {}", once);
    assert_eq!(once, format_markdown(&once), "and then must be stable");
}

#[test]
fn fmt_ends_with_one_newline() {
    assert_eq!(format_markdown("# Title"), "# Title\n");
}

#[test]
fn json_dump_of_a_heading() {
    let arena = Arena::new();
    let root = parse_markdown(&arena, "# Hi");
    let expected = "{\n  \"type\": \"document\",\n  \"children\": [\n    {\n      \"type\": \"heading\",\n      \"level\": 1,\n      \"children\": [\n        {\n          \"type\": \"text\",\n          \"value\": \"Hi\"\n        }\n      ]\n    }\n  ]\n}";
    assert_eq!(ast_to_json(root, 0), expected);
}

#[test]
fn json_dump_flavours_differ_on_extensions() {
    let arena = Arena::new();
    let root = parse_markdown(&arena, "- [x] done\n");
    let full = ast_to_json(root, 0);
    let basic = convert_ast_to_json(root, 0);
    assert!(full.contains("\"type\": \"task_item\""), "{}", full);
    assert!(full.contains("\"checked\": true"), "{}", full);
    assert!(basic.contains("\"type\": \"other\""), "{}", basic);
    assert!(!basic.contains("checked"), "{}", basic);
}

#[test]
fn json_dump_escapes_strings() {
    let arena = Arena::new();
    let root = parse_markdown(&arena, "`a\"b`");
    assert!(ast_to_json(root, 0).contains("\"value\": \"a\\\"b\""));
}

#[test]
fn plain_text_separates_blocks() {
    let arena = Arena::new();
    let root = parse_markdown(&arena, "# Title\n\nFirst para.\n\nSecond para.\n");
    assert_eq!(extract_plain_text(root), "Title\n\nFirst para.\n\nSecond para.\n");
}

#[test]
fn plain_text_keeps_link_targets() {
    let arena = Arena::new();
    let root = parse_markdown(&arena, "[probe link](https://example.com/probe) and <https://example.com/auto>\n");
    let txt = extract_plain_text(root);
    assert_eq!(txt, "probe link (https://example.com/probe) and https://example.com/auto\n");
    assert_eq!(convert_plain_text(root), "probe link and https://example.com/auto\n");
}

#[test]
fn plain_text_tables_use_pipes() {
    let arena = Arena::new();
    let root = parse_markdown(&arena, "| a | b |\n|---|---|\n| 1 | 2 |\n");
    assert_eq!(extract_plain_text(root), "a | b\n1 | 2\n");
}

#[test]
fn plain_text_of_nothing_is_empty() {
    let arena = Arena::new();
    let root = parse_markdown(&arena, "   \n");
    assert_eq!(extract_plain_text(root), "");
}

#[test]
fn title_is_first_level_one_heading() {
    let arena = Arena::new();
    let root = parse_markdown(&arena, "## Sub\n\n# `Main` title\n\n# Other\n");
    assert_eq!(extract_title(root), Some("Main title".to_string()));
    let root2 = parse_markdown(&arena, "## Only sub\n");
    assert_eq!(extract_title(root2), None);
}

#[test]
fn stats_count_nodes_and_words() {
    let arena = Arena::new();
    let md = "# Head\n\nTwo words [link](x) ![img](y)\n\n```\ncode\n```\n";
    let root = parse_markdown(&arena, md);
    let s = collect_stats(root, md);
    assert_eq!(s.headings, 1);
    assert_eq!(s.links, 1);
    assert_eq!(s.images, 1);
    assert_eq!(s.code_blocks, 1);
    assert_eq!(s.words, 5);
    assert_eq!(s.lines, 7);
    assert_eq!(s.chars, md.len());
    assert_eq!(reading_minutes(0), 1);
    assert_eq!(reading_minutes(238), 1);
    assert_eq!(reading_minutes(239), 2);
}

#[test]
fn duplicate_headings_are_reported_once_per_repeat() {
    let arena = Arena::new();
    let root = parse_markdown(&arena, "# A\n\n## B\n\n# A\n\n### A\n");
    let mut issues: Vec<Issue> = Vec::new();
    check_duplicate_headings(root, &mut issues);
    assert_eq!(issues.len(), 2);
    assert_eq!(issues[0].line, 5);
    assert_eq!(issues[0].message, "duplicate heading: \"A\"");
    assert_eq!(issues[1].line, 7);
}

#[test]
fn images_without_alt_text_are_reported() {
    let arena = Arena::new();
    let root = parse_markdown(&arena, "![](a.png)\n\n![alt](b.png)\n\n![](c.png \"title\")\n");
    let mut issues: Vec<Issue> = Vec::new();
    check_image_alt_text(root, &mut issues);
    assert_eq!(issues.len(), 1);
    assert_eq!(issues[0].line, 1);
    assert_eq!(issues[0].message, "image missing alt text");
}

#[test]
fn only_local_links_are_checked() {
    let arena = Arena::new();
    let root = parse_markdown(
        &arena,
        "[a](https://x.org) [b](#top) [c](mailto:me@x.org) [d](notes.md#part) [e](missing.md)\n",
    );
    let checks = link_checks(root);
    assert_eq!(checks.len(), 2);
    assert_eq!(checks[0].path, "notes.md");
    assert_eq!(checks[1].url, "missing.md");
    let mut issues: Vec<Issue> = Vec::new();
    check_broken_links(&checks, &vec![true, false], &mut issues);
    assert_eq!(issues.len(), 1);
    assert_eq!(issues[0].message, "broken link: missing.md");
}

#[test]
fn text_of_a_node_is_its_text_nodes() {
    let arena = Arena::new();
    let root = parse_markdown(&arena, "a *b* `c`\n");
    assert_eq!(extract_text(root), "a b ");
}

#[test]
fn toc_anchors_are_unique() {
    let arena = Arena::new();
    let root = parse_markdown(&arena, "# Intro\n\n## Setup\n\n## Setup\n\n#### Deep\n");
    let hs = collect_headings(root);
    assert_eq!(hs.len(), 4);
    assert_eq!(hs[1].anchor, "setup");
    assert_eq!(hs[2].anchor, "setup-1");
    let lines = toc_lines(&hs, 3);
    assert_eq!(
        lines,
        vec!["- [Intro](#intro)".to_string(), "  - [Setup](#setup)".to_string(), "  - [Setup](#setup-1)".to_string()]
    );
}

#[test]
fn lint_report_is_in_line_order() {
    let md = "# A\ntext \n![](x.png)\n\n# A\n\n[l](missing.md)\n";
    let arena = Arena::new();
    let root = parse_markdown(&arena, md);
    let checks = link_checks(root);
    assert_eq!(checks.len(), 1);
    let exists = vec![false];
    let issues = lint_issues(root, md, &checks, &exists);
    let lines: Vec<usize> = issues.iter().map(|i| i.line).collect();
    assert_eq!(lines, vec![2, 3, 5, 7]);
    assert_eq!(issues[0].message, "trailing whitespace");
}

#[test]
fn issues_on_one_line_keep_their_order() {
    let mk = |line: usize, m: &str| Issue { line, message: m.to_string() };
    let mut issues = vec![mk(3, "a"), mk(1, "b"), mk(3, "c"), mk(2, "d")];
    sort_issues(&mut issues);
    let got: Vec<(usize, String)> = issues.into_iter().map(|i| (i.line, i.message)).collect();
    assert_eq!(got, vec![(1, "b".to_string()), (2, "d".to_string()), (3, "a".to_string()), (3, "c".to_string())]);
}

#[test]
fn anchors_take_the_first_free_suffix() {
    let arena = Arena::new();
    let root = parse_markdown(&arena, "# A\n\n# A\n\n# A-1\n");
    let hs = collect_headings(root);
    let anchors: Vec<&str> = hs.iter().map(|h| h.anchor.as_str()).collect();
    assert_eq!(anchors, vec!["a", "a-1", "a-1-1"]);
}

#[test]
fn formatting_ends_in_one_newline() {
    assert_eq!(format_markdown("# Title"), "# Title\n");
}
