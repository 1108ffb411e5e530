use mdx::serve::static_request;
use mdx::nav::{clamp_scroll, half_page, scroll_step, ScrollKey};
use mdx::nav::{slide_offset, slide_step, SlideKey};
use mdx::fetch::{body_kind, sniffs_html, BodyKind};
use mdx::fetch::{raw_fallback, readable_markdown, Readable};
use mdx::serve::{new_file_markdown, new_file_name, paste_extension, NameError};
use mdx::ast::{AlertKind, TableAlign};
use mdx::cli::ColorMode;
use mdx::render::{
    alert_label, available_width, bullet_for_depth, current_style, heading_display, indent_prefix, is_autolink,
    ordered_marker, strip_tags, url_budget, Chars,
};
use mdx::render::{box_bottom, code_box_top, fit_code_line, math_box_top};
use mdx::search::{
    build_field_stats, dedup_tokens, find_content_start, generate_snippet, highlight_fits, highlight_terms, tokenize,
    truncate_chars,
};
use mdx::style::{ColorLevel, ImageProtocol, Style};
use mdx::table::{column_widths, draw_table, plain_table, shrink_budget, Piece, TableRole, TableState};
use mdx::terminal::{color_level_from_env, image_protocol_from_env, unicode_from_env, TerminalInfo};
use mdx::update::{asset_url, needs_update, release_target, tag_version};

fn texts(line: &[Piece]) -> String {
    line.iter().map(|p| p.text.as_str()).collect()
}

fn rows(cells: &[&[&str]]) -> Vec<Vec<String>> {
    cells.iter().map(|r| r.iter().map(|c| c.to_string()).collect()).collect()
}

#[test]
fn table_state_collects_cells() {
    let mut ts = TableState::new(vec![TableAlign::Left]);
    ts.start_row(true);
    ts.start_cell();
    ts.push_text("Na");
    ts.push_text("me");
    ts.end_cell();
    ts.end_row();
    ts.start_row(false);
    ts.start_cell();
    ts.push_text("x");
    ts.end_cell();
    ts.end_row();
    assert_eq!(ts.rows, rows(&[&["Name"], &["x"]]));
    assert_eq!(ts.header_rows, 1);
}

#[test]
fn column_widths_are_at_least_three() {
    let r = rows(&[&["a", "longer"], &["bb"]]);
    assert_eq!(column_widths(&r), vec![3, 6]);
    assert_eq!(column_widths(&Vec::new()), Vec::<usize>::new());
}

#[test]
fn shrink_only_when_too_wide() {
    assert_eq!(shrink_budget(&vec![3, 6], 80), None);
    assert_eq!(shrink_budget(&vec![30, 30], 40), Some(33));
    assert_eq!(shrink_budget(&vec![30, 30], 7), None);
}

#[test]
fn boxed_table_lines() {
    let r = rows(&[&["h1", "h2"], &["a", "b"]]);
    let widths = column_widths(&r);
    let lines = draw_table(&r, &widths, &vec![TableAlign::Left, TableAlign::Right], 1, &Chars::ascii());
    let shown: Vec<String> = lines.iter().map(|l| texts(l)).collect();
    assert_eq!(
        shown,
        vec![
            "+-----+-----+".to_string(),
            "| h1  |  h2 |".to_string(),
            "+=====+=====+".to_string(),
            "| a   |   b |".to_string(),
            "+-----+-----+".to_string(),
        ]
    );
    assert_eq!(lines[1][2].role, TableRole::Header);
    assert_eq!(lines[3][2].role, TableRole::Cell);
    assert_eq!(lines[1][1].role, TableRole::Gap);
    assert_eq!(lines[0][0].role, TableRole::Border);
}

#[test]
fn long_cells_wrap_onto_more_lines() {
    let r = rows(&[&["one two three"]]);
    let lines = draw_table(&r, &vec![5], &Vec::new(), 0, &Chars::ascii());
    let shown: Vec<String> = lines.iter().map(|l| texts(l)).collect();
    assert_eq!(shown.len(), 5);
    assert_eq!(shown[1], "| one   |");
    assert_eq!(shown[3], "| three |");
}

#[test]
fn plain_table_uses_pipes() {
    let r = rows(&[&["h1", "h2"], &["a"]]);
    assert_eq!(
        plain_table(&r, 1),
        vec!["| h1  | h2  |".to_string(), "|-----|-----|".to_string(), "| a   |     |".to_string()]
    );
}

#[test]
fn tokens_are_lowercase_alphanumeric_runs() {
    assert_eq!(tokenize("Hello, World! x2"), vec!["hello", "world", "x2"]);
    assert_eq!(dedup_tokens(tokenize("a b a c b")), vec!["a", "b", "c"]);
}

#[test]
fn field_stats_count_terms() {
    let s = build_field_stats("Rust and rust and more");
    assert_eq!(s.total_tokens, 5);
    assert_eq!(
        s.term_freqs,
        vec![("rust".to_string(), 2), ("and".to_string(), 2), ("more".to_string(), 1)]
    );
}

#[test]
fn truncation_backs_up_to_a_space() {
    assert_eq!(truncate_chars("short", 10), "short");
    assert_eq!(truncate_chars("hello world again", 13), "hello world...");
    assert_eq!(truncate_chars("abcdefgh", 4), "abcd...");
}

#[test]
fn content_starts_after_front_matter() {
    assert_eq!(find_content_start("---\ntitle: x\n---\nbody\n"), 3);
    assert_eq!(find_content_start("no front matter"), 0);
    assert_eq!(find_content_start("---\nunclosed"), 0);
}

#[test]
fn snippet_picks_best_line_and_heading() {
    let raw = "# Intro\nnothing here\n## Usage\nrun the search tool\nlast line\n";
    let headings = vec![(1u8, "Intro".to_string(), 1usize), (2u8, "Usage".to_string(), 3usize)];
    let q = vec!["search".to_string(), "tool".to_string()];
    let (snip, head) = generate_snippet(raw, &headings, &q).unwrap();
    assert_eq!(snip, "## Usage run the search tool last line");
    assert_eq!(head, Some("## Usage".to_string()));
    assert_eq!(generate_snippet(raw, &headings, &vec!["absent".to_string()]), None);
}

#[test]
fn highlighting_wraps_matches() {
    let q = vec!["rust".to_string()];
    assert!(highlight_fits("I like Rust.", &q, "[", "]"));
    assert_eq!(highlight_terms("I like Rust.", &q, "[", "]"), "I like [Rust].");
    assert_eq!(highlight_terms("I like Rust.", &q, "", ""), "I like Rust.");
}

#[test]
fn color_level_from_environment() {
    assert_eq!(color_level_from_env(&Some("1".to_string()), &None, Some((true, true, true))), ColorLevel::NoColor);
    assert_eq!(color_level_from_env(&Some(String::new()), &None, Some((false, true, true))), ColorLevel::Ansi256);
    assert_eq!(color_level_from_env(&None, &Some("dumb".to_string()), Some((true, true, true))), ColorLevel::NoColor);
    assert_eq!(color_level_from_env(&None, &None, None), ColorLevel::NoColor);
    assert_eq!(color_level_from_env(&None, &None, Some((false, false, true))), ColorLevel::Basic);
}

#[test]
fn images_and_unicode_from_environment() {
    assert_eq!(image_protocol_from_env(&Some("WezTerm".to_string()), true), ImageProtocol::ITerm2);
    assert_eq!(image_protocol_from_env(&None, true), ImageProtocol::Kitty);
    assert_eq!(image_protocol_from_env(&Some("xterm".to_string()), false), ImageProtocol::NoImages);
    assert!(unicode_from_env(&vec![None, Some("en_US.utf-8".to_string()), Some("C".to_string())], false));
    assert!(!unicode_from_env(&vec![Some("C".to_string()), Some("en_US.UTF-8".to_string())], true));
    assert!(unicode_from_env(&vec![None, Some(String::new()), None], true));
}

#[test]
fn terminal_decisions() {
    let t = TerminalInfo::decide(ColorMode::Always, None, None, false, ColorLevel::NoColor, true, ImageProtocol::Kitty);
    assert_eq!(t.width, 80);
    assert_eq!(t.color_level, ColorLevel::TrueColor);
    assert!(t.supports_osc8);
    assert_eq!(t.image_protocol, ImageProtocol::NoImages);
    let t2 = TerminalInfo::decide(ColorMode::Auto, Some(100), Some(50), true, ColorLevel::Basic, false, ImageProtocol::Kitty);
    assert_eq!(t2.width, 100);
    assert_eq!(t2.color_level, ColorLevel::Basic);
    assert!(t2.supports_osc8);
    assert_eq!(t2.image_protocol, ImageProtocol::Kitty);
    let t3 = TerminalInfo::decide(ColorMode::Never, None, Some(50), true, ColorLevel::TrueColor, false, ImageProtocol::NoImages);
    assert_eq!(t3.width, 50);
    assert_eq!(t3.color_level, ColorLevel::NoColor);
    assert!(!t3.supports_osc8);
}

#[test]
fn indentation_and_markers() {
    assert_eq!(indent_prefix(0, 0, '|'), "");
    assert_eq!(indent_prefix(2, 1, '|'), "|  |   ");
    assert_eq!(indent_prefix(1, 2, '|'), "|     ");
    let c = Chars::ascii();
    assert_eq!(bullet_for_depth(&c, 0), "*");
    assert_eq!(bullet_for_depth(&c, 4), "-");
    assert_eq!(ordered_marker(12), "12. ");
    assert_eq!(available_width(80, "  "), 78);
    assert_eq!(available_width(1, "    "), 0);
    assert_eq!(url_budget(60), 37);
    assert_eq!(url_budget(3), 0);
    assert_eq!(alert_label(AlertKind::Warning), "Warning");
}

#[test]
fn links_and_html_in_the_terminal() {
    assert!(is_autolink(" https://x.org ", "https://x.org"));
    assert!(is_autolink("me@x.org", "mailto:me@x.org"));
    assert!(!is_autolink("site", "https://x.org"));
    assert_eq!(strip_tags("a <b>bold</b> <br/>c"), "a bold c");
}

#[test]
fn headings_in_the_terminal() {
    assert_eq!(heading_display("Title", 1, false), "TITLE");
    assert_eq!(heading_display("Sub", 2, false), "Sub");
    assert_eq!(heading_display("Sub", 2, true), "## Sub");
}

#[test]
fn stacked_styles_merge_in_order() {
    let mut bold = Style::plain();
    bold.bold = true;
    let mut dim = Style::plain();
    dim.dim = true;
    let s = current_style(&vec![bold, dim]);
    assert!(s.bold && s.dim && !s.italic);
    assert_eq!(current_style(&Vec::new()), Style::plain());
}

#[test]
fn release_assets() {
    assert_eq!(release_target("linux", "x86_64", false), Some("x86_64-unknown-linux-gnu"));
    assert_eq!(release_target("linux", "x86_64", true), Some("x86_64-unknown-linux-musl"));
    assert_eq!(release_target("freebsd", "x86_64", false), None);
    assert_eq!(tag_version("v1.2.3"), "1.2.3");
    assert_eq!(tag_version("1.2.3"), "1.2.3");
    assert!(needs_update("v1.2.4", "1.2.3"));
    assert!(!needs_update("v1.2.3", "1.2.3"));
    assert_eq!(
        asset_url("v1.0.0", "x86_64-apple-darwin"),
        "https://github.com/Harsh-2002/mdx/releases/download/v1.0.0/mdx-x86_64-apple-darwin.tar.gz"
    );
}

#[test]
fn scrolling_keys() {
    assert_eq!(scroll_step(5, ScrollKey::Quit, 10), None);
    assert_eq!(scroll_step(5, ScrollKey::LineDown, 10), Some(6));
    assert_eq!(scroll_step(0, ScrollKey::LineUp, 10), Some(0));
    assert_eq!(scroll_step(5, ScrollKey::HalfPageUp, 10), Some(0));
    assert_eq!(scroll_step(u16::MAX, ScrollKey::HalfPageDown, 10), Some(u16::MAX));
    assert_eq!(scroll_step(7, ScrollKey::Bottom, 10), Some(u16::MAX));
    assert_eq!(scroll_step(7, ScrollKey::Ignored, 10), Some(7));
    assert_eq!(half_page(25), 12);
    assert_eq!(clamp_scroll(u16::MAX, 100, 30), 70);
    assert_eq!(clamp_scroll(3, 10, 30), 0);
}

#[test]
fn slide_keys() {
    assert_eq!(slide_step(0, 4, 3, SlideKey::Next), Some((1, 0)));
    assert_eq!(slide_step(2, 4, 3, SlideKey::Next), Some((2, 4)));
    assert_eq!(slide_step(1, 4, 3, SlideKey::Previous), Some((0, 0)));
    assert_eq!(slide_step(0, 4, 3, SlideKey::Previous), Some((0, 4)));
    assert_eq!(slide_step(1, 4, 3, SlideKey::Last), Some((2, 0)));
    assert_eq!(slide_step(1, 4, 3, SlideKey::LineDown), Some((1, 5)));
    assert_eq!(slide_step(1, 4, 3, SlideKey::Quit), None);
    assert_eq!(slide_offset(10, 30), 10);
    assert_eq!(slide_offset(40, 30), 0);
}

#[test]
fn response_kinds() {
    assert_eq!(body_kind("text/markdown; charset=utf-8", "https://x.org/a"), BodyKind::Markdown);
    assert_eq!(body_kind("text/plain", "https://x.org/README.md?raw=1"), BodyKind::Markdown);
    assert_eq!(body_kind("text/plain", "https://x.org/notes.txt"), BodyKind::Unsupported);
    assert_eq!(body_kind("", "https://x.org/"), BodyKind::Sniff);
    assert_eq!(body_kind("application/xhtml+xml", "https://x.org/"), BodyKind::Html);
    assert!(sniffs_html("  \n<!DOCTYPE html><html>"));
    assert!(sniffs_html("<HTML>"));
    assert!(!sniffs_html("# Title"));
}

#[test]
fn readable_article_to_markdown() {
    let article = Readable {
        title: "Hello".to_string(),
        text: "Body text.".to_string(),
        byline: Some("Ann".to_string()),
        excerpt: None,
        published_time: None,
        image: None,
        url: Some("https://x.org/p".to_string()),
        site_name: None,
    };
    let (md, meta) = readable_markdown(Some(article), "<p>ignored</p>");
    assert_eq!(md, "# Hello\n\nBody text.\n");
    let meta = meta.unwrap();
    assert_eq!(meta.title, Some("Hello".to_string()));
    assert_eq!(meta.byline, Some("Ann".to_string()));
    let (fallback, none) = readable_markdown(None, "<p>Para</p>");
    assert_eq!(fallback, raw_fallback("<p>Para</p>"));
    assert!(none.is_none());
}

#[test]
fn new_files_from_the_editor() {
    assert_eq!(new_file_name("  notes \n"), Ok("notes.md".to_string()));
    assert_eq!(new_file_name("notes.md"), Ok("notes.md".to_string()));
    assert_eq!(new_file_name("   "), Err(NameError::Empty));
    assert_eq!(new_file_name("../x"), Err(NameError::Invalid));
    assert_eq!(new_file_name(&"a".repeat(300)), Err(NameError::Invalid));
    assert_eq!(new_file_markdown("notes.md"), "# notes\n");
    assert_eq!(paste_extension("image/jpeg"), "jpg");
    assert_eq!(paste_extension("image/png"), "png");
    assert_eq!(paste_extension("text/plain"), "png");
}

#[test]
fn code_box_top_carries_the_language() {
    let c = Chars::ascii();
    assert_eq!(code_box_top(&c, "rust", 20), "+- rust -----------+");
    assert_eq!(code_box_top(&c, "", 10), "+--------+");
}

#[test]
fn code_box_top_cuts_a_long_label() {
    let c = Chars::ascii();
    assert_eq!(code_box_top(&c, "javascript", 8), "+- java+");
}

#[test]
fn code_lines_are_padded_or_cut() {
    assert_eq!(fit_code_line("abc", 6), "abc   ");
    assert_eq!(fit_code_line("abcdefgh", 5), "abcd\u{2026}");
}

#[test]
fn box_borders_span_the_width() {
    let c = Chars::ascii();
    assert_eq!(box_bottom(&c, 6), "+----+");
    assert_eq!(math_box_top(&c, 20), "+- math -----------+");
}

#[test]
fn static_requests_are_plain_names_with_an_image_extension() {
    let v = |xs: &[&str]| Some(xs.iter().map(|x| x.to_string()).collect::<Vec<String>>());
    assert_eq!(static_request("assets/ok.png"), v(&["assets", "ok.png"]));
    assert_eq!(static_request("./assets//ok.PNG"), v(&["assets", "ok.PNG"]));
    assert_eq!(static_request("../outside.png"), None);
    assert_eq!(static_request("assets/../../outside.png"), None);
    assert_eq!(static_request("/etc/passwd"), None);
    assert_eq!(static_request("notes.txt"), None);
    assert_eq!(static_request("assets"), None);
    assert_eq!(static_request(""), None);
    assert_eq!(static_request(".png"), None);
    assert_eq!(static_request("a\0b.png"), None);
}
