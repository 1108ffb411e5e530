use mdx::ast::parse_markdown;
use mdx::render::Chars;
use mdx::style::ColorLevel;
use mdx::theme::Theme;
use mdx::walk::{document_events, render_document, render_events, render_step, NodeEvent, RenderConfig, RenderOut, RenderState};
use typed_arena::Arena;

fn config(plain: bool) -> RenderConfig {
    RenderConfig {
        width: 80,
        level: ColorLevel::NoColor,
        osc8: false,
        plain,
        chars: Chars::ascii(),
        theme: Theme::dark(),
        syntax_theme: "base16-ocean.dark".to_string(),
    }
}

fn text_of(outs: &[RenderOut]) -> String {
    let mut s = String::new();
    for o in outs {
        match o {
            RenderOut::Piece(t, _) => s.push_str(t),
            RenderOut::Table(..) => s.push_str("<table>"),
        }
    }
    s
}

fn render_md(md: &str, plain: bool) -> String {
    let arena = Arena::new();
    let root = parse_markdown(&arena, md);
    text_of(&render_document(root, &config(plain)))
}

#[test]
fn test_walk_ordered_list_numbers() {
    assert_eq!(render_md("1. a\n2. b\n", false), "1. a\n2. b\n\n");
}

#[test]
fn test_walk_ordered_list_keeps_its_start() {
    assert_eq!(render_md("3. a\n4. b\n", false), "3. a\n4. b\n\n");
}

#[test]
fn test_walk_bullet_list() {
    assert_eq!(render_md("- a\n- b\n", false), "* a\n* b\n\n");
}

#[test]
fn test_walk_blockquote_prefix() {
    assert_eq!(render_md("> hi\n", false), "| hi\n");
}

#[test]
fn test_walk_paragraphs_separated_by_blank_line() {
    assert_eq!(render_md("a\n\nb\n", false), "a\n\nb\n");
}

#[test]
fn test_walk_link_destination_after_label() {
    assert_eq!(render_md("[x](http://e.com)\n", false), "x (http://e.com)\n");
}

#[test]
fn test_walk_autolink_has_no_note() {
    assert_eq!(render_md("<http://e.com>\n", false), "http://e.com\n");
}

#[test]
fn test_walk_strikethrough_fallback_without_color() {
    assert_eq!(render_md("~~x~~\n", false), "~~x~~\n");
}

#[test]
fn test_walk_task_marker() {
    assert!(render_md("- [x] done\n", false).contains("[x] done"));
    assert!(render_md("- [ ] todo\n", false).contains("[ ] todo"));
}

#[test]
fn test_walk_rule_spans_width() {
    assert_eq!(render_md("***\n", false), format!("{}\n", "-".repeat(80)));
}

#[test]
fn test_walk_plain_rule() {
    assert_eq!(render_md("a\n\n***\n", true), "a\n\n---\n");
}

#[test]
fn test_walk_plain_code_block() {
    assert_eq!(render_md("```\nx\n```\n", true), "    x\n");
}

#[test]
fn test_walk_h1_rule_and_text() {
    let rule = "=".repeat(80);
    assert_eq!(render_md("# Title\n", false), format!("{rule}\nTITLE\n{rule}\n"));
    assert_eq!(render_md("## Sub\n", true), "## Sub\n");
}

#[test]
fn test_walk_table_handed_back() {
    let arena = Arena::new();
    let root = parse_markdown(&arena, "| a | b |\n|---|---|\n| 1 | 2 |\n");
    let outs = render_document(root, &config(false));
    let tables: Vec<&RenderOut> = outs.iter().filter(|o| matches!(o, RenderOut::Table(..))).collect();
    assert_eq!(tables.len(), 1);
    match tables[0] {
        RenderOut::Table(t, indent) => {
            assert_eq!(t.rows, vec![vec!["a".to_string(), "b".to_string()], vec!["1".to_string(), "2".to_string()]]);
            assert_eq!(t.header_rows, 1);
            assert_eq!(indent, "");
        }
        _ => unreachable!(),
    }
}

#[test]
fn test_document_events_in_order() {
    let arena = Arena::new();
    let root = parse_markdown(&arena, "# T\n");
    let evs = document_events(root);
    assert_eq!(evs.len(), 6);
    assert!(matches!(evs[0], NodeEvent::Other));
    assert!(matches!(evs[1], NodeEvent::HeadingStart(1)));
    assert!(matches!(&evs[2], NodeEvent::Text(t) if t == "T"));
    assert!(matches!(evs[3], NodeEvent::Other));
    assert!(matches!(evs[4], NodeEvent::HeadingEnd(1)));
    assert!(matches!(evs[5], NodeEvent::Other));
}

#[test]
fn test_render_step_list_start_writes_nothing() {
    let (st, out) = render_step(RenderState::new(), &NodeEvent::ListStart(true, 1, true), &config(false));
    assert!(out.is_empty());
    assert_eq!(st.lists.len(), 1);
    assert!(st.tight);
}

#[test]
fn test_render_in_two_runs_matches_one() {
    let arena = Arena::new();
    let root = parse_markdown(&arena, "# T\n\n> q *e*\n\n1. a\n2. b\n");
    let evs = document_events(root);
    let c = config(false);
    let whole = text_of(&render_events(&evs, &c));
    let mut st = RenderState::new();
    let mut parts = String::new();
    for ev in &evs {
        let (next, out) = render_step(st, ev, &c);
        parts.push_str(&text_of(&out));
        st = next;
    }
    assert_eq!(whole, parts);
}

#[test]
fn test_spans_restore_styles() {
    let c = config(false);
    let (st, _) = render_step(RenderState::new(), &NodeEvent::StrongStart, &c);
    assert_eq!(st.styles.len(), 1);
    let (st, _) = render_step(st, &NodeEvent::StrongEnd, &c);
    assert!(st.styles.is_empty());
    let (st, _) = render_step(st, &NodeEvent::QuoteStart, &c);
    assert_eq!(st.quote_depth, 1);
    let (st, _) = render_step(st, &NodeEvent::QuoteEnd, &c);
    assert_eq!(st.quote_depth, 0);
    assert!(st.styles.is_empty());
}

#[test]
fn test_ordered_items_count_up() {
    let c = config(false);
    let (st, _) = render_step(RenderState::new(), &NodeEvent::ListStart(true, 5, true), &c);
    let (st, out) = render_step(st, &NodeEvent::ItemStart, &c);
    assert_eq!(text_of(&out), "5. ");
    assert_eq!(st.lists[0].current, 6);
    let (st, _) = render_step(st, &NodeEvent::ItemEnd, &c);
    let (_, out) = render_step(st, &NodeEvent::ItemStart, &c);
    assert_eq!(text_of(&out), "6. ");
}

#[test]
fn test_walk_alert_is_quoted() {
    let out = render_md("> [!NOTE]\n> hi\n", false);
    assert!(out.starts_with("| "));
    assert!(out.contains("| hi\n"));
}

#[test]
fn test_walk_footnote_reference_and_label() {
    let out = render_md("a[^1]\n\n[^1]: b\n", false);
    assert!(out.starts_with("a[1]\n"));
    assert!(out.contains("[1]: "));
}
