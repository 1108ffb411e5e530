use mdx::html::{
    html_escape, known_syntax_theme, page_html, page_multi_html, render_index_page, standalone_html,
    theme_strings, url_escape,
};
use mdx::theme::ThemeName;

#[test]
fn html_escape_entities() {
    assert_eq!(html_escape(r#"<a href="x">&</a>"#), "&lt;a href=&quot;x&quot;&gt;&amp;&lt;/a&gt;");
    assert_eq!(html_escape("plain é"), "plain é");
}

#[test]
fn url_escape_reserved_characters() {
    assert_eq!(url_escape("a b#c?d&e'f\"g<h>"), "a%20b%23c%3Fd%26e%27f%22g%3Ch%3E");
    assert_eq!(url_escape("café.md"), "café.md");
}

#[test]
fn theme_attribute_values() {
    assert_eq!(theme_strings(&ThemeName::Dark), "dark");
    assert_eq!(theme_strings(&ThemeName::Light), "light");
}

#[test]
fn syntax_themes_syntect_ships() {
    assert!(known_syntax_theme("base16-ocean.dark"));
    assert!(known_syntax_theme("Solarized (light)"));
    assert!(!known_syntax_theme("monokai"));
}

#[test]
fn page_escapes_title_and_embeds_body() {
    let p = page_html("<p>body</p>", &ThemeName::Light, "<x>", "");
    assert!(p.starts_with("<!DOCTYPE html>\n<html data-theme=\"light\">"));
    assert!(p.contains("<title>&lt;x&gt; — Preview</title>"));
    assert!(p.contains("<article id=\"content\" class=\"markdown-body\"><p>body</p></article>"));
    assert!(!p.contains("<style></style>"));
    let q = page_html("", &ThemeName::Dark, "t", "h1{}");
    assert!(q.contains("<style>h1{}</style>"));
}

#[test]
fn multi_page_marks_the_current_file() {
    let files = vec!["a.md".to_string(), "b.md".to_string()];
    let p = page_multi_html("", &ThemeName::Dark, "b.md", &files, "b.md", "");
    assert!(p.contains(r#"<a href="/a.md">a.md</a><a href="/b.md" class="active">b.md</a>"#));
}

#[test]
fn standalone_page_has_no_editor() {
    let p = standalone_html("<p>x</p>", &ThemeName::Dark, "T", "");
    assert!(p.contains("<title>T</title>"));
    assert!(!p.contains("<div id=\"editor-pane\">"));
}

#[test]
fn index_page_cards() {
    let files = vec!["a b.md".to_string(), "<x>.md".to_string()];
    let p = render_index_page(&files, &ThemeName::Dark, false);
    assert!(p.contains(r#"href="/a%20b.md""#));
    assert!(p.contains("&lt;x&gt;.md"));
    assert!(!p.contains("id=\"new-note-card\""));
    let d = render_index_page(&files, &ThemeName::Dark, true);
    assert!(d.contains("id=\"new-note-card\""));
}

#[test]
fn sidebar_file_names_cannot_carry_markup() {
    let evil = "<img src=x onerror=alert(1)>.md".to_string();
    let files = vec!["a.md".to_string(), evil.clone()];
    let p = page_multi_html("", &ThemeName::Dark, "x", &files, "a.md", "");
    assert!(!p.contains(&evil));
    assert!(p.contains("&lt;img src=x onerror=alert(1)&gt;.md</a>"));
    assert!(p.contains("href=\"/%3Cimg%20src=x%20onerror=alert(1)%3E.md\""));
}

#[test]
fn test_html_escape_reads_back_with_replacements() {
    for s in ["&lt;", r#"<a href="x">&amp;</a>"#, "&&quot;>", "plain"] {
        let e = html_escape(s);
        assert!(!e.contains('<') && !e.contains('>') && !e.contains('"'));
        let back = e.replace("&quot;", "\"").replace("&gt;", ">").replace("&lt;", "<").replace("&amp;", "&");
        assert_eq!(back, s);
    }
    assert_eq!(html_escape("&lt;"), "&amp;lt;");
}
