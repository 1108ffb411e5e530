use mdx::fetch::{
    article_meta_from_front_matter, clean_markdown, content_signal_denials, format_front_matter,
    raw_fallback, sanitize_html, url_path_is_markdown, yaml_escape, ArticleMeta,
};

#[test]
fn test_sanitize_strips_script() {
    let html = r#"<p>Hello</p><script>alert("xss")</script><p>World</p>"#;
    let result = sanitize_html(html);
    assert!(!result.to_lowercase().contains("<script"));
    assert!(result.contains("Hello"));
    assert!(result.contains("World"));
}

#[test]
fn test_sanitize_strips_iframe() {
    let html = r#"<p>Text</p><iframe src="https://evil.com"></iframe><p>More</p>"#;
    let result = sanitize_html(html);
    assert!(!result.to_lowercase().contains("<iframe"));
    assert!(result.contains("Text"));
    assert!(result.contains("More"));
}

#[test]
fn test_sanitize_strips_javascript_href() {
    let html = r#"<a href="javascript:alert(1)">Click</a>"#;
    let result = sanitize_html(html);
    assert!(!result.to_lowercase().contains("javascript:"));
    assert!(result.contains("Click"));
}

#[test]
fn test_estimate_tokens() {
    assert_eq!(mdx::estimate_tokens(""), 0);
    assert_eq!(mdx::estimate_tokens("abcd"), 1);
    assert_eq!(mdx::estimate_tokens("abcde"), 2);
    assert_eq!(mdx::estimate_tokens("abcdefgh"), 2);
}

#[test]
fn test_article_meta_from_front_matter() {
    let md = "---\ntitle: \"My Page\"\nauthor: \"Jane\"\nimage: \"https://example.com/img.png\"\nsite_name: \"Example\"\n---\n\n# Content";
    let meta = article_meta_from_front_matter(md).unwrap();
    assert_eq!(meta.title.as_deref(), Some("My Page"));
    assert_eq!(meta.byline.as_deref(), Some("Jane"));
    assert_eq!(meta.image.as_deref(), Some("https://example.com/img.png"));
    assert_eq!(meta.site_name.as_deref(), Some("Example"));
}

#[test]
fn test_article_meta_from_front_matter_none() {
    let md = "# No front matter\n\nJust content.";
    assert!(article_meta_from_front_matter(md).is_none());
}

#[test]
fn test_clean_markdown() {
    let input = "# Hello\n\nSome text with escaped \\. period.\n";
    let result = clean_markdown(input);
    assert!(result.contains("# Hello"));
    assert!(result.contains("Some text with escaped . period."));
}

#[test]
fn test_sanitize_strips_style() {
    let html = "<style>.evil { display: none; }</style><p>Safe</p>";
    let result = sanitize_html(html);
    assert!(!result.to_lowercase().contains("<style"));
    assert!(result.contains("Safe"));
}

#[test]
fn test_sanitize_case_insensitive() {
    let html = r#"<SCRIPT>alert(1)</SCRIPT><p>OK</p>"#;
    let result = sanitize_html(html);
    assert!(!result.to_lowercase().contains("<script"));
    assert!(result.contains("OK"));
}

#[test]
fn test_check_content_signal_no_warning() {
    assert_eq!(content_signal_denials(None), 0);
    assert_eq!(content_signal_denials(Some("ai-input=yes")), 0);
    assert_eq!(content_signal_denials(Some("other=value")), 0);
}

#[test]
fn content_signal_counts_denials() {
    assert_eq!(content_signal_denials(Some("ai-input=no")), 1);
    assert_eq!(content_signal_denials(Some("search=yes, ai-input=no, ai-train=no")), 1);
}

#[test]
fn test_format_front_matter_with_tokens() {
    let meta = ArticleMeta {
        title: Some("Test".to_string()),
        ..Default::default()
    };
    let fm = format_front_matter(&meta, "https://example.com", Some(500));
    assert!(fm.contains("tokens: 500"));
    assert!(fm.contains("title: \"Test\""));
}

#[test]
fn test_format_front_matter_without_tokens() {
    let meta = ArticleMeta {
        title: Some("Test".to_string()),
        ..Default::default()
    };
    let fm = format_front_matter(&meta, "https://example.com", None);
    assert!(!fm.contains("tokens:"));
}

#[test]
fn test_format_front_matter_new_fields() {
    let meta = ArticleMeta {
        title: Some("Test".to_string()),
        image: Some("https://example.com/img.jpg".to_string()),
        url: Some("https://example.com/page".to_string()),
        site_name: Some("Example Site".to_string()),
        ..Default::default()
    };
    let fm = format_front_matter(&meta, "https://example.com", None);
    assert!(fm.contains("image: \"https://example.com/img.jpg\""));
    assert!(fm.contains("url: \"https://example.com/page\""));
    assert!(fm.contains("site_name: \"Example Site\""));
}

#[test]
fn test_clean_markdown_keeps_backslashes_in_code_fences() {
    let input = "```\nr\"\\d+\\s*\"\n```\n";
    let out = clean_markdown(input);
    assert!(out.contains("\\d+"), "regex escapes must survive: {}", out);
    assert!(out.contains("\\s*"), "regex escapes must survive: {}", out);
}

#[test]
fn test_clean_markdown_keeps_blank_lines_in_fences() {
    let input = "```\na\n\n\n\nb\n```\n";
    let out = clean_markdown(input);
    assert!(
        out.contains("a\n\n\n\nb"),
        "diagram spacing must survive: {:?}",
        out
    );
}

#[test]
fn test_clean_markdown_does_not_manufacture_a_list() {
    let out = clean_markdown("1999\\. It was a good year.\n");
    assert!(
        out.starts_with("1999\\."),
        "leading escape must be kept or the line becomes an ol: {:?}",
        out
    );
}

#[test]
fn test_clean_markdown_still_drops_pointless_escapes() {
    let out = clean_markdown("Some text with escaped \\. period.\n");
    assert!(out.contains("escaped . period"), "got: {:?}", out);
}

#[test]
fn test_sanitize_html_is_ascii_offset_safe() {
    let html = "<p>\u{130}stanbul</p><script>evil()</script><p>after</p>";
    let out = sanitize_html(html);
    assert!(!out.to_lowercase().contains("<script"));
    assert!(out.contains("stanbul"), "content must survive: {}", out);
    assert!(out.contains("after"), "content must survive: {}", out);
}

#[test]
fn test_raw_fallback_strips_scripts() {
    let html = "<html><body><div id=root>App</div>\
                <script>var SECRET='sk-1';</script></body></html>";
    let md = raw_fallback(html);
    assert!(
        !md.contains("SECRET"),
        "script body must not become prose: {}",
        md
    );
    assert!(md.contains("App"), "real content must survive: {}", md);
}

#[test]
fn test_url_path_is_markdown() {
    assert!(url_path_is_markdown("https://x/README.md"));
    assert!(url_path_is_markdown("https://x/a.MARKDOWN"));
    assert!(url_path_is_markdown("https://x/a.md?raw=1"));
    assert!(url_path_is_markdown("https://x/a.md#top"));
    assert!(!url_path_is_markdown("https://x/index.html"));
    assert!(!url_path_is_markdown("https://x/"));
}

#[test]
fn test_yaml_escape_neutralises_control_characters() {
    let out = yaml_escape("a\u{1b}[31mb\u{7}c");
    assert!(!out.contains('\u{1b}'), "ESC must not reach the file: {}", out);
    assert!(!out.contains('\u{7}'), "BEL must not reach the file: {}", out);
    assert!(out.contains("\\x1b") && out.contains("\\x07"), "got: {}", out);
}

#[test]
fn test_yaml_escape_keeps_ordinary_text() {
    assert_eq!(
        yaml_escape("Caf\u{e9} \u{65e5}\u{672c}"),
        "Caf\u{e9} \u{65e5}\u{672c}"
    );
}

#[test]
fn yaml_escape_quotes_and_backslashes() {
    assert_eq!(yaml_escape("a\"b\\c"), "a\\\"b\\\\c");
}

#[test]
fn raw_fallback_converts_html_to_markdown() {
    let md = raw_fallback("<h1>Title</h1><p>Body <b>bold</b></p>");
    assert!(md.contains("Title"), "got: {}", md);
    assert!(md.contains("**bold**"), "got: {}", md);
}

#[test]
fn fetch_output_is_the_markdown_without_metadata() {
    assert_eq!(mdx::fetch::fetch_output("# Hi\n", &None, "https://x.org", false, 5, true), "# Hi\n");
}

#[test]
fn fetch_output_puts_front_matter_first() {
    let out = mdx::fetch::fetch_output("# Hi\n", &None, "https://x.org", true, 5, true);
    assert_eq!(out, "---\nsource: \"https://x.org\"\ntokens: 5\n---\n\n# Hi\n");
    let meta = Some(ArticleMeta { title: Some("T".to_string()), ..Default::default() });
    let out = mdx::fetch::fetch_output("body", &meta, "https://x.org", true, 5, false);
    assert_eq!(out, "---\ntitle: \"T\"\nsource: \"https://x.org\"\n---\n\nbody");
}

#[test]
fn server_token_count_wins_over_the_estimate() {
    assert_eq!(mdx::fetch::markdown_tokens(Some(42), "abcdefgh"), 42);
    assert_eq!(mdx::fetch::markdown_tokens(None, "abcdefgh"), 2);
    assert_eq!(mdx::fetch::markdown_tokens(None, "abcdefghi"), 3);
}

#[test]
fn tokens_are_estimated_from_characters() {
    assert_eq!(mdx::estimate_tokens("日本語テ"), 1);
    assert_eq!(mdx::estimate_tokens("日本語テキ"), 2);
}
