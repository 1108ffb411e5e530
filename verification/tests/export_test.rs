use mdx::export::{
    default_output_path, extract_attr, html_to_xhtml, json_escape, mime_from_ext, split_chapters,
    wrap_code_line, wrap_xhtml,
};

#[test]
fn test_default_output_path_swaps_extension() {
    assert_eq!(default_output_path(Some("README.md"), "pdf"), "README.pdf");
    assert_eq!(
        default_output_path(Some("docs/a.markdown"), "epub"),
        "docs/a.epub"
    );
    assert_eq!(default_output_path(None, "pdf"), "output.pdf");
}

#[test]
fn test_default_output_path_only_touches_the_last_extension() {
    assert_eq!(
        default_output_path(Some("notes.md.backup.md"), "pdf"),
        "notes.md.backup.pdf"
    );
}

#[test]
fn test_default_output_path_leaves_directories_alone() {
    assert_eq!(
        default_output_path(Some("v1.markdown/post.md"), "pdf"),
        "v1.markdown/post.pdf"
    );
}

#[test]
fn test_default_output_path_handles_no_extension() {
    assert_eq!(default_output_path(Some("LICENSE"), "pdf"), "LICENSE.pdf");
}

#[test]
fn default_output_path_matches_path_with_extension() {
    for f in [
        "a.md", ".bashrc", "dir/", "dir/x.tar.gz", "foo.", "...", "a/.", "a/..", "/", "", ".", "./x.md",
        "a//b.md", "x.md/", "caf\u{e9}.md",
    ] {
        let expected = std::path::Path::new(f)
            .with_extension("pdf")
            .to_string_lossy()
            .into_owned();
        assert_eq!(default_output_path(Some(f), "pdf"), expected, "path {:?}", f);
    }
}

#[test]
fn test_splits_on_h1() {
    let ch = split_chapters("# One\n\na\n\n# Two\n\nb\n");
    assert_eq!(ch.len(), 2);
    assert_eq!(ch[0].0, "One");
    assert_eq!(ch[1].0, "Two");
}

#[test]
fn test_falls_back_to_h2_when_only_one_h1() {
    let ch = split_chapters("# Title\n\nintro\n\n## Alpha\n\na\n\n## Beta\n\nb\n");
    let titles: Vec<&str> = ch.iter().map(|c| c.0.as_str()).collect();
    assert_eq!(titles, vec!["", "Alpha", "Beta"]);
    assert!(ch[0].1.contains("# Title"));
}

#[test]
fn test_heading_inside_code_fence_is_not_a_chapter() {
    let ch = split_chapters("# One\n\n```sh\n# not a heading\n# nor this\n```\n\n# Two\n");
    assert_eq!(ch.len(), 2, "fenced # lines must not split: {:?}", ch);
}

#[test]
fn test_no_headings_is_a_single_chapter() {
    let ch = split_chapters("Just prose.\n\nMore prose.\n");
    assert_eq!(ch.len(), 1);
    assert!(ch[0].0.is_empty(), "untitled chapter");
}

#[test]
fn test_content_before_first_heading_becomes_its_own_chapter() {
    let ch = split_chapters("Preamble text.\n\n# One\n\na\n\n# Two\n\nb\n");
    assert_eq!(ch.len(), 3);
    assert!(ch[0].0.is_empty());
    assert!(ch[0].1.contains("Preamble"));
}

#[test]
fn test_empty_heading_does_not_start_a_chapter() {
    let ch = split_chapters("# \n\ntext\n");
    assert_eq!(ch.len(), 1);
}

#[test]
fn split_chapters_keeps_every_line() {
    let md = "intro\r\n# One\na\n# Two\nb";
    let ch = split_chapters(md);
    assert_eq!(ch.len(), 3);
    let joined: String = ch.iter().map(|c| c.1.as_str()).collect();
    assert_eq!(joined, "intro\n# One\na\n# Two\nb\n");
    let single = split_chapters("no headings\r\nhere");
    assert_eq!(single, vec![(String::new(), "no headings\r\nhere".to_string())]);
}

#[test]
fn test_short_line_untouched() {
    assert_eq!(wrap_code_line("abc", 10), vec!["abc"]);
}

#[test]
fn test_exact_length_untouched() {
    assert_eq!(wrap_code_line("abcde", 5), vec!["abcde"]);
}

#[test]
fn test_long_line_wraps_without_loss() {
    let line = "a".repeat(25);
    let wrapped = wrap_code_line(&line, 10);
    assert_eq!(wrapped.len(), 3);
    assert_eq!(wrapped.concat(), line, "no character may be dropped");
}

#[test]
fn test_multibyte_counts_characters_not_bytes() {
    let line = "\u{65e5}".repeat(12);
    let wrapped = wrap_code_line(&line, 5);
    assert_eq!(wrapped.concat(), line);
    assert!(wrapped.iter().all(|s| s.chars().count() <= 5));
}

#[test]
fn wrap_code_line_zero_width_and_piece_sizes() {
    assert_eq!(wrap_code_line("abcdef", 0), vec!["abcdef"]);
    assert_eq!(wrap_code_line("abcdefg", 3), vec!["abc", "def", "g"]);
    assert_eq!(wrap_code_line("", 3), vec![""]);
}

#[test]
fn extract_attr_reads_quoted_values() {
    assert_eq!(
        extract_attr(r#"<img src="a.png" alt="x">"#, "src"),
        Some("a.png".to_string())
    );
    assert_eq!(extract_attr(r#"<img alt="x">"#, "src"), None);
    assert_eq!(extract_attr(r#"<img src="unterminated>"#, "src"), None);
}

#[test]
fn mime_from_ext_is_case_insensitive() {
    assert_eq!(mime_from_ext("a/b.PNG"), "image/png");
    assert_eq!(mime_from_ext("x.jpeg"), "image/jpeg");
    assert_eq!(mime_from_ext("x.jpg"), "image/jpeg");
    assert_eq!(mime_from_ext("x.svg"), "image/svg+xml");
    assert_eq!(mime_from_ext("x.webp"), "image/webp");
    assert_eq!(mime_from_ext("x.gif"), "image/gif");
    assert_eq!(mime_from_ext("noext"), "application/octet-stream");
}

#[test]
fn html_to_xhtml_closes_void_tags() {
    assert_eq!(html_to_xhtml("a<br>b<hr>c<br>"), "a<br />b<hr />c<br />");
}

#[test]
fn wrap_xhtml_frames_title_and_body() {
    let x = wrap_xhtml("T", "<p>b</p>");
    assert!(x.starts_with("<?xml version=\"1.0\" encoding=\"UTF-8\"?>\n"));
    assert!(x.contains("<title>T</title>"));
    assert!(x.ends_with("<body>\n<p>b</p>\n</body>\n</html>"));
}

#[test]
fn json_escape_leaves_del_alone() {
    assert_eq!(json_escape("a\"b\\\n\u{1}\u{7f}"), "\"a\\\"b\\\\\\n\\u0001\u{7f}\"");
}
