use mdx::lint::{check_trailing_whitespace, Issue};
use mdx::options::{fmt_options, html_options, markdown_options, FMT_WIDTH};
use mdx::stats::format_number;
use mdx::update::extract_json_string;

#[test]
fn numbers_get_thousands_separators() {
    assert_eq!(format_number(0), "0");
    assert_eq!(format_number(999), "999");
    assert_eq!(format_number(1000), "1,000");
    assert_eq!(format_number(1234567), "1,234,567");
}

#[test]
fn trailing_single_space_is_reported() {
    let mut issues: Vec<Issue> = Vec::new();
    check_trailing_whitespace("ok\nbad \nbreak  \n \nx", &mut issues);
    assert_eq!(issues.len(), 1);
    assert_eq!(issues[0].line, 2);
    assert_eq!(issues[0].message, "trailing whitespace");
}

#[test]
fn json_string_values() {
    let j = r#"{"tag_name": "v1.2.3", "name" : "Release"}"#;
    assert_eq!(extract_json_string(j, "tag_name"), Some("v1.2.3".to_string()));
    assert_eq!(extract_json_string(j, "name"), Some("Release".to_string()));
    assert_eq!(extract_json_string(j, "missing"), None);
    assert_eq!(extract_json_string(r#"{"n": 3}"#, "n"), None);
}

#[test]
fn test_every_path_enables_the_same_extensions() {
    let base = markdown_options();
    for opts in [html_options(), fmt_options(FMT_WIDTH)] {
        assert_eq!(opts.strikethrough, base.strikethrough);
        assert_eq!(opts.table, base.table);
        assert_eq!(opts.autolink, base.autolink);
        assert_eq!(opts.tasklist, base.tasklist);
        assert_eq!(opts.footnotes, base.footnotes);
        assert_eq!(opts.alerts, base.alerts);
        assert_eq!(opts.front_matter_delimiter, base.front_matter_delimiter);
        assert_eq!(opts.math_dollars, base.math_dollars);
        assert_eq!(opts.math_code, base.math_code);
    }
}

#[test]
fn test_alerts_enabled_on_every_path() {
    assert!(markdown_options().alerts);
    assert!(html_options().alerts);
    assert!(fmt_options(FMT_WIDTH).alerts);
}

#[test]
fn test_only_the_html_path_allows_raw_html() {
    assert!(html_options().unsafe_html);
    assert!(!markdown_options().unsafe_html);
    assert!(!fmt_options(FMT_WIDTH).unsafe_html);
}

#[test]
fn test_only_the_fmt_path_wraps() {
    assert_eq!(fmt_options(FMT_WIDTH).width, 80);
    assert_eq!(fmt_options(0).width, 0, "0 disables wrapping");
    assert_eq!(markdown_options().width, 0);
    assert_eq!(html_options().width, 0);
}

#[test]
fn test_fmt_path_keeps_footnote_definitions_folded() {
    assert!(!fmt_options(FMT_WIDTH).leave_footnote_definitions);
}
