use mdx::frontmatter::{parse, strip};

#[test]
fn front_matter_fields_and_tags() {
    let doc = "---\ntitle: \"Hello\"\ndate: 2024-01-15\ntags: rust, cli\ndraft: true\n---\n\n# Body\n";
    let fm = parse(doc);
    assert_eq!(fm.title.as_deref(), Some("Hello"));
    assert_eq!(fm.date.as_deref(), Some("2024-01-15"));
    assert_eq!(fm.tags, vec!["rust".to_string(), "cli".to_string()]);
    assert!(fm.draft);
    assert_eq!(strip(doc), "# Body\n");
}

#[test]
fn no_front_matter_is_left_alone() {
    let doc = "# Just a doc\n";
    let fm = parse(doc);
    assert!(fm.title.is_none() && fm.tags.is_empty() && !fm.draft);
    assert_eq!(strip(doc), doc);
}

#[test]
fn the_readme_front_matter_is_read_whole() {
    let fm = parse("---\ntitle: My Post\ndate: 2024-01-15\nauthor: Jane\nlang: en\ntags: rust, cli\ndraft: true\n---\n");
    assert_eq!(fm.title.as_deref(), Some("My Post"));
    assert_eq!(fm.author.as_deref(), Some("Jane"));
    assert_eq!(fm.lang.as_deref(), Some("en"));
    assert_eq!(fm.tags, vec!["rust".to_string(), "cli".to_string()]);
    assert!(fm.draft);
}
