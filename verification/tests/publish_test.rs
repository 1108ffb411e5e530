use mdx::publish::{
    blog_css, blog_page_html, extract_description, extract_first_heading, joined_description,
    render_blog_index, DateTime, Post,
};

#[test]
fn dates_from_epoch_seconds() {
    assert_eq!(DateTime::from_secs(0).date(), "1970-01-01");
    assert_eq!(DateTime::from_secs(86_399).date(), "1970-01-01");
    assert_eq!(DateTime::from_secs(951_782_400).date(), "2000-02-29");
    assert_eq!(DateTime::from_secs(1_705_276_800).date(), "2024-01-15");
    assert_eq!(DateTime::from_secs(-86_400).date(), "1969-12-31");
    assert_eq!(DateTime::from_secs(253_402_300_799).date(), "9999-12-31");
}

#[test]
fn first_heading() {
    assert_eq!(extract_first_heading("intro\n  # Title  \n# Other"), Some("Title".to_string()));
    assert_eq!(extract_first_heading("## Sub\n#NoSpace"), None);
}

#[test]
fn description_is_the_first_paragraph() {
    let md = "# Title\n\n![img](a.png)\nFirst line\nsecond line\n\nNext paragraph";
    assert_eq!(joined_description(md), "First line second line");
    assert_eq!(extract_description(md), "First line second line");
}

#[test]
fn long_descriptions_are_cut_at_a_word() {
    let md = "word ".repeat(40);
    let d = extract_description(&md);
    assert!(d.ends_with("..."));
    assert!(d.len() <= 163);
    assert_eq!(d, format!("{}...", "word ".repeat(31) + "word"));
    let long = "x".repeat(200);
    assert_eq!(extract_description(&long), format!("{}...", "x".repeat(160)));
}

#[test]
fn blog_pages() {
    let post = Post {
        title: "A <b>".to_string(),
        date: "2024-01-01".to_string(),
        slug: "a-b".to_string(),
        description: "d".to_string(),
        markdown: "# A".to_string(),
    };
    let page = blog_page_html(&post, "<h1>A</h1>");
    assert!(page.contains("<title>A &lt;b&gt;</title>"));
    assert!(page.contains("<h1>A</h1>"));
    let index = render_blog_index(&[post]);
    assert!(index.contains(r#"<a class="blog-card" href="a-b/">"#));
    assert!(blog_css().contains(".blog-card"));
}

#[test]
fn test_dates_sort_in_time_order() {
    let moments: [i64; 8] = [0, 86_399, 86_400, 951_782_399, 951_782_400, 1_705_276_800, 4_102_444_800, 253_402_300_799];
    let dates: Vec<String> = moments.iter().map(|&s| DateTime::from_secs(s).date()).collect();
    for pair in dates.windows(2) {
        assert!(pair[0] <= pair[1], "{} sorts after {}", pair[0], pair[1]);
    }
    assert_eq!(dates[7], "9999-12-31");
    assert!(dates.iter().all(|d| d.len() == 10));
}
