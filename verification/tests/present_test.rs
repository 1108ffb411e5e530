use mdx::present::{is_slide_break, split_slides};

#[test]
fn test_front_matter_does_not_become_a_slide() {
    let doc = "---\ntitle: Deck\nauthor: Me\n---\n\n# One\n\n---\n\n# Two\n";
    let slides = split_slides(doc);
    assert_eq!(slides.len(), 2, "got: {:?}", slides);
    assert!(slides[0].starts_with("# One"), "got: {:?}", slides[0]);
    assert!(!slides.iter().any(|s| s.contains("title: Deck")));
}

#[test]
fn test_dashes_inside_code_fence_do_not_split() {
    let doc = "# One\n\n```yaml\na: 1\n---\nb: 2\n```\n\n---\n\n# Two\n";
    let slides = split_slides(doc);
    assert_eq!(slides.len(), 2, "got: {:?}", slides);
    assert!(slides[0].contains("---"), "fence content must survive");
    assert!(slides[1].starts_with("# Two"));
}

#[test]
fn test_tilde_fence_is_tracked() {
    let doc = "# One\n\n~~~\n---\n~~~\n\n---\n\n# Two\n";
    assert_eq!(split_slides(doc).len(), 2);
}

#[test]
fn test_setext_heading_is_not_a_slide_break() {
    let doc = "Heading Two\n---\n\nBody text.\n";
    let slides = split_slides(doc);
    assert_eq!(slides.len(), 1, "setext H2 split the deck: {:?}", slides);
}

#[test]
fn test_plain_deck_splits() {
    let doc = "# One\n\n---\n\n# Two\n\n---\n\n# Three\n";
    let slides = split_slides(doc);
    assert_eq!(slides.len(), 3);
    assert!(slides[2].starts_with("# Three"));
}

#[test]
fn test_no_breaks_is_one_slide() {
    assert_eq!(split_slides("# Only\n\nText.\n").len(), 1);
}

#[test]
fn test_star_and_underscore_are_not_slide_breaks() {
    assert_eq!(split_slides("# A\n\n***\n\n# B\n").len(), 1);
    assert_eq!(split_slides("# A\n\n___\n\n# B\n").len(), 1);
}

#[test]
fn test_spaced_and_long_dash_runs_split() {
    assert_eq!(split_slides("# A\n\n- - -\n\n# B\n").len(), 2);
    assert_eq!(split_slides("# A\n\n-----\n\n# B\n").len(), 2);
}

#[test]
fn test_indented_dashes_are_code_not_a_break() {
    let doc = "# A\n\n    ---\n\n# B still same slide\n";
    assert_eq!(split_slides(doc).len(), 1);
}

#[test]
fn slide_break_shapes() {
    assert!(is_slide_break("---"));
    assert!(is_slide_break("   - - -  "));
    assert!(!is_slide_break("    ---"));
    assert!(!is_slide_break("\u{3000}\u{3000}---"), "two ideographic spaces are six bytes");
    assert!(!is_slide_break("--"));
    assert!(!is_slide_break("--x"));
}

#[test]
fn slides_are_trimmed_and_never_empty() {
    let slides = split_slides("\n\n---\n\n  a  \n\n---\n\n---\n\nb\n");
    assert_eq!(slides, vec!["a".to_string(), "b".to_string()]);
}
