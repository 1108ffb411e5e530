use mdx::math::{expand_fractions, substitute_latex, take_braced, wrap_operand};

#[test]
fn test_simple_fraction() {
    assert_eq!(expand_fractions("\\frac{a}{b}"), "a/b");
}

#[test]
fn test_compound_operands_are_parenthesised() {
    assert_eq!(expand_fractions("\\frac{a+1}{2b}"), "(a+1)/(2b)");
}

#[test]
fn test_nested_fractions() {
    assert_eq!(expand_fractions("\\frac{\\frac{a}{b}}{c}"), "(a/b)/c");
}

#[test]
fn test_bare_numbers_need_no_parentheses() {
    assert_eq!(expand_fractions("\\frac{1}{12}"), "1/12");
}

#[test]
fn test_surrounding_text_is_kept() {
    assert_eq!(
        expand_fractions("x = \\frac{1}{2} exactly"),
        "x = 1/2 exactly"
    );
}

#[test]
fn test_malformed_frac_is_left_alone() {
    assert_eq!(expand_fractions("\\frac{a"), "\\frac{a");
    assert_eq!(expand_fractions("\\frac"), "\\frac");
}

#[test]
fn test_no_frac_is_untouched() {
    assert_eq!(expand_fractions("a + b"), "a + b");
}

#[test]
fn take_braced_honours_nesting() {
    assert_eq!(
        take_braced("{a{b}c}rest"),
        Some(("a{b}c".to_string(), "rest".to_string()))
    );
    assert_eq!(take_braced("{open"), None);
    assert_eq!(take_braced("x{a}"), None);
}

#[test]
fn wrap_operand_cases() {
    assert_eq!(wrap_operand("x"), "x");
    assert_eq!(wrap_operand("3.14"), "3.14");
    assert_eq!(wrap_operand("a+b"), "(a+b)");
    assert_eq!(wrap_operand(""), "()");
}

#[test]
fn substitute_latex_greek_operators_and_wrappers() {
    assert_eq!(substitute_latex("\\alpha + \\beta"), "α + β");
    assert_eq!(substitute_latex("x^2 \\leq y_1"), "x² ≤ y₁");
    assert_eq!(substitute_latex("\\frac{\\pi}{2}"), "π/2");
    assert_eq!(substitute_latex("\\text{if} x"), "{if} x");
    assert_eq!(substitute_latex("\\left( a \\right)"), "( a )");
}

#[test]
fn each_command_becomes_its_own_glyph() {
    assert_eq!(substitute_latex("\\subseteq"), "⊆");
    assert_eq!(substitute_latex("\\supseteq"), "⊇");
    assert_eq!(substitute_latex("\\subset"), "⊂");
    assert_eq!(substitute_latex("a \\cdots b \\cdot c"), "a ⋯ b · c");
    assert_eq!(substitute_latex("\\alpha + \\beta"), "α + β");
}
