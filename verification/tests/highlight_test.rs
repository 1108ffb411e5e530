use mdx::highlight::{highlight_code, highlighted_line};
use mdx::render::strip_ansi;
use mdx::style::ColorLevel;

#[test]
fn no_color_or_no_language_gives_plain_lines() {
    assert_eq!(highlight_code("a\r\nb", "", "base16-ocean.dark", ColorLevel::TrueColor), vec!["a", "b"]);
    assert_eq!(highlight_code("let x = 1;\n", "rust", "base16-ocean.dark", ColorLevel::NoColor), vec!["let x = 1;"]);
}

#[test]
fn highlighted_code_keeps_its_text() {
    let lines = highlight_code("fn main() {}\nlet x = 1;\n", "rust", "base16-ocean.dark", ColorLevel::TrueColor);
    assert_eq!(lines.len(), 2);
    assert!(lines[0].contains("\x1b[38;2;"));
    assert_eq!(strip_ansi(&lines[0]), "fn main() {}");
    assert_eq!(strip_ansi(&lines[1]), "let x = 1;");
}

#[test]
fn unknown_theme_falls_back_to_ocean_dark() {
    let code = "fn main() {}\n";
    let ocean = highlight_code(code, "rust", "base16-ocean.dark", ColorLevel::TrueColor);
    assert_eq!(highlight_code(code, "rust", "no-such-theme", ColorLevel::TrueColor), ocean);
    assert_ne!(highlight_code(code, "rust", "InspiredGitHub", ColorLevel::TrueColor), ocean);
}

#[test]
fn pieces_are_written_in_the_color_level() {
    let pieces = vec![(255u8, 0u8, 0u8, "fn".to_string()), (0u8, 0u8, 0u8, " main\n".to_string()), (1u8, 2u8, 3u8, "\n".to_string())];
    assert_eq!(
        highlighted_line(ColorLevel::TrueColor, &pieces),
        "\x1b[38;2;255;0;0mfn\x1b[0m\x1b[38;2;0;0;0m main\x1b[0m"
    );
    assert_eq!(highlighted_line(ColorLevel::NoColor, &pieces), "fn main");
    assert_eq!(highlighted_line(ColorLevel::Ansi256, &pieces[..1].to_vec()), "\x1b[38;5;196mfn\x1b[0m");
}
