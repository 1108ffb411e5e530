use mdx::style::{
    ansi256_to_basic, rgb_to_ansi256, rgb_to_basic, rgb_to_basic_code, Color, ColorLevel, Style,
    TermColor,
};
use mdx::theme::{Theme, ThemeName};

fn float_ansi256(r: u8, g: u8, b: u8) -> u8 {
    if r == g && g == b {
        if r < 8 {
            return 16;
        }
        if r > 248 {
            return 231;
        }
        return ((r as f64 - 8.0) / 247.0 * 24.0).round() as u8 + 232;
    }
    let ri = (r as f64 / 255.0 * 5.0).round() as u8;
    let gi = (g as f64 / 255.0 * 5.0).round() as u8;
    let bi = (b as f64 / 255.0 * 5.0).round() as u8;
    16 + 36 * ri + 6 * gi + bi
}

#[test]
fn rgb_to_ansi256_matches_the_float_formula() {
    for r in (0..=255u16).step_by(5) {
        for g in (0..=255u16).step_by(17) {
            for b in (0..=255u16).step_by(51) {
                let (r, g, b) = (r as u8, g as u8, b as u8);
                assert_eq!(rgb_to_ansi256(r, g, b), float_ansi256(r, g, b), "{} {} {}", r, g, b);
            }
        }
    }
    for v in 0..=255u8 {
        assert_eq!(rgb_to_ansi256(v, v, v), float_ansi256(v, v, v), "gray {}", v);
    }
}

#[test]
fn rgb_to_ansi256_known_values() {
    assert_eq!(rgb_to_ansi256(255, 0, 0), 196);
    assert_eq!(rgb_to_ansi256(0, 0, 0), 16);
    assert_eq!(rgb_to_ansi256(255, 255, 255), 231);
    assert_eq!(rgb_to_ansi256(128, 128, 128), 244);
}

#[test]
fn basic_color_classification() {
    assert_eq!(rgb_to_basic(255, 0, 0), TermColor::DarkRed, "mean 85 is not bright");
    assert_eq!(rgb_to_basic(255, 255, 0), TermColor::Yellow);
    assert_eq!(rgb_to_basic(100, 0, 0), TermColor::DarkRed);
    assert_eq!(rgb_to_basic(0, 0, 0), TermColor::Black);
    assert_eq!(rgb_to_basic(220, 220, 220), TermColor::White);
    assert_eq!(rgb_to_basic_code(255, 0, 0), 31);
    assert_eq!(rgb_to_basic_code(255, 255, 0), 93);
    assert_eq!(rgb_to_basic_code(60, 60, 60), 37);
    assert_eq!(rgb_to_basic_code(0, 0, 0), 30);
}

#[test]
fn ansi256_downgrades() {
    assert_eq!(ansi256_to_basic(9), TermColor::Red);
    assert_eq!(ansi256_to_basic(196), TermColor::DarkRed);
    assert_eq!(ansi256_to_basic(232), TermColor::Black);
    assert_eq!(ansi256_to_basic(255), TermColor::White);
    assert_eq!(ansi256_to_basic(244), TermColor::Grey);
    assert_eq!(ansi256_to_basic(240), TermColor::DarkGrey);
}

#[test]
fn for_level_downgrades_by_level() {
    let c = Color::Rgb(255, 0, 0);
    assert_eq!(c.for_level(ColorLevel::NoColor), None);
    assert_eq!(c.for_level(ColorLevel::Basic), Some(TermColor::DarkRed));
    assert_eq!(c.for_level(ColorLevel::Ansi256), Some(TermColor::AnsiValue(196)));
    assert_eq!(c.for_level(ColorLevel::TrueColor), Some(TermColor::Rgb { r: 255, g: 0, b: 0 }));
    assert_eq!(Color::Cyan.for_level(ColorLevel::Ansi256), Some(TermColor::Cyan));
}

#[test]
fn merge_overlays_colors_and_unions_attributes() {
    let base = Style { fg: Some(Color::Red), bold: true, ..Style::default() };
    let top = Style { bg: Some(Color::Blue), italic: true, ..Style::default() };
    let m = base.merge(&top);
    assert_eq!(m.fg, Some(Color::Red));
    assert_eq!(m.bg, Some(Color::Blue));
    assert!(m.bold && m.italic && !m.dim);
    let top2 = Style { fg: Some(Color::Green), ..Style::default() };
    assert_eq!(m.merge(&top2).fg, Some(Color::Green));
}

#[test]
fn merge_laws_on_values() {
    let a = Style { fg: Some(Color::Red), dim: true, ..Style::default() };
    let b = Style { fg: Some(Color::Ansi256(3)), underline: true, ..Style::default() };
    let c = Style { bg: Some(Color::White), strikethrough: true, ..Style::default() };
    assert_eq!(a.merge(&b).merge(&c), a.merge(&b.merge(&c)));
    assert_eq!(Style::default().merge(&a), a);
    assert_eq!(a.merge(&Style::default()), a);
    assert_eq!(a.merge(&a), a);
}

#[test]
fn themes_by_name() {
    let d = Theme::from_name(&ThemeName::Dark);
    assert_eq!(d, Theme::dark());
    assert_eq!(d.h1.fg, Some(Color::Cyan));
    assert!(d.h1.bold);
    assert_eq!(d.inline_code.bg, Some(Color::Rgb(60, 60, 60)));
    let l = Theme::from_name(&ThemeName::Light);
    assert_eq!(l, Theme::light());
    assert_eq!(l.h1.fg, Some(Color::DarkCyan));
    assert_eq!(l.inline_code.bg, Some(Color::Rgb(220, 220, 220)));
    assert!(d.strikethrough.strikethrough && d.paragraph == Style::default());
}
