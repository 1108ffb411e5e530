//! Text styles and colors, and how colors are reduced to what a terminal
//! can show.

use vstd::prelude::*;

verus! {

/// How many colors the terminal supports.
#[derive(Debug, Clone, Copy, PartialEq, Eq, Structural, PartialOrd, Ord)]
pub enum ColorLevel {
    NoColor,
    Basic,
    Ansi256,
    TrueColor,
}

/// Which inline image protocol the terminal speaks.
#[derive(Debug, Clone, Copy, PartialEq, Eq, Structural)]
pub enum ImageProtocol {
    NoImages,
    ITerm2,
    Kitty,
}

/// A color as a theme names it.
#[derive(Debug, Clone, Copy, PartialEq, Eq, Structural)]
pub enum Color {
    Rgb(u8, u8, u8),
    Ansi256(u8),
    Black,
    DarkRed,
    DarkGreen,
    DarkYellow,
    DarkBlue,
    DarkMagenta,
    DarkCyan,
    Grey,
    DarkGrey,
    Red,
    Green,
    Yellow,
    Blue,
    Magenta,
    Cyan,
    White,
}

/// A color as it is written to the terminal: true color, a 256-color index,
/// or one of the sixteen basic colors.
#[derive(Debug, Clone, Copy, PartialEq, Eq, Structural)]
pub enum TermColor {
    Rgb { r: u8, g: u8, b: u8 },
    AnsiValue(u8),
    Black,
    DarkRed,
    DarkGreen,
    DarkYellow,
    DarkBlue,
    DarkMagenta,
    DarkCyan,
    Grey,
    DarkGrey,
    Red,
    Green,
    Yellow,
    Blue,
    Magenta,
    Cyan,
    White,
}

/// The nearest integer to `num / den` (never a tie for the values used here).
pub open spec fn round_div(num: int, den: int) -> int {
    (2 * num + den) / (2 * den)
}

/// The 256-color index nearest an RGB color: the grayscale ramp for grays,
/// else the 6x6x6 cube.
pub open spec fn spec_rgb_to_ansi256(r: u8, g: u8, b: u8) -> int {
    if r == g && g == b {
        if r < 8 {
            16
        } else if r > 248 {
            231
        } else {
            round_div(24 * (r - 8), 247) + 232
        }
    } else {
        16 + 36 * round_div(5 * r, 255) + 6 * round_div(5 * g, 255) + round_div(5 * b, 255)
    }
}

/// Map an RGB color to the nearest 256-color index.
pub fn rgb_to_ansi256(r: u8, g: u8, b: u8) -> (n: u8)
    ensures
        n == spec_rgb_to_ansi256(r, g, b),
{
    if r == g && g == b {
        if r < 8 {
            return 16;
        }
        if r > 248 {
            return 231;
        }
        let x: u32 = (48 * (r as u32 - 8) + 247) / 494;
        assert(x <= 23) by (nonlinear_arith)
            requires
                x == (48 * (r as u32 - 8) + 247) / 494,
                8 <= r <= 248,
        ;
        return (x + 232) as u8;
    }
    let ri: u32 = (10 * r as u32 + 255) / 510;
    let gi: u32 = (10 * g as u32 + 255) / 510;
    let bi: u32 = (10 * b as u32 + 255) / 510;
    assert(ri <= 5 && gi <= 5 && bi <= 5) by (nonlinear_arith)
        requires
            ri == (10 * r as u32 + 255) / 510,
            gi == (10 * g as u32 + 255) / 510,
            bi == (10 * b as u32 + 255) / 510,
            r <= 255,
            g <= 255,
            b <= 255,
    ;
    (16 + 36 * ri + 6 * gi + bi) as u8
}

/// Which channels are strong (above half the strongest) and whether the
/// color is bright (mean above 128).
pub open spec fn rgb_class(r: u8, g: u8, b: u8) -> (bool, bool, bool, bool) {
    let max = if r >= g && r >= b {
        r
    } else if g >= b {
        g
    } else {
        b
    };
    let threshold = max / 2;
    (r > threshold, g > threshold, b > threshold, (r + g + b) / 3 > 128)
}

fn rgb_classify(r: u8, g: u8, b: u8) -> (c: (bool, bool, bool, bool))
    ensures
        c == rgb_class(r, g, b),
{
    let brightness: u16 = (r as u16 + g as u16 + b as u16) / 3;
    let max = if r >= g && r >= b {
        r
    } else if g >= b {
        g
    } else {
        b
    };
    let threshold = max / 2;
    (r > threshold, g > threshold, b > threshold, brightness > 128)
}

/// The basic color for a channel class.
pub open spec fn basic_of_class(c: (bool, bool, bool, bool)) -> TermColor {
    match c {
        (false, false, false, _) => TermColor::Black,
        (true, false, false, false) => TermColor::DarkRed,
        (true, false, false, true) => TermColor::Red,
        (false, true, false, false) => TermColor::DarkGreen,
        (false, true, false, true) => TermColor::Green,
        (false, false, true, false) => TermColor::DarkBlue,
        (false, false, true, true) => TermColor::Blue,
        (true, true, false, false) => TermColor::DarkYellow,
        (true, true, false, true) => TermColor::Yellow,
        (true, false, true, false) => TermColor::DarkMagenta,
        (true, false, true, true) => TermColor::Magenta,
        (false, true, true, false) => TermColor::DarkCyan,
        (false, true, true, true) => TermColor::Cyan,
        (true, true, true, false) => TermColor::Grey,
        (true, true, true, true) => TermColor::White,
    }
}

/// The SGR foreground code for a channel class.
pub open spec fn basic_code_of_class(c: (bool, bool, bool, bool)) -> u8 {
    match c {
        (false, false, false, _) => 30,
        (true, false, false, false) => 31,
        (true, false, false, true) => 91,
        (false, true, false, false) => 32,
        (false, true, false, true) => 92,
        (false, false, true, false) => 34,
        (false, false, true, true) => 94,
        (true, true, false, false) => 33,
        (true, true, false, true) => 93,
        (true, false, true, false) => 35,
        (true, false, true, true) => 95,
        (false, true, true, false) => 36,
        (false, true, true, true) => 96,
        (true, true, true, false) => 37,
        (true, true, true, true) => 97,
    }
}

/// Map an RGB color to the nearest of the sixteen basic colors.
pub fn rgb_to_basic(r: u8, g: u8, b: u8) -> (c: TermColor)
    ensures
        c == basic_of_class(rgb_class(r, g, b)),
{
    match rgb_classify(r, g, b) {
        (false, false, false, _) => TermColor::Black,
        (true, false, false, false) => TermColor::DarkRed,
        (true, false, false, true) => TermColor::Red,
        (false, true, false, false) => TermColor::DarkGreen,
        (false, true, false, true) => TermColor::Green,
        (false, false, true, false) => TermColor::DarkBlue,
        (false, false, true, true) => TermColor::Blue,
        (true, true, false, false) => TermColor::DarkYellow,
        (true, true, false, true) => TermColor::Yellow,
        (true, false, true, false) => TermColor::DarkMagenta,
        (true, false, true, true) => TermColor::Magenta,
        (false, true, true, false) => TermColor::DarkCyan,
        (false, true, true, true) => TermColor::Cyan,
        (true, true, true, false) => TermColor::Grey,
        (true, true, true, true) => TermColor::White,
    }
}

/// The SGR foreground code (30-37, 90-97) of the basic color nearest an
/// RGB color.
pub fn rgb_to_basic_code(r: u8, g: u8, b: u8) -> (code: u8)
    ensures
        code == basic_code_of_class(rgb_class(r, g, b)),
{
    match rgb_classify(r, g, b) {
        (false, false, false, _) => 30,
        (true, false, false, false) => 31,
        (true, false, false, true) => 91,
        (false, true, false, false) => 32,
        (false, true, false, true) => 92,
        (false, false, true, false) => 34,
        (false, false, true, true) => 94,
        (true, true, false, false) => 33,
        (true, true, false, true) => 93,
        (true, false, true, false) => 35,
        (true, false, true, true) => 95,
        (false, true, true, false) => 36,
        (false, true, true, true) => 96,
        (true, true, true, false) => 37,
        (true, true, true, true) => 97,
    }
}

/// The RGB value of a 6x6x6 cube coordinate.
pub open spec fn cube_level(v: int) -> int {
    if v > 0 {
        v * 40 + 55
    } else {
        0
    }
}

/// The basic color nearest a 256-color index: the first sixteen map to
/// themselves, the cube through its RGB value, the gray ramp by lightness.
pub open spec fn spec_ansi256_to_basic(n: u8) -> TermColor {
    if n == 0 {
        TermColor::Black
    } else if n == 1 {
        TermColor::DarkRed
    } else if n == 2 {
        TermColor::DarkGreen
    } else if n == 3 {
        TermColor::DarkYellow
    } else if n == 4 {
        TermColor::DarkBlue
    } else if n == 5 {
        TermColor::DarkMagenta
    } else if n == 6 {
        TermColor::DarkCyan
    } else if n == 7 {
        TermColor::Grey
    } else if n == 8 {
        TermColor::DarkGrey
    } else if n == 9 {
        TermColor::Red
    } else if n == 10 {
        TermColor::Green
    } else if n == 11 {
        TermColor::Yellow
    } else if n == 12 {
        TermColor::Blue
    } else if n == 13 {
        TermColor::Magenta
    } else if n == 14 {
        TermColor::Cyan
    } else if n == 15 {
        TermColor::White
    } else if n <= 231 {
        let k = n - 16;
        basic_of_class(
            rgb_class(
                cube_level(k / 36) as u8,
                cube_level((k / 6) % 6) as u8,
                cube_level(k % 6) as u8,
            ),
        )
    } else {
        let level = (n - 232) * 10 + 8;
        if level < 64 {
            TermColor::Black
        } else if level < 128 {
            TermColor::DarkGrey
        } else if level < 192 {
            TermColor::Grey
        } else {
            TermColor::White
        }
    }
}

/// Map a 256-color index to the nearest basic color.
pub fn ansi256_to_basic(n: u8) -> (c: TermColor)
    ensures
        c == spec_ansi256_to_basic(n),
{
    if n == 0 {
        TermColor::Black
    } else if n == 1 {
        TermColor::DarkRed
    } else if n == 2 {
        TermColor::DarkGreen
    } else if n == 3 {
        TermColor::DarkYellow
    } else if n == 4 {
        TermColor::DarkBlue
    } else if n == 5 {
        TermColor::DarkMagenta
    } else if n == 6 {
        TermColor::DarkCyan
    } else if n == 7 {
        TermColor::Grey
    } else if n == 8 {
        TermColor::DarkGrey
    } else if n == 9 {
        TermColor::Red
    } else if n == 10 {
        TermColor::Green
    } else if n == 11 {
        TermColor::Yellow
    } else if n == 12 {
        TermColor::Blue
    } else if n == 13 {
        TermColor::Magenta
    } else if n == 14 {
        TermColor::Cyan
    } else if n == 15 {
        TermColor::White
    } else if n <= 231 {
        let k = n - 16;
        let b = k % 6;
        let g = (k / 6) % 6;
        let r = k / 36;
        let r8: u8 = if r > 0 {
            r * 40 + 55
        } else {
            0
        };
        let g8: u8 = if g > 0 {
            g * 40 + 55
        } else {
            0
        };
        let b8: u8 = if b > 0 {
            b * 40 + 55
        } else {
            0
        };
        rgb_to_basic(r8, g8, b8)
    } else {
        let level: u16 = (n as u16 - 232) * 10 + 8;
        if level < 64 {
            TermColor::Black
        } else if level < 128 {
            TermColor::DarkGrey
        } else if level < 192 {
            TermColor::Grey
        } else {
            TermColor::White
        }
    }
}

impl Color {
    /// The color written as is: true color, an index, or a named color.
    pub open spec fn spec_truecolor(self) -> TermColor {
        match self {
            Color::Rgb(r, g, b) => TermColor::Rgb { r, g, b },
            Color::Ansi256(n) => TermColor::AnsiValue(n),
            Color::Black => TermColor::Black,
            Color::DarkRed => TermColor::DarkRed,
            Color::DarkGreen => TermColor::DarkGreen,
            Color::DarkYellow => TermColor::DarkYellow,
            Color::DarkBlue => TermColor::DarkBlue,
            Color::DarkMagenta => TermColor::DarkMagenta,
            Color::DarkCyan => TermColor::DarkCyan,
            Color::Grey => TermColor::Grey,
            Color::DarkGrey => TermColor::DarkGrey,
            Color::Red => TermColor::Red,
            Color::Green => TermColor::Green,
            Color::Yellow => TermColor::Yellow,
            Color::Blue => TermColor::Blue,
            Color::Magenta => TermColor::Magenta,
            Color::Cyan => TermColor::Cyan,
            Color::White => TermColor::White,
        }
    }

    /// The color for a 256-color terminal.
    pub open spec fn spec_ansi256(self) -> TermColor {
        match self {
            Color::Rgb(r, g, b) => TermColor::AnsiValue(spec_rgb_to_ansi256(r, g, b) as u8),
            _ => self.spec_truecolor(),
        }
    }

    /// The color for a sixteen-color terminal.
    pub open spec fn spec_basic(self) -> TermColor {
        match self {
            Color::Rgb(r, g, b) => basic_of_class(rgb_class(r, g, b)),
            Color::Ansi256(n) => spec_ansi256_to_basic(n),
            _ => self.spec_truecolor(),
        }
    }

    /// The color as a terminal of the given level shows it (none without
    /// color support).
    pub open spec fn spec_for_level(self, level: ColorLevel) -> Option<TermColor> {
        match level {
            ColorLevel::NoColor => None,
            ColorLevel::Basic => Some(self.spec_basic()),
            ColorLevel::Ansi256 => Some(self.spec_ansi256()),
            ColorLevel::TrueColor => Some(self.spec_truecolor()),
        }
    }

    fn to_truecolor(self) -> (c: TermColor)
        ensures
            c == self.spec_truecolor(),
    {
        match self {
            Color::Rgb(r, g, b) => TermColor::Rgb { r, g, b },
            Color::Ansi256(n) => TermColor::AnsiValue(n),
            Color::Black => TermColor::Black,
            Color::DarkRed => TermColor::DarkRed,
            Color::DarkGreen => TermColor::DarkGreen,
            Color::DarkYellow => TermColor::DarkYellow,
            Color::DarkBlue => TermColor::DarkBlue,
            Color::DarkMagenta => TermColor::DarkMagenta,
            Color::DarkCyan => TermColor::DarkCyan,
            Color::Grey => TermColor::Grey,
            Color::DarkGrey => TermColor::DarkGrey,
            Color::Red => TermColor::Red,
            Color::Green => TermColor::Green,
            Color::Yellow => TermColor::Yellow,
            Color::Blue => TermColor::Blue,
            Color::Magenta => TermColor::Magenta,
            Color::Cyan => TermColor::Cyan,
            Color::White => TermColor::White,
        }
    }

    fn to_ansi256(self) -> (c: TermColor)
        ensures
            c == self.spec_ansi256(),
    {
        match self {
            Color::Rgb(r, g, b) => TermColor::AnsiValue(rgb_to_ansi256(r, g, b)),
            _ => self.to_truecolor(),
        }
    }

    fn to_basic(self) -> (c: TermColor)
        ensures
            c == self.spec_basic(),
    {
        match self {
            Color::Rgb(r, g, b) => rgb_to_basic(r, g, b),
            Color::Ansi256(n) => ansi256_to_basic(n),
            _ => self.to_truecolor(),
        }
    }

    /// Downgrade a color to what the terminal's color level can show.
    pub fn for_level(self, level: ColorLevel) -> (c: Option<TermColor>)
        ensures
            c == self.spec_for_level(level),
    {
        match level {
            ColorLevel::NoColor => None,
            ColorLevel::Basic => Some(self.to_basic()),
            ColorLevel::Ansi256 => Some(self.to_ansi256()),
            ColorLevel::TrueColor => Some(self.to_truecolor()),
        }
    }
}

/// Text attributes and colors.
#[derive(Debug, Clone, Copy, PartialEq, Eq, Structural)]
pub struct Style {
    pub fg: Option<Color>,
    pub bg: Option<Color>,
    pub bold: bool,
    pub italic: bool,
    pub underline: bool,
    pub strikethrough: bool,
    pub dim: bool,
}

/// The style with no color and no attribute.
pub open spec fn plain_style() -> Style {
    Style {
        fg: None,
        bg: None,
        bold: false,
        italic: false,
        underline: false,
        strikethrough: false,
        dim: false,
    }
}

/// `other` laid over `base`: its colors where it has them, and every
/// attribute that either has.
pub open spec fn spec_merge(base: Style, other: Style) -> Style {
    Style {
        fg: match other.fg {
            Some(c) => Some(c),
            None => base.fg,
        },
        bg: match other.bg {
            Some(c) => Some(c),
            None => base.bg,
        },
        bold: base.bold || other.bold,
        italic: base.italic || other.italic,
        underline: base.underline || other.underline,
        strikethrough: base.strikethrough || other.strikethrough,
        dim: base.dim || other.dim,
    }
}

impl Default for Style {
    fn default() -> (s: Style)
        ensures
            s == plain_style(),
    {
        Style {
            fg: None,
            bg: None,
            bold: false,
            italic: false,
            underline: false,
            strikethrough: false,
            dim: false,
        }
    }
}

impl Style {
    /// The style with no color and no attribute.
    pub fn plain() -> (s: Style)
        ensures
            s == plain_style(),
    {
        Style {
            fg: None,
            bg: None,
            bold: false,
            italic: false,
            underline: false,
            strikethrough: false,
            dim: false,
        }
    }

    /// Merge another style on top of this one (overlay).
    pub fn merge(&self, other: &Style) -> (s: Style)
        ensures
            s == spec_merge(*self, *other),
    {
        Style {
            fg: match other.fg {
                Some(c) => Some(c),
                None => self.fg,
            },
            bg: match other.bg {
                Some(c) => Some(c),
                None => self.bg,
            },
            bold: self.bold || other.bold,
            italic: self.italic || other.italic,
            underline: self.underline || other.underline,
            strikethrough: self.strikethrough || other.strikethrough,
            dim: self.dim || other.dim,
        }
    }
}

/// Merging is associative, the plain style is its identity on both sides,
/// and merging a style onto itself changes nothing.
pub proof fn lemma_merge_laws(a: Style, b: Style, c: Style)
    ensures
        spec_merge(spec_merge(a, b), c) == spec_merge(a, spec_merge(b, c)),
        spec_merge(plain_style(), a) == a,
        spec_merge(a, plain_style()) == a,
        spec_merge(a, a) == a,
{
}

/// A later overlay wins: merging `b` over `a` and then `b` again is merging
/// `b` once, and whatever color `b` sets is the result's color.
pub proof fn lemma_merge_overlay(a: Style, b: Style)
    ensures
        spec_merge(spec_merge(a, b), b) == spec_merge(a, b),
        b.fg is Some ==> spec_merge(a, b).fg == b.fg,
        b.bg is Some ==> spec_merge(a, b).bg == b.bg,
{
}

} // verus!
