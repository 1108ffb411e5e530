//! What the terminal can do, decided from what the environment reports:
//! width, color depth, Unicode, hyperlinks and inline images. Reading the
//! environment is the caller's part; the decisions are made here.

use crate::cli::ColorMode;
use crate::strs::to_chars;
use crate::style::{ColorLevel, ImageProtocol};
use vstd::prelude::*;

verus! {

/// What `str::to_uppercase` returns.
pub uninterp spec fn spec_str_uppercase(s: Seq<char>) -> Seq<char>;

/// Calls `str::to_uppercase`; the contract names the result.
#[verifier::external_body]
pub(crate) fn str_uppercase(s: &str) -> (r: String)
    ensures
        r@ == spec_str_uppercase(s@),
{
    s.to_uppercase()
}

/// The terminal's capabilities.
#[derive(Debug, Clone, Copy, PartialEq, Eq, Structural)]
pub struct TerminalInfo {
    pub width: u16,
    pub color_level: ColorLevel,
    pub is_tty: bool,
    pub unicode: bool,
    pub supports_osc8: bool,
    pub image_protocol: ImageProtocol,
}

/// The color levels in order.
pub open spec fn level_rank(l: ColorLevel) -> int {
    match l {
        ColorLevel::NoColor => 0,
        ColorLevel::Basic => 1,
        ColorLevel::Ansi256 => 2,
        ColorLevel::TrueColor => 3,
    }
}

/// `NO_COLOR` (set and not empty) and `TERM=dumb` turn color off;
/// otherwise the depth `supports-color` found (`(has_16m, has_256,
/// has_basic)`, `None` when it found none).
pub open spec fn spec_env_color_level(
    no_color: Option<Seq<char>>,
    term: Option<Seq<char>>,
    supported: Option<(bool, bool, bool)>,
) -> ColorLevel {
    if no_color matches Some(v) && v.len() > 0 {
        ColorLevel::NoColor
    } else if term == Some("dumb"@) {
        ColorLevel::NoColor
    } else {
        match supported {
            Some((has_16m, has_256, has_basic)) => if has_16m {
                ColorLevel::TrueColor
            } else if has_256 {
                ColorLevel::Ansi256
            } else if has_basic {
                ColorLevel::Basic
            } else {
                ColorLevel::NoColor
            },
            None => ColorLevel::NoColor,
        }
    }
}

fn opt_view(o: &Option<String>) -> (r: Option<Vec<char>>)
    ensures
        match o {
            Some(s) => r matches Some(v) && v@ == s@,
            None => r is None,
        },
{
    match o {
        Some(s) => Some(to_chars(s.as_str())),
        None => None,
    }
}

/// The color depth the environment allows.
pub fn color_level_from_env(
    no_color: &Option<String>,
    term: &Option<String>,
    supported: Option<(bool, bool, bool)>,
) -> (l: ColorLevel)
    ensures
        l == spec_env_color_level(
            match no_color { Some(s) => Some(s@), None => None },
            match term { Some(s) => Some(s@), None => None },
            supported,
        ),
{
    match opt_view(no_color) {
        Some(v) => {
            if v.len() > 0 {
                return ColorLevel::NoColor;
            }
        },
        None => {},
    }
    match opt_view(term) {
        Some(v) => {
            if crate::strs::eq_lit(&v, "dumb") {
                return ColorLevel::NoColor;
            }
        },
        None => {},
    }
    match supported {
        Some((has_16m, has_256, has_basic)) => {
            if has_16m {
                ColorLevel::TrueColor
            } else if has_256 {
                ColorLevel::Ansi256
            } else if has_basic {
                ColorLevel::Basic
            } else {
                ColorLevel::NoColor
            }
        },
        None => ColorLevel::NoColor,
    }
}

/// The color depth for a `--color` mode: `always` is at least true color
/// when the environment found none, `never` is none, `auto` is what the
/// environment allows on a terminal and none elsewhere.
pub open spec fn spec_color_level(mode: ColorMode, is_tty: bool, detected: ColorLevel) -> ColorLevel {
    match mode {
        ColorMode::Always => if detected == ColorLevel::NoColor { ColorLevel::TrueColor } else { detected },
        ColorMode::Never => ColorLevel::NoColor,
        ColorMode::Auto => if !is_tty { ColorLevel::NoColor } else { detected },
    }
}

/// The color depth to render with.
pub fn choose_color_level(mode: ColorMode, is_tty: bool, detected: ColorLevel) -> (l: ColorLevel)
    ensures
        l == spec_color_level(mode, is_tty, detected),
{
    match mode {
        ColorMode::Always => if detected == ColorLevel::NoColor { ColorLevel::TrueColor } else { detected },
        ColorMode::Never => ColorLevel::NoColor,
        ColorMode::Auto => if !is_tty { ColorLevel::NoColor } else { detected },
    }
}

/// iTerm2 and WezTerm (by `TERM_PROGRAM`) speak the iTerm2 protocol, kitty
/// (`KITTY_PID` set) its own; other terminals show no images.
pub open spec fn spec_image_protocol(term_program: Option<Seq<char>>, kitty_pid_set: bool) -> ImageProtocol {
    if term_program == Some("iTerm.app"@) || term_program == Some("WezTerm"@) {
        ImageProtocol::ITerm2
    } else if kitty_pid_set {
        ImageProtocol::Kitty
    } else {
        ImageProtocol::NoImages
    }
}

/// The inline image protocol the environment reports.
pub fn image_protocol_from_env(term_program: &Option<String>, kitty_pid_set: bool) -> (p: ImageProtocol)
    ensures
        p == spec_image_protocol(match term_program { Some(s) => Some(s@), None => None }, kitty_pid_set),
{
    match opt_view(term_program) {
        Some(v) => {
            if crate::strs::eq_lit(&v, "iTerm.app") || crate::strs::eq_lit(&v, "WezTerm") {
                return ImageProtocol::ITerm2;
            }
        },
        None => {},
    }
    if kitty_pid_set {
        ImageProtocol::Kitty
    } else {
        ImageProtocol::NoImages
    }
}

/// The first of `LC_ALL`, `LC_CTYPE`, `LANG` that is set and not empty
/// decides: Unicode when it names UTF (in any case). With none set, Unicode
/// on macOS only.
pub open spec fn spec_unicode(locale: Seq<Option<Seq<char>>>, macos: bool) -> bool
    decreases locale.len(),
{
    if locale.len() == 0 {
        macos
    } else {
        match locale[0] {
            Some(v) => if v.len() > 0 {
                crate::strs::contains_seq(spec_str_uppercase(v), "UTF"@)
            } else {
                spec_unicode(locale.drop_first(), macos)
            },
            None => spec_unicode(locale.drop_first(), macos),
        }
    }
}

/// Whether to draw with Unicode box characters, from the locale variables
/// in the order `LC_ALL`, `LC_CTYPE`, `LANG`.
pub fn unicode_from_env(locale: &Vec<Option<String>>, macos: bool) -> (b: bool)
    ensures
        b == spec_unicode(
            Seq::new(locale@.len(), |i: int| match locale@[i] { Some(s) => Some(s@), None => None }),
            macos,
        ),
{
    let ghost lv = Seq::new(locale@.len(), |i: int| match locale@[i] { Some(s) => Some(s@), None => None::<Seq<char>> });
    let mut i: usize = 0;
    assert(lv.skip(0) =~= lv);
    while i < locale.len()
        invariant
            i <= locale@.len(),
            lv == Seq::new(locale@.len(), |i: int| match locale@[i] { Some(s) => Some(s@), None => None::<Seq<char>> }),
            spec_unicode(lv, macos) == spec_unicode(lv.skip(i as int), macos),
        decreases locale.len() - i,
    {
        assert(lv.skip(i as int)[0] == lv[i as int]);
        assert(lv.skip(i as int).drop_first() =~= lv.skip(i + 1));
        match opt_view(&locale[i]) {
            Some(v) => {
                if v.len() > 0 {
                    let upper = to_chars(str_uppercase(crate::strs::from_chars(&v).as_str()).as_str());
                    let utf = to_chars("UTF");
                    return crate::search::contains_chars(&upper, &utf);
                }
            },
            None => {},
        }
        i = i + 1;
    }
    assert(lv.skip(i as int) =~= Seq::<Option<Seq<char>>>::empty());
    macos
}

/// Hyperlinks are on with `--color=always`, and otherwise on a terminal
/// with any color.
pub open spec fn spec_osc8(mode: ColorMode, is_tty: bool, level: ColorLevel) -> bool {
    match mode {
        ColorMode::Always => true,
        _ => is_tty && level_rank(level) >= 1,
    }
}

/// Whether OSC 8 hyperlinks are emitted.
pub fn osc8_enabled(mode: ColorMode, is_tty: bool, level: ColorLevel) -> (b: bool)
    ensures
        b == spec_osc8(mode, is_tty, level),
{
    match mode {
        ColorMode::Always => true,
        _ => is_tty && level != ColorLevel::NoColor,
    }
}

impl TerminalInfo {
    /// The terminal's capabilities from what was detected: whether stdout
    /// is a terminal, its width (80 when unknown, unless overridden), the
    /// color depth the environment allows, the locale's Unicode verdict and
    /// the image protocol it reports.
    pub fn decide(
        mode: ColorMode,
        width_override: Option<u16>,
        detected_width: Option<u16>,
        is_tty: bool,
        env_level: ColorLevel,
        unicode: bool,
        env_images: ImageProtocol,
    ) -> (t: TerminalInfo)
        ensures
            t.width == match width_override {
                Some(w) => w,
                None => match detected_width {
                    Some(w) => w,
                    None => 80u16,
                },
            },
            t.color_level == spec_color_level(mode, is_tty, env_level),
            t.is_tty == is_tty,
            t.unicode == unicode,
            t.supports_osc8 == spec_osc8(mode, is_tty, spec_color_level(mode, is_tty, env_level)),
            t.image_protocol == if is_tty { env_images } else { ImageProtocol::NoImages },
    {
        let width = match width_override {
            Some(w) => w,
            None => match detected_width {
                Some(w) => w,
                None => 80,
            },
        };
        let color_level = choose_color_level(mode, is_tty, env_level);
        let supports_osc8 = osc8_enabled(mode, is_tty, color_level);
        let image_protocol = if is_tty { env_images } else { ImageProtocol::NoImages };
        TerminalInfo { width, color_level, is_tty, unicode, supports_osc8, image_protocol }
    }
}

} // verus!
