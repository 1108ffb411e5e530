//! The dark and light themes: the style of every markdown element.

use crate::style::{Color, Style};
use vstd::prelude::*;

verus! {

/// The built-in themes.
#[derive(Debug, Clone, Copy, PartialEq, Eq, Structural)]
pub enum ThemeName {
    Dark,
    Light,
}

/// Theme maps markdown elements to styles.
#[derive(Debug, Clone, Copy, PartialEq, Eq, Structural)]
pub struct Theme {
    pub h1: Style,
    pub h2: Style,
    pub h3: Style,
    pub h4: Style,
    pub h5: Style,
    pub h6: Style,
    pub paragraph: Style,
    pub bold: Style,
    pub italic: Style,
    pub strikethrough: Style,
    pub inline_code: Style,
    pub code_border: Style,
    pub code_lang_label: Style,
    pub code_text: Style,
    pub blockquote_bar: Style,
    pub blockquote_text: Style,
    pub link_text: Style,
    pub link_url: Style,
    pub image_text: Style,
    pub list_bullet: Style,
    pub task_done: Style,
    pub task_undone: Style,
    pub table_border: Style,
    pub table_header: Style,
    pub table_cell: Style,
    pub hr: Style,
    pub footnote_ref: Style,
    pub alert_note: Style,
    pub alert_tip: Style,
    pub alert_important: Style,
    pub alert_warning: Style,
    pub alert_caution: Style,
    pub heading_rule: Style,
}

/// A style from its parts.
pub open spec fn style_of(
    fg: Option<Color>,
    bg: Option<Color>,
    bold: bool,
    italic: bool,
    underline: bool,
    strikethrough: bool,
    dim: bool,
) -> Style {
    Style { fg, bg, bold, italic, underline, strikethrough, dim }
}

fn make_style(
    fg: Option<Color>,
    bg: Option<Color>,
    bold: bool,
    italic: bool,
    underline: bool,
    strikethrough: bool,
    dim: bool,
) -> (s: Style)
    ensures
        s == style_of(fg, bg, bold, italic, underline, strikethrough, dim),
{
    Style { fg, bg, bold, italic, underline, strikethrough, dim }
}

/// The theme for dark terminal backgrounds.
pub open spec fn dark_theme() -> Theme {
    Theme {
        h1: style_of(Some(Color::Cyan), None, true, false, false, false, false),
        h2: style_of(Some(Color::Green), None, true, false, false, false, false),
        h3: style_of(Some(Color::Yellow), None, true, false, false, false, false),
        h4: style_of(Some(Color::Blue), None, true, false, false, false, false),
        h5: style_of(Some(Color::Magenta), None, true, false, false, false, false),
        h6: style_of(Some(Color::DarkGrey), None, true, false, false, false, false),
        paragraph: style_of(None, None, false, false, false, false, false),
        bold: style_of(None, None, true, false, false, false, false),
        italic: style_of(None, None, false, true, false, false, false),
        strikethrough: style_of(None, None, false, false, false, true, false),
        inline_code: style_of(Some(Color::White), Some(Color::Rgb(60, 60, 60)), false, false, false, false, false),
        code_border: style_of(Some(Color::DarkGrey), None, false, false, false, false, false),
        code_lang_label: style_of(Some(Color::DarkGrey), None, false, true, false, false, false),
        code_text: style_of(None, None, false, false, false, false, false),
        blockquote_bar: style_of(Some(Color::DarkCyan), None, false, false, false, false, false),
        blockquote_text: style_of(Some(Color::Grey), None, false, true, false, false, false),
        link_text: style_of(Some(Color::Blue), None, false, false, true, false, false),
        link_url: style_of(Some(Color::DarkGrey), None, false, false, false, false, false),
        image_text: style_of(Some(Color::Magenta), None, false, false, false, false, false),
        list_bullet: style_of(Some(Color::Cyan), None, false, false, false, false, false),
        task_done: style_of(Some(Color::Green), None, false, false, false, false, false),
        task_undone: style_of(Some(Color::Red), None, false, false, false, false, false),
        table_border: style_of(Some(Color::DarkGrey), None, false, false, false, false, false),
        table_header: style_of(Some(Color::Cyan), None, true, false, false, false, false),
        table_cell: style_of(None, None, false, false, false, false, false),
        hr: style_of(Some(Color::DarkGrey), None, false, false, false, false, false),
        footnote_ref: style_of(Some(Color::Cyan), None, false, false, false, false, false),
        alert_note: style_of(Some(Color::Blue), None, true, false, false, false, false),
        alert_tip: style_of(Some(Color::Green), None, true, false, false, false, false),
        alert_important: style_of(Some(Color::Magenta), None, true, false, false, false, false),
        alert_warning: style_of(Some(Color::Yellow), None, true, false, false, false, false),
        alert_caution: style_of(Some(Color::Red), None, true, false, false, false, false),
        heading_rule: style_of(Some(Color::DarkGrey), None, false, false, false, false, false),
    }
}

fn build_dark() -> (t: Theme)
    ensures
        t == dark_theme(),
{
    Theme {
        h1: make_style(Some(Color::Cyan), None, true, false, false, false, false),
        h2: make_style(Some(Color::Green), None, true, false, false, false, false),
        h3: make_style(Some(Color::Yellow), None, true, false, false, false, false),
        h4: make_style(Some(Color::Blue), None, true, false, false, false, false),
        h5: make_style(Some(Color::Magenta), None, true, false, false, false, false),
        h6: make_style(Some(Color::DarkGrey), None, true, false, false, false, false),
        paragraph: make_style(None, None, false, false, false, false, false),
        bold: make_style(None, None, true, false, false, false, false),
        italic: make_style(None, None, false, true, false, false, false),
        strikethrough: make_style(None, None, false, false, false, true, false),
        inline_code: make_style(Some(Color::White), Some(Color::Rgb(60, 60, 60)), false, false, false, false, false),
        code_border: make_style(Some(Color::DarkGrey), None, false, false, false, false, false),
        code_lang_label: make_style(Some(Color::DarkGrey), None, false, true, false, false, false),
        code_text: make_style(None, None, false, false, false, false, false),
        blockquote_bar: make_style(Some(Color::DarkCyan), None, false, false, false, false, false),
        blockquote_text: make_style(Some(Color::Grey), None, false, true, false, false, false),
        link_text: make_style(Some(Color::Blue), None, false, false, true, false, false),
        link_url: make_style(Some(Color::DarkGrey), None, false, false, false, false, false),
        image_text: make_style(Some(Color::Magenta), None, false, false, false, false, false),
        list_bullet: make_style(Some(Color::Cyan), None, false, false, false, false, false),
        task_done: make_style(Some(Color::Green), None, false, false, false, false, false),
        task_undone: make_style(Some(Color::Red), None, false, false, false, false, false),
        table_border: make_style(Some(Color::DarkGrey), None, false, false, false, false, false),
        table_header: make_style(Some(Color::Cyan), None, true, false, false, false, false),
        table_cell: make_style(None, None, false, false, false, false, false),
        hr: make_style(Some(Color::DarkGrey), None, false, false, false, false, false),
        footnote_ref: make_style(Some(Color::Cyan), None, false, false, false, false, false),
        alert_note: make_style(Some(Color::Blue), None, true, false, false, false, false),
        alert_tip: make_style(Some(Color::Green), None, true, false, false, false, false),
        alert_important: make_style(Some(Color::Magenta), None, true, false, false, false, false),
        alert_warning: make_style(Some(Color::Yellow), None, true, false, false, false, false),
        alert_caution: make_style(Some(Color::Red), None, true, false, false, false, false),
        heading_rule: make_style(Some(Color::DarkGrey), None, false, false, false, false, false),
    }
}

/// The theme for light terminal backgrounds.
pub open spec fn light_theme() -> Theme {
    Theme {
        h1: style_of(Some(Color::DarkCyan), None, true, false, false, false, false),
        h2: style_of(Some(Color::DarkGreen), None, true, false, false, false, false),
        h3: style_of(Some(Color::DarkYellow), None, true, false, false, false, false),
        h4: style_of(Some(Color::DarkBlue), None, true, false, false, false, false),
        h5: style_of(Some(Color::DarkMagenta), None, true, false, false, false, false),
        h6: style_of(Some(Color::Grey), None, true, false, false, false, false),
        paragraph: style_of(None, None, false, false, false, false, false),
        bold: style_of(None, None, true, false, false, false, false),
        italic: style_of(None, None, false, true, false, false, false),
        strikethrough: style_of(None, None, false, false, false, true, false),
        inline_code: style_of(Some(Color::Black), Some(Color::Rgb(220, 220, 220)), false, false, false, false, false),
        code_border: style_of(Some(Color::Grey), None, false, false, false, false, false),
        code_lang_label: style_of(Some(Color::Grey), None, false, true, false, false, false),
        code_text: style_of(None, None, false, false, false, false, false),
        blockquote_bar: style_of(Some(Color::DarkCyan), None, false, false, false, false, false),
        blockquote_text: style_of(Some(Color::DarkGrey), None, false, true, false, false, false),
        link_text: style_of(Some(Color::DarkBlue), None, false, false, true, false, false),
        link_url: style_of(Some(Color::Grey), None, false, false, false, false, false),
        image_text: style_of(Some(Color::DarkMagenta), None, false, false, false, false, false),
        list_bullet: style_of(Some(Color::DarkCyan), None, false, false, false, false, false),
        task_done: style_of(Some(Color::DarkGreen), None, false, false, false, false, false),
        task_undone: style_of(Some(Color::DarkRed), None, false, false, false, false, false),
        table_border: style_of(Some(Color::Grey), None, false, false, false, false, false),
        table_header: style_of(Some(Color::DarkCyan), None, true, false, false, false, false),
        table_cell: style_of(None, None, false, false, false, false, false),
        hr: style_of(Some(Color::Grey), None, false, false, false, false, false),
        footnote_ref: style_of(Some(Color::DarkCyan), None, false, false, false, false, false),
        alert_note: style_of(Some(Color::DarkBlue), None, true, false, false, false, false),
        alert_tip: style_of(Some(Color::DarkGreen), None, true, false, false, false, false),
        alert_important: style_of(Some(Color::DarkMagenta), None, true, false, false, false, false),
        alert_warning: style_of(Some(Color::DarkYellow), None, true, false, false, false, false),
        alert_caution: style_of(Some(Color::DarkRed), None, true, false, false, false, false),
        heading_rule: style_of(Some(Color::Grey), None, false, false, false, false, false),
    }
}

fn build_light() -> (t: Theme)
    ensures
        t == light_theme(),
{
    Theme {
        h1: make_style(Some(Color::DarkCyan), None, true, false, false, false, false),
        h2: make_style(Some(Color::DarkGreen), None, true, false, false, false, false),
        h3: make_style(Some(Color::DarkYellow), None, true, false, false, false, false),
        h4: make_style(Some(Color::DarkBlue), None, true, false, false, false, false),
        h5: make_style(Some(Color::DarkMagenta), None, true, false, false, false, false),
        h6: make_style(Some(Color::Grey), None, true, false, false, false, false),
        paragraph: make_style(None, None, false, false, false, false, false),
        bold: make_style(None, None, true, false, false, false, false),
        italic: make_style(None, None, false, true, false, false, false),
        strikethrough: make_style(None, None, false, false, false, true, false),
        inline_code: make_style(Some(Color::Black), Some(Color::Rgb(220, 220, 220)), false, false, false, false, false),
        code_border: make_style(Some(Color::Grey), None, false, false, false, false, false),
        code_lang_label: make_style(Some(Color::Grey), None, false, true, false, false, false),
        code_text: make_style(None, None, false, false, false, false, false),
        blockquote_bar: make_style(Some(Color::DarkCyan), None, false, false, false, false, false),
        blockquote_text: make_style(Some(Color::DarkGrey), None, false, true, false, false, false),
        link_text: make_style(Some(Color::DarkBlue), None, false, false, true, false, false),
        link_url: make_style(Some(Color::Grey), None, false, false, false, false, false),
        image_text: make_style(Some(Color::DarkMagenta), None, false, false, false, false, false),
        list_bullet: make_style(Some(Color::DarkCyan), None, false, false, false, false, false),
        task_done: make_style(Some(Color::DarkGreen), None, false, false, false, false, false),
        task_undone: make_style(Some(Color::DarkRed), None, false, false, false, false, false),
        table_border: make_style(Some(Color::Grey), None, false, false, false, false, false),
        table_header: make_style(Some(Color::DarkCyan), None, true, false, false, false, false),
        table_cell: make_style(None, None, false, false, false, false, false),
        hr: make_style(Some(Color::Grey), None, false, false, false, false, false),
        footnote_ref: make_style(Some(Color::DarkCyan), None, false, false, false, false, false),
        alert_note: make_style(Some(Color::DarkBlue), None, true, false, false, false, false),
        alert_tip: make_style(Some(Color::DarkGreen), None, true, false, false, false, false),
        alert_important: make_style(Some(Color::DarkMagenta), None, true, false, false, false, false),
        alert_warning: make_style(Some(Color::DarkYellow), None, true, false, false, false, false),
        alert_caution: make_style(Some(Color::DarkRed), None, true, false, false, false, false),
        heading_rule: make_style(Some(Color::Grey), None, false, false, false, false, false),
    }
}

impl Theme {
    /// The theme of the given name.
    pub fn from_name(name: &ThemeName) -> (t: Theme)
        ensures
            t == match name {
                ThemeName::Dark => dark_theme(),
                ThemeName::Light => light_theme(),
            },
    {
        match name {
            ThemeName::Dark => Self::dark(),
            ThemeName::Light => Self::light(),
        }
    }

    /// The theme for dark terminal backgrounds.
    pub fn dark() -> (t: Theme)
        ensures
            t == dark_theme(),
    {
        build_dark()
    }

    /// The theme for light terminal backgrounds.
    pub fn light() -> (t: Theme)
        ensures
            t == light_theme(),
    {
        build_light()
    }
}

} // verus!
