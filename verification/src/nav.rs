//! Scrolling and slide navigation for `watch` and `present`: from the
//! current position and a key, the next position (or the end of the
//! session). The terminal loop that reads keys and draws is the caller's.

use vstd::prelude::*;

verus! {

/// What a key asks of the scrolling view.
#[derive(Debug, Clone, Copy, PartialEq, Eq, Structural)]
pub enum ScrollKey {
    Quit,
    LineDown,
    LineUp,
    HalfPageDown,
    HalfPageUp,
    Top,
    Bottom,
    Ignored,
}

/// `u16` addition that stops at the top.
pub open spec fn sat_add16(a: u16, b: u16) -> u16 {
    if a + b > u16::MAX { u16::MAX } else { (a + b) as u16 }
}

/// `u16` subtraction that stops at zero.
pub open spec fn sat_sub16(a: u16, b: u16) -> u16 {
    if a >= b { (a - b) as u16 } else { 0 }
}

/// The scroll offset after a key (`None` to leave): one line, half a page
/// (`half_page` lines), the top, or the bottom (clamped when drawn).
pub open spec fn spec_scroll_step(scroll: u16, key: ScrollKey, half_page: u16) -> Option<u16> {
    match key {
        ScrollKey::Quit => None,
        ScrollKey::LineDown => Some(sat_add16(scroll, 1)),
        ScrollKey::LineUp => Some(sat_sub16(scroll, 1)),
        ScrollKey::HalfPageDown => Some(sat_add16(scroll, half_page)),
        ScrollKey::HalfPageUp => Some(sat_sub16(scroll, half_page)),
        ScrollKey::Top => Some(0),
        ScrollKey::Bottom => Some(u16::MAX),
        ScrollKey::Ignored => Some(scroll),
    }
}

/// The next scroll offset of the watched document.
pub fn scroll_step(scroll: u16, key: ScrollKey, half_page: u16) -> (r: Option<u16>)
    ensures
        r == spec_scroll_step(scroll, key, half_page),
{
    match key {
        ScrollKey::Quit => None,
        ScrollKey::LineDown => Some(scroll.saturating_add(1)),
        ScrollKey::LineUp => Some(scroll.saturating_sub(1)),
        ScrollKey::HalfPageDown => Some(scroll.saturating_add(half_page)),
        ScrollKey::HalfPageUp => Some(scroll.saturating_sub(half_page)),
        ScrollKey::Top => Some(0),
        ScrollKey::Bottom => Some(u16::MAX),
        ScrollKey::Ignored => Some(scroll),
    }
}

/// Half a page of a view `height` rows tall, its status line not counted.
pub fn half_page(height: u16) -> (h: u16)
    ensures
        h == sat_sub16(height, 1) / 2,
{
    height.saturating_sub(1) / 2
}

/// The offset as drawn: never past the last screenful of the content.
pub fn clamp_scroll(scroll: u16, content_height: u16, area_height: u16) -> (r: u16)
    ensures
        r == if scroll > sat_sub16(content_height, area_height) { sat_sub16(content_height, area_height) } else { scroll },
        r <= scroll,
{
    let max_scroll = content_height.saturating_sub(area_height);
    if scroll > max_scroll { max_scroll } else { scroll }
}

/// What a key asks of the slide show.
#[derive(Debug, Clone, Copy, PartialEq, Eq, Structural)]
pub enum SlideKey {
    Quit,
    Next,
    Previous,
    First,
    Last,
    LineDown,
    LineUp,
    Ignored,
}

/// The slide and scroll offset after a key (`None` to leave). Moving to
/// another slide starts it at the top; there is no slide past either end.
pub open spec fn spec_slide_step(current: usize, scroll: u16, count: usize, key: SlideKey) -> Option<(usize, u16)> {
    match key {
        SlideKey::Quit => None,
        SlideKey::Next => if current + 1 < count { Some(((current + 1) as usize, 0u16)) } else { Some((current, scroll)) },
        SlideKey::Previous => if current > 0 { Some(((current - 1) as usize, 0u16)) } else { Some((current, scroll)) },
        SlideKey::First => Some((0usize, 0u16)),
        SlideKey::Last => Some((if count > 0 { (count - 1) as usize } else { 0usize }, 0u16)),
        SlideKey::LineDown => Some((current, sat_add16(scroll, 1))),
        SlideKey::LineUp => Some((current, sat_sub16(scroll, 1))),
        SlideKey::Ignored => Some((current, scroll)),
    }
}

/// The next slide and scroll offset.
pub fn slide_step(current: usize, scroll: u16, count: usize, key: SlideKey) -> (r: Option<(usize, u16)>)
    ensures
        r == spec_slide_step(current, scroll, count, key),
{
    match key {
        SlideKey::Quit => None,
        SlideKey::Next => {
            if current < usize::MAX && current + 1 < count {
                Some((current + 1, 0))
            } else {
                Some((current, scroll))
            }
        },
        SlideKey::Previous => if current > 0 { Some((current - 1, 0)) } else { Some((current, scroll)) },
        SlideKey::First => Some((0, 0)),
        SlideKey::Last => Some((count.saturating_sub(1), 0)),
        SlideKey::LineDown => Some((current, scroll.saturating_add(1))),
        SlideKey::LineUp => Some((current, scroll.saturating_sub(1))),
        SlideKey::Ignored => Some((current, scroll)),
    }
}

/// A slide shorter than the screen is centred: the blank rows above it.
pub fn slide_offset(slide_height: u16, area_height: u16) -> (r: u16)
    ensures
        r == if slide_height < area_height { (area_height - slide_height) / 2 } else { 0 },
{
    if slide_height < area_height { (area_height - slide_height) / 2 } else { 0 }
}

/// Moving forward and back again returns to the same slide (at its top),
/// from any slide that has a next one.
pub proof fn lemma_next_then_previous(current: usize, scroll: u16, count: usize)
    requires
        current + 1 < count,
    ensures
        spec_slide_step(current, scroll, count, SlideKey::Next) matches Some((c, s)) && spec_slide_step(
            c,
            s,
            count,
            SlideKey::Previous,
        ) == Some((current, 0u16)),
{
}

/// Whatever the key, the slide stays in range when it started in range.
pub proof fn lemma_slide_in_range(current: usize, scroll: u16, count: usize, key: SlideKey)
    requires
        current < count,
    ensures
        spec_slide_step(current, scroll, count, key) matches Some((c, _s)) ==> c < count,
{
}

} // verus!
