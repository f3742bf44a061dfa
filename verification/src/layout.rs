use vstd::prelude::*;

use crate::ascii::ROWS_PER_COLUMN;

verus! {

/// A rectangle of terminal cells.
#[derive(Clone, Copy, Debug, PartialEq, Eq, Structural)]
pub struct Area {
    pub x: u16,
    pub y: u16,
    pub width: u16,
    pub height: u16,
}

/// `a - b`, or zero when `b` is larger.
pub open spec fn sat_sub(a: int, b: int) -> int {
    if a >= b {
        a - b
    } else {
        0
    }
}

/// The side of a popup: what is left after the margin, but no more than `cap`.
pub open spec fn popup_side(total: u16, margin: u16, cap: u16) -> int {
    let room = sat_sub(total as int, margin as int);
    if room < cap {
        room
    } else {
        cap as int
    }
}

/// Where a popup of that side starts so that it sits in the middle.
pub open spec fn popup_start(start: u16, total: u16, side: int) -> int {
    start + sat_sub(total as int, side) / 2
}

/// A popup centred in `area`, `width_margin` and `height_margin` smaller than it
/// and at most `max_width` by `max_height`.
pub fn centered_popup(area: Area, width_margin: u16, max_width: u16, height_margin: u16, max_height: u16) -> (r: Area)
    requires
        popup_start(area.x, area.width, popup_side(area.width, width_margin, max_width)) <= u16::MAX,
        popup_start(area.y, area.height, popup_side(area.height, height_margin, max_height)) <= u16::MAX,
    ensures
        r.width == popup_side(area.width, width_margin, max_width),
        r.height == popup_side(area.height, height_margin, max_height),
        r.x == popup_start(area.x, area.width, r.width as int),
        r.y == popup_start(area.y, area.height, r.height as int),
{
    let w = area.width.saturating_sub(width_margin);
    let w = if w < max_width { w } else { max_width };
    let h = area.height.saturating_sub(height_margin);
    let h = if h < max_height { h } else { max_height };
    let x = area.x + area.width.saturating_sub(w) / 2;
    let y = area.y + area.height.saturating_sub(h) / 2;
    Area { x, y, width: w, height: h }
}

/// The rows of the table the popup's inside has room for: four go to the
/// header and borders.
pub open spec fn visible_rows(inner_height: u16) -> nat {
    sat_sub(inner_height as int, 4) as nat
}

/// The furthest the table can scroll when `visible` rows show.
pub open spec fn max_scroll(visible: nat) -> nat {
    sat_sub(ROWS_PER_COLUMN as int, visible as int) as nat
}

/// The length given to the table's scrollbar.
pub open spec fn scrollbar_length(visible: nat) -> int {
    ROWS_PER_COLUMN - (visible - if visible % 2 == 0 { 2int } else { 1int })
}

/// The length given to the table's scrollbar when `visible` rows show.
pub fn scrollbar_content_length(visible: usize) -> (n: usize)
    requires
        visible >= (if visible % 2 == 0 { 2int } else { 1int }),
        visible - (if visible % 2 == 0 { 2int } else { 1int }) <= ROWS_PER_COLUMN,
    ensures
        n == scrollbar_length(visible as nat),
{
    let k: usize = if visible % 2 == 0 { 2 } else { 1 };
    ROWS_PER_COLUMN - (visible - k)
}

} // verus!
