//! Screen geometry of the front end's popups.

use vstd::prelude::*;

verus! {

/// A rectangle of terminal cells.
#[derive(Debug, Clone, Copy, PartialEq, Eq, Structural)]
pub struct Area {
    pub x: u16,
    pub y: u16,
    pub width: u16,
    pub height: u16,
}

/// `a - b`, or 0 where `b` is larger.
pub open spec fn less(a: u16, b: int) -> u16 {
    if a >= b {
        (a - b) as u16
    } else {
        0
    }
}

/// The area shrunk by `margin_x` columns and `margin_y` rows on each side
/// (to nothing where the margins do not fit).
pub fn centered_inner(area: Area, margin_y: u16, margin_x: u16) -> (r: Area)
    requires
        area.x + margin_x <= u16::MAX,
        area.y + margin_y <= u16::MAX,
        margin_x * 2 <= u16::MAX,
        margin_y * 2 <= u16::MAX,
    ensures
        r == (Area {
            x: (area.x + margin_x) as u16,
            y: (area.y + margin_y) as u16,
            width: less(area.width, margin_x * 2),
            height: less(area.height, margin_y * 2),
        }),
{
    Area {
        x: area.x + margin_x,
        y: area.y + margin_y,
        width: area.width.saturating_sub(margin_x * 2),
        height: area.height.saturating_sub(margin_y * 2),
    }
}

} // verus!
