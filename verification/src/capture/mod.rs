//! Reading local input, and the thread that reads the dongle back.

use vstd::prelude::*;

pub mod keymap;
pub mod reader;
pub mod tap;

use crate::layout::fits;

verus! {

/// Capture on a system that has no event tap: there is nothing to run.
pub fn run() -> (r: Result<(), String>)
    ensures
        r matches Err(e) && e@ == "input capture is only implemented for macOS so far"@,
{
    Err(String::from_str("input capture is only implemented for macOS so far"))
}

/// The rectangle the local cursor lives in, in the same units the layout uses
/// for the local screen.
#[derive(Debug, Clone, Copy, PartialEq, Eq, Structural)]
pub struct Bounds {
    pub x: i32,
    pub y: i32,
    pub width: i32,
    pub height: i32,
}

/// One axis of the screen.
#[derive(Debug, Clone, Copy, PartialEq, Eq, Structural)]
pub enum Axis {
    X,
    Y,
}

impl Bounds {
    /// The first and the last coordinate along an axis.
    pub open spec fn ends(self, axis: Axis) -> (int, int) {
        match axis {
            Axis::X => (self.x as int, self.x + self.width - 1),
            Axis::Y => (self.y as int, self.y + self.height - 1),
        }
    }

    fn span(self, axis: Axis) -> (r: (i64, i64))
        ensures
            (r.0 as int, r.1 as int) == self.ends(axis),
    {
        match axis {
            Axis::X => (self.x as i64, self.x as i64 + self.width as i64 - 1),
            Axis::Y => (self.y as i64, self.y as i64 + self.height as i64 - 1),
        }
    }
}

/// How near the boundary still counts as against it.
///
/// The cursor position arrives as a float and is truncated, and exactly where
/// macOS stops the cursor relative to the display rectangle is not something to
/// bet handoff on: being one point out would mean the pinned case never fires
/// and the pointer could never leave this machine at all. One point of slack
/// costs at most one event's worth of over-reported motion.
pub const EDGE_SLACK: i32 = 1;

/// The cursor is against an end of the axis and the device still pushes
/// outward.
pub open spec fn is_pinned(device: int, pos: int, ends: (int, int)) -> bool {
    (device < 0 && pos <= ends.0 + EDGE_SLACK) || (device > 0 && pos >= ends.1 - EDGE_SLACK)
}

/// How far one axis advances: as far as the cursor moved; as far as the device
/// did where the cursor cannot move any further; otherwise not at all.
pub open spec fn advance_along(screen: int, device: int, pos: int, ends: (int, int)) -> int {
    if screen != 0 {
        screen
    } else if is_pinned(device, pos, ends) {
        device
    } else {
        0
    }
}

/// How far to advance for one event, axis by axis.
pub open spec fn advance_by(
    prev: (i32, i32),
    now: (i32, i32),
    device: (i32, i32),
    bounds: Bounds,
) -> (int, int) {
    (
        advance_along(now.0 - prev.0, device.0 as int, now.0 as int, bounds.ends(Axis::X)),
        advance_along(now.1 - prev.1, device.1 as int, now.1 as int, bounds.ends(Axis::Y)),
    )
}

fn axis_delta(screen: i64, device: i32, pos: i32, ends: (i64, i64)) -> (r: i64)
    requires
        -8589934592 <= ends.0 <= 8589934592,
        -8589934592 <= ends.1 <= 8589934592,
    ensures
        r == advance_along(
            screen as int,
            device as int,
            pos as int,
            (ends.0 as int, ends.1 as int),
        ),
{
    if screen != 0 {
        return screen;
    }
    let pos: i64 = pos as i64;
    let slack: i64 = EDGE_SLACK as i64;
    let pinned: bool = (device < 0 && pos <= ends.0 + slack) || (device > 0 && pos >= ends.1
        - slack);
    if pinned {
        device as i64
    } else {
        0
    }
}

/// How far to advance for one event, wide enough for any two places.
pub(crate) fn wide_delta(
    prev: (i32, i32),
    now: (i32, i32),
    device: (i32, i32),
    bounds: Bounds,
) -> (r: (i64, i64))
    ensures
        (r.0 as int, r.1 as int) == advance_by(prev, now, device, bounds),
{
    (
        axis_delta(now.0 as i64 - prev.0 as i64, device.0, now.0, bounds.span(Axis::X)),
        axis_delta(now.1 as i64 - prev.1 as i64, device.1, now.1, bounds.span(Axis::Y)),
    )
}

/// How far to advance the dongle's model of the pointer for one event, while
/// the pointer is still on this machine.
///
/// The obvious input is the raw HID delta. It is wrong: the visible cursor
/// moves by the device count *after pointer acceleration*, so the dongle's
/// dead-reckoned pointer would run ahead of the cursor and hand off to the next
/// machine while the cursor was still in the middle of the display.
///
/// So while the pointer is local we send how far the *cursor* actually moved,
/// and the crossing fires exactly when the cursor reaches the edge.
///
/// The device delta is still needed for the one case the screen delta cannot
/// describe: once the cursor is pinned against the edge of the display it stops
/// moving no matter how far the mouse is pushed, and a screen delta of zero
/// would mean the pointer could never leave this machine at all. When the
/// cursor is against the boundary and the device is still moving outward, fall
/// back to the device count on that axis.
///
/// A stationary cursor anywhere *else* means acceleration rounded a small
/// movement away to nothing, and sending the device count there is exactly the
/// race this function exists to stop. Send zero.
///
/// Each axis is decided on its own, so sliding along the top edge still tracks
/// the cursor horizontally while pushing off it vertically.
pub fn local_delta(
    prev: (i32, i32),
    now: (i32, i32),
    device: (i32, i32),
    bounds: Bounds,
) -> (r: (i32, i32))
    requires
        fits(now.0 - prev.0),
        fits(now.1 - prev.1),
    ensures
        (r.0 as int, r.1 as int) == advance_by(prev, now, device, bounds),
{
    let (dx, dy): (i64, i64) = wide_delta(prev, now, device, bounds);
    (dx as i32, dy as i32)
}

/// A cursor that moves is followed exactly, whatever the device counted.
pub proof fn law_motion_follows_the_visible_cursor(
    prev: (i32, i32),
    now: (i32, i32),
    device: (i32, i32),
    bounds: Bounds,
)
    ensures
        now.0 != prev.0 ==> advance_by(prev, now, device, bounds).0 == now.0 - prev.0,
        now.1 != prev.1 ==> advance_by(prev, now, device, bounds).1 == now.1 - prev.1,
{
}

/// A cursor that stands still away from the edges, or at one but pushed
/// inward, reports nothing; one that is pushed outward at an edge reports the
/// device, so the pointer can always leave.
pub proof fn law_a_still_cursor_moves_only_past_an_edge(
    at: (i32, i32),
    device: (i32, i32),
    bounds: Bounds,
)
    ensures
        device.0 < 0 && at.0 == bounds.x || device.0 > 0 && at.0 == bounds.x + bounds.width - 1
            ==> advance_by(at, at, device, bounds).0 == device.0,
        device.1 < 0 && at.1 == bounds.y || device.1 > 0 && at.1 == bounds.y + bounds.height - 1
            ==> advance_by(at, at, device, bounds).1 == device.1,
        bounds.x + 1 < at.0 < bounds.x + bounds.width - 2 ==> advance_by(at, at, device, bounds).0
            == 0,
        bounds.y + 1 < at.1 < bounds.y + bounds.height - 2 ==> advance_by(at, at, device, bounds).1
            == 0,
        device.0 >= 0 && at.0 < bounds.x + bounds.width - 2 ==> advance_by(
            at,
            at,
            device,
            bounds,
        ).0 == 0,
        device.1 >= 0 && at.1 < bounds.y + bounds.height - 2 ==> advance_by(
            at,
            at,
            device,
            bounds,
        ).1 == 0,
        device == (0i32, 0i32) ==> advance_by(at, at, device, bounds) == (0int, 0int),
{
}

/// Everything there is to one axis: a cursor that moved is followed; one that
/// stands within a point of an end, or beyond it, follows the device outwards;
/// any other stays. The axes do not touch each other.
pub proof fn law_how_far_an_axis_advances(
    prev: (i32, i32),
    now: (i32, i32),
    device: (i32, i32),
    bounds: Bounds,
)
    ensures
        ({
            let (dx, dy) = advance_by(prev, now, device, bounds);
            let past_left = now.0 <= bounds.x + 1 && device.0 < 0;
            let past_right = now.0 >= bounds.x + bounds.width - 2 && device.0 > 0;
            let past_top = now.1 <= bounds.y + 1 && device.1 < 0;
            let past_bottom = now.1 >= bounds.y + bounds.height - 2 && device.1 > 0;
            &&& now.0 != prev.0 ==> dx == now.0 - prev.0
            &&& now.0 == prev.0 && (past_left || past_right) ==> dx == device.0
            &&& now.0 == prev.0 && !past_left && !past_right ==> dx == 0
            &&& now.1 != prev.1 ==> dy == now.1 - prev.1
            &&& now.1 == prev.1 && (past_top || past_bottom) ==> dy == device.1
            &&& now.1 == prev.1 && !past_top && !past_bottom ==> dy == 0
        }),
{
}

} // verus!
