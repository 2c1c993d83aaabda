//! What becomes of one local input event.
//!
//! While the pointer is on this machine we send how far the *visible cursor*
//! moved; while it is on another machine we send raw device counts.

use vstd::prelude::*;

use crate::capture::keymap::{hid_usage, is_usage_of};
use crate::capture::{advance_by, wide_delta, Bounds};
use crate::proto::button;
use crate::proto::key::KeyState;
use crate::proto::modifier;
use crate::proto::mouse::MouseState;
use crate::proto::profile::clamp16;
use crate::transport::coalesce::clamp8;

verus! {

/// The event types of the system, as raw numbers.
pub const LEFT_MOUSE_DOWN: u32 = 1;

pub const LEFT_MOUSE_UP: u32 = 2;

pub const RIGHT_MOUSE_DOWN: u32 = 3;

pub const RIGHT_MOUSE_UP: u32 = 4;

pub const MOUSE_MOVED: u32 = 5;

pub const LEFT_MOUSE_DRAGGED: u32 = 6;

pub const RIGHT_MOUSE_DRAGGED: u32 = 7;

pub const KEY_DOWN: u32 = 10;

pub const KEY_UP: u32 = 11;

/// Modifier presses arrive as this, not as a key going down.
pub const FLAGS_CHANGED: u32 = 12;

pub const SCROLL_WHEEL: u32 = 22;

pub const OTHER_MOUSE_DOWN: u32 = 25;

pub const OTHER_MOUSE_UP: u32 = 26;

pub const OTHER_MOUSE_DRAGGED: u32 = 27;

/// Trackpad gestures: gesture, magnify, swipe, rotate, begin and end (which
/// current systems reuse as pressure, and which is what force-click arrives
/// as), smart magnify. Contiguous, so they are treated as one range.
pub const GESTURE_FIRST: u32 = 29;

pub const GESTURE_LAST: u32 = 35;

/// The system disables a tap that responds too slowly. These arrive whatever
/// the mask says.
pub const TAP_DISABLED_BY_TIMEOUT: u32 = 0xFFFF_FFFE;

pub const TAP_DISABLED_BY_USER_INPUT: u32 = 0xFFFF_FFFF;

/// Modifier flags of an event.
pub const FLAG_SHIFT: u64 = 0x0002_0000;

pub const FLAG_CONTROL: u64 = 0x0004_0000;

pub const FLAG_ALTERNATE: u64 = 0x0008_0000;

pub const FLAG_COMMAND: u64 = 0x0010_0000;

/// The event types that the tap asks for.
pub open spec fn is_wanted(etype: u64) -> bool {
    ||| 1 <= etype <= 7
    ||| 10 <= etype <= 12
    ||| etype == 22
    ||| 25 <= etype <= 27
    ||| GESTURE_FIRST <= etype <= GESTURE_LAST
}

/// The mask of everything that the tap asks for.
///
/// Gestures are in it as a range: the point is that every type in it arrives so
/// it can be swallowed, not that anything different is done with each.
pub fn event_mask() -> (mask: u64)
    ensures
        forall|t: u64| t < 64 ==> ((#[trigger] (mask >> t)) & 1 == 1 <==> is_wanted(t)),
{
    let mask: u64 = 0x0000_000F_EE40_1CFE;
    assert forall|t: u64| t < 64 implies ((#[trigger] (mask >> t)) & 1 == 1 <==> is_wanted(t)) by {
        assert((0x0000_000F_EE40_1CFEu64 >> t) & 1 == 1 <==> (1 <= t && t <= 7) || (10 <= t && t
            <= 12) || t == 22 || (25 <= t && t <= 27) || (29 <= t && t <= 35)) by (bit_vector)
            requires
                t < 64,
        ;
    }
    mask
}

/// One input event of the system, as plain values. Which of them mean anything
/// depends on the type.
#[derive(Debug, Clone, Copy, PartialEq, Eq, Structural)]
pub struct TapEvent {
    pub etype: u32,
    /// Virtual keycode of a key event.
    pub keycode: i64,
    /// Modifier flags.
    pub flags: u64,
    /// Which button, for those that are neither left nor right.
    pub button_number: i64,
    /// Device counts.
    pub delta_x: i64,
    pub delta_y: i64,
    /// Scroll lines along both axes.
    pub scroll: i64,
    pub pan: i64,
    /// Where the cursor is.
    pub x: i32,
    pub y: i32,
}

/// What capture remembers between events.
#[derive(Debug, Clone, Copy)]
pub struct TapState {
    /// Node currently holding the pointer, as last announced by the dongle. 0
    /// is this machine. The only record of where the pointer is.
    pub focus: u8,
    /// Where the local cursor is parked while input belongs to another machine:
    /// wherever it was at handoff, not the middle of the display.
    pub park: (i32, i32),
    /// Where the cursor was at the previous local event. Both the park position
    /// and the screen-space motion delta are measured from here.
    pub last: (i32, i32),
    /// The main display's rectangle, which the cursor is considered pinned
    /// against.
    pub bounds: Bounds,
    /// Held buttons.
    pub buttons: u8,
    /// Keys currently held, as HID usage codes. The whole set is reported every
    /// time: a report naming only the newest key would release everything else
    /// the moment a second key went down.
    pub held: [u8; 6],
}

/// What goes to the dongle.
#[derive(Debug, Clone, Copy, PartialEq, Eq)]
pub enum Outgoing {
    Nothing,
    Key(KeyState),
    Mouse(MouseState),
}

/// What is done about an event.
#[derive(Debug, Clone, Copy, PartialEq, Eq)]
pub struct Handled {
    /// Pass the event through to this machine, or swallow it.
    pub pass: bool,
    /// Pin the local cursor where it is parked.
    pub hold: bool,
    /// Enable the tap again.
    pub reenable: bool,
    pub send: Outgoing,
}

/// What a focus announcement asks for.
#[derive(Debug, Clone, Copy, PartialEq, Eq, Structural)]
pub enum FocusChange {
    /// A repeat.
    Unchanged,
    /// From one remote machine to another: the cursor is parked and hidden
    /// already.
    Moved,
    /// The pointer left: decouple and hide the cursor.
    Left,
    /// The pointer came home: couple and show the cursor, and look at the
    /// display again.
    Returned,
}

/// The first place from `i` on that holds `key`; six where none does.
pub open spec fn slot_from(held: Seq<u8>, key: u8, i: int) -> int
    decreases 6 - i,
{
    if i >= 6 || held[i] == key {
        i
    } else {
        slot_from(held, key, i + 1)
    }
}

/// A key going down: taken into a free slot, unless it is down already or six
/// are. A seventh is dropped rather than evicting a key that is genuinely held.
/// A key coming up: its slot is freed.
pub open spec fn keys_after(held: Seq<u8>, usage: u8, pressed: bool) -> Option<Seq<u8>> {
    if pressed {
        if slot_from(held, usage, 0) < 6 || slot_from(held, 0, 0) >= 6 {
            None
        } else {
            Some(held.update(slot_from(held, 0, 0), usage))
        }
    } else if slot_from(held, usage, 0) < 6 {
        Some(held.update(slot_from(held, usage, 0), 0))
    } else {
        None
    }
}

fn find_slot(held: &[u8; 6], key: u8) -> (r: usize)
    ensures
        r == slot_from(held@, key, 0),
        r <= 6,
{
    let mut i: usize = 0;
    while i < 6 && held[i] != key
        invariant
            i <= 6,
            slot_from(held@, key, 0) == slot_from(held@, key, i as int),
        decreases 6 - i,
    {
        i = i + 1;
    }
    i
}

/// Record a key going down or coming up. Returns false if nothing changed, so
/// autorepeat does not flood the link with identical reports.
pub fn track_key(held: &mut [u8; 6], usage: u8, pressed: bool) -> (r: bool)
    ensures
        match keys_after(old(held)@, usage, pressed) {
            Some(now) => r && final(held)@ == now,
            None => !r && final(held)@ == old(held)@,
        },
{
    let at: usize = find_slot(held, usage);
    if pressed {
        if at < 6 {
            return false;
        }
        let free: usize = find_slot(held, 0);
        if free < 6 {
            held[free] = usage;
            return true;
        }
        false
    } else if at < 6 {
        held[at] = 0;
        true
    } else {
        false
    }
}

/// The HID modifier byte for an event's flags. The flags do not distinguish
/// left from right, so everything maps to the left variant, which targets treat
/// identically for shortcuts.
pub open spec fn modifiers_of(flags: u64) -> u8 {
    (if flags & FLAG_SHIFT != 0 {
        modifier::LSHIFT
    } else {
        0
    }) | (if flags & FLAG_CONTROL != 0 {
        modifier::LCTRL
    } else {
        0
    }) | (if flags & FLAG_ALTERNATE != 0 {
        modifier::LALT
    } else {
        0
    }) | (if flags & FLAG_COMMAND != 0 {
        modifier::LGUI
    } else {
        0
    })
}

/// Translate modifier flags into the HID modifier byte.
pub fn modifiers_from(flags: u64) -> (r: u8)
    ensures
        r == modifiers_of(flags),
{
    let shift: u8 = if flags & FLAG_SHIFT != 0 {
        modifier::LSHIFT
    } else {
        0
    };
    let control: u8 = if flags & FLAG_CONTROL != 0 {
        modifier::LCTRL
    } else {
        0
    };
    let alternate: u8 = if flags & FLAG_ALTERNATE != 0 {
        modifier::LALT
    } else {
        0
    };
    let command: u8 = if flags & FLAG_COMMAND != 0 {
        modifier::LGUI
    } else {
        0
    };
    shift | control | alternate | command
}

/// The button that an event is about.
pub open spec fn button_of(etype: u32, number: i64) -> Option<u8> {
    if etype == LEFT_MOUSE_DOWN || etype == LEFT_MOUSE_UP {
        Some(button::LEFT)
    } else if etype == RIGHT_MOUSE_DOWN || etype == RIGHT_MOUSE_UP {
        Some(button::RIGHT)
    } else if etype == OTHER_MOUSE_DOWN || etype == OTHER_MOUSE_UP {
        if number == 2 {
            Some(button::MIDDLE)
        } else if number == 3 {
            Some(button::BACK)
        } else if number == 4 {
            Some(button::FORWARD)
        } else {
            None
        }
    } else {
        None
    }
}

/// The event is a button going down.
pub open spec fn presses(etype: u32) -> bool {
    etype == LEFT_MOUSE_DOWN || etype == RIGHT_MOUSE_DOWN || etype == OTHER_MOUSE_DOWN
}

/// The event comes from the keyboard.
pub open spec fn is_key_event(etype: u32) -> bool {
    etype == KEY_DOWN || etype == KEY_UP || etype == FLAGS_CHANGED
}

/// The event is a trackpad gesture.
pub open spec fn is_gesture(etype: u32) -> bool {
    GESTURE_FIRST <= etype <= GESTURE_LAST
}

/// The event says that the system disabled the tap.
pub open spec fn is_disabled(etype: u32) -> bool {
    etype == TAP_DISABLED_BY_TIMEOUT || etype == TAP_DISABLED_BY_USER_INPUT
}

fn button_bit(etype: u32, number: i64) -> (r: Option<u8>)
    ensures
        r == button_of(etype, number),
{
    if etype == LEFT_MOUSE_DOWN || etype == LEFT_MOUSE_UP {
        Some(button::LEFT)
    } else if etype == RIGHT_MOUSE_DOWN || etype == RIGHT_MOUSE_UP {
        Some(button::RIGHT)
    } else if etype == OTHER_MOUSE_DOWN || etype == OTHER_MOUSE_UP {
        if number == 2 {
            Some(button::MIDDLE)
        } else if number == 3 {
            Some(button::BACK)
        } else if number == 4 {
            Some(button::FORWARD)
        } else {
            None
        }
    } else {
        None
    }
}

fn is_press(etype: u32) -> (r: bool)
    ensures
        r == presses(etype),
{
    etype == LEFT_MOUSE_DOWN || etype == RIGHT_MOUSE_DOWN || etype == OTHER_MOUSE_DOWN
}

fn clamp_i8(v: i64) -> (r: i8)
    ensures
        r == clamp8(v as int),
{
    if v < -128 {
        -128
    } else if v > 127 {
        127
    } else {
        v as i8
    }
}

fn clamp_i16(v: i64) -> (r: i16)
    ensures
        r == clamp16(v as int),
{
    if v < -32768 {
        -32768
    } else if v > 32767 {
        32767
    } else {
        v as i16
    }
}

impl TapState {
    /// The pointer belongs to another machine.
    pub open spec fn is_away(self) -> bool {
        self.focus != 0
    }

    /// The held keys after a keyboard event while the pointer is away; none
    /// where nothing worth sending changed.
    pub open spec fn keys_for(self, ev: TapEvent) -> Option<Seq<u8>> {
        if ev.etype == FLAGS_CHANGED {
            Some(self.held@)
        } else if exists|u: u8| is_usage_of(u, ev.keycode) {
            let u = choose|u: u8| is_usage_of(u, ev.keycode);
            keys_after(self.held@, u, ev.etype == KEY_DOWN)
        } else {
            None
        }
    }

    /// How far a pointer event advances the pointer.
    pub open spec fn motion_for(self, ev: TapEvent) -> (int, int) {
        let device = (clamp16(ev.delta_x as int) as i32, clamp16(ev.delta_y as int) as i32);
        if self.is_away() {
            (device.0 as int, device.1 as int)
        } else {
            advance_by(self.last, (ev.x, ev.y), device, self.bounds)
        }
    }

    /// The held buttons after a pointer event.
    pub open spec fn buttons_for(self, ev: TapEvent) -> u8 {
        match button_of(ev.etype, ev.button_number) {
            Some(bit) => if presses(ev.etype) {
                self.buttons | bit
            } else {
                self.buttons & !bit
            },
            None => self.buttons,
        }
    }

    /// The update that a scroll or pointer event sends.
    pub open spec fn update_for(self, ev: TapEvent) -> MouseState {
        if ev.etype == SCROLL_WHEEL {
            MouseState {
                buttons: self.buttons,
                dx: 0,
                dy: 0,
                wheel: clamp8(ev.scroll as int),
                pan: clamp8(ev.pan as int),
            }
        } else {
            MouseState {
                buttons: self.buttons_for(ev),
                dx: clamp16(self.motion_for(ev).0),
                dy: clamp16(self.motion_for(ev).1),
                wheel: 0,
                pan: 0,
            }
        }
    }

    /// The state once an event was handled, and what was done about it.
    pub open spec fn handles(self, ev: TapEvent, after: TapState, done: Handled) -> bool {
        let away = self.is_away();
        if is_disabled(ev.etype) {
            &&& after == self
            &&& done == (Handled {
                pass: true,
                hold: false,
                reenable: true,
                send: Outgoing::Nothing,
            })
        } else if is_key_event(ev.etype) {
            &&& done.pass == !away
            &&& done.hold == away
            &&& !done.reenable
            &&& after == (TapState { held: after.held, ..self })
            &&& if !away {
                after.held@ == seq![0u8, 0, 0, 0, 0, 0] && done.send == Outgoing::Nothing
            } else {
                match self.keys_for(ev) {
                    Some(keys) => {
                        &&& after.held@ == keys
                        &&& done.send == Outgoing::Key(
                            KeyState { modifiers: modifiers_of(ev.flags), keys: after.held },
                        )
                    },
                    None => after.held@ == self.held@ && done.send == Outgoing::Nothing,
                }
            }
        } else {
            &&& done == (Handled {
                pass: !away,
                hold: away,
                reenable: false,
                send: if is_gesture(ev.etype) {
                    Outgoing::Nothing
                } else {
                    Outgoing::Mouse(self.update_for(ev))
                },
            })
            &&& after == if is_gesture(ev.etype) || ev.etype == SCROLL_WHEEL {
                self
            } else {
                TapState {
                    last: if away {
                        self.last
                    } else {
                        (ev.x, ev.y)
                    },
                    buttons: self.buttons_for(ev),
                    ..self
                }
            }
        }
    }

    /// What an announcement asks for.
    pub open spec fn focus_change(self, node: u8) -> FocusChange {
        if node == self.focus {
            FocusChange::Unchanged
        } else if self.is_away() && node != 0 {
            FocusChange::Moved
        } else if node != 0 {
            FocusChange::Left
        } else {
            FocusChange::Returned
        }
    }

    /// The state after an announcement.
    pub open spec fn after_focus(self, node: u8) -> TapState {
        let change = self.focus_change(node);
        TapState {
            focus: node,
            park: if change == FocusChange::Left {
                self.last
            } else {
                self.park
            },
            last: if change == FocusChange::Returned {
                self.park
            } else {
                self.last
            },
            ..self
        }
    }

    /// Nothing held, the pointer at home, a display of one point.
    pub fn new() -> (r: Self)
        ensures
            r.focus == 0,
            r.buttons == 0,
            r.park == (0i32, 0i32),
            r.last == (0i32, 0i32),
            r.bounds == (Bounds { x: 0, y: 0, width: 1, height: 1 }),
            r.held@ == seq![0u8, 0, 0, 0, 0, 0],
    {
        let held: [u8; 6] = [0; 6];
        assert(held@ =~= seq![0u8, 0, 0, 0, 0, 0]);
        TapState {
            focus: 0,
            park: (0, 0),
            last: (0, 0),
            bounds: Bounds { x: 0, y: 0, width: 1, height: 1 },
            buttons: 0,
            held,
        }
    }

    /// True while the pointer belongs to another machine.
    pub fn is_remote(&self) -> (r: bool)
        ensures
            r == self.is_away(),
    {
        self.focus != 0
    }

    /// Take in the display's rectangle. It has at least one point.
    pub fn set_bounds(&mut self, x: i32, y: i32, width: i32, height: i32)
        ensures
            *final(self) == (TapState {
                bounds: Bounds {
                    x,
                    y,
                    width: if width < 1 {
                        1
                    } else {
                        width
                    },
                    height: if height < 1 {
                        1
                    } else {
                        height
                    },
                },
                ..*old(self)
            }),
    {
        self.bounds = Bounds {
            x,
            y,
            width: if width < 1 {
                1
            } else {
                width
            },
            height: if height < 1 {
                1
            } else {
                height
            },
        };
    }

    /// Apply a FOCUS announcement from the dongle.
    ///
    /// The firmware re-announces the current node periodically rather than only
    /// when it changes, so a lost announcement self-heals. Repeats are therefore
    /// the common case, and only a real change asks for anything.
    ///
    /// Leaving parks the cursor where it is, at the edge it left from. Coming
    /// home resumes from there: holding the cursor warps it, a warp generates
    /// motion of its own, and this way that motion can never reach the dongle.
    pub fn set_focus(&mut self, node: u8) -> (r: FocusChange)
        ensures
            *final(self) == old(self).after_focus(node),
            r == old(self).focus_change(node),
    {
        let previous: u8 = self.focus;
        self.focus = node;
        if previous == node {
            return FocusChange::Unchanged;
        }
        if previous != 0 && node != 0 {
            return FocusChange::Moved;
        }
        if node != 0 {
            self.park = self.last;
            FocusChange::Left
        } else {
            self.last = self.park;
            FocusChange::Returned
        }
    }

    /// Decide what becomes of an event.
    ///
    /// The invariant: exactly one machine consumes any given event. Passing one
    /// through locally while the dongle is routing it to a target is what makes
    /// two pointers move at once and clicks land in both places.
    pub fn handle(&mut self, ev: &TapEvent) -> (r: Handled)
        ensures
            old(self).handles(*ev, *final(self), r),
    {
        // The system silently stops delivering events to a tap it disabled
        // until it is enabled again.
        if ev.etype == TAP_DISABLED_BY_TIMEOUT || ev.etype == TAP_DISABLED_BY_USER_INPUT {
            return Handled { pass: true, hold: false, reenable: true, send: Outgoing::Nothing };
        }
        let remote: bool = self.is_remote();
        // The keyboard shares only the swallow decision with the pointer.
        if ev.etype == KEY_DOWN || ev.etype == KEY_UP || ev.etype == FLAGS_CHANGED {
            if !remote {
                // Forget anything we thought was held, so returning from a
                // remote screen does not leave a phantom key down there.
                self.held = [0; 6];
                assert(self.held@ =~= seq![0u8, 0, 0, 0, 0, 0]);
                return Handled {
                    pass: true,
                    hold: false,
                    reenable: false,
                    send: Outgoing::Nothing,
                };
            }
            let usage: Option<u8> = hid_usage(ev.keycode);
            let changed: bool = if ev.etype == FLAGS_CHANGED {
                true
            } else {
                match usage {
                    Some(u) => {
                        proof {
                            let v = choose|v: u8| is_usage_of(v, ev.keycode);
                            assert(is_usage_of(v, ev.keycode));
                            crate::capture::keymap::law_the_table_has_no_duplicates(
                                u,
                                v,
                                ev.keycode,
                                ev.keycode,
                            );
                        }
                        track_key(&mut self.held, u, ev.etype == KEY_DOWN)
                    },
                    None => false,
                }
            };
            let send: Outgoing = if changed {
                Outgoing::Key(KeyState { modifiers: modifiers_from(ev.flags), keys: self.held })
            } else {
                Outgoing::Nothing
            };
            assert(changed == (old(self).keys_for(*ev) is Some));
            assert(!changed ==> self.held@ == old(self).held@);
            return Handled { pass: false, hold: true, reenable: false, send };
        }
        // The dongle has no gesture channel, so there is nothing meaningful to
        // forward. Gestures are swallowed all the same: acting on this machine
        // while the user is looking at another one is the bug.
        if GESTURE_FIRST <= ev.etype && ev.etype <= GESTURE_LAST {
            return Handled {
                pass: !remote,
                hold: remote,
                reenable: false,
                send: Outgoing::Nothing,
            };
        }
        let mut dx: i16 = 0;
        let mut dy: i16 = 0;
        let mut wheel: i8 = 0;
        let mut pan: i8 = 0;
        if ev.etype == SCROLL_WHEEL {
            wheel = clamp_i8(ev.scroll);
            pan = clamp_i8(ev.pan);
        } else {
            let device: (i32, i32) = (clamp_i16(ev.delta_x) as i32, clamp_i16(ev.delta_y) as i32);
            let moved: (i64, i64) = if remote {
                // The cursor is pinned, so where it is says nothing about how
                // far the mouse moved. Device counts are all there is.
                (device.0 as i64, device.1 as i64)
            } else {
                let prev: (i32, i32) = self.last;
                self.last = (ev.x, ev.y);
                wide_delta(prev, (ev.x, ev.y), device, self.bounds)
            };
            dx = clamp_i16(moved.0);
            dy = clamp_i16(moved.1);
            match button_bit(ev.etype, ev.button_number) {
                Some(bit) => {
                    if is_press(ev.etype) {
                        self.buttons = self.buttons | bit;
                    } else {
                        self.buttons = self.buttons & !bit;
                    }
                },
                None => {},
            }
        }
        let state = MouseState { buttons: self.buttons, dx, dy, wheel, pan };
        Handled { pass: !remote, hold: remote, reenable: false, send: Outgoing::Mouse(state) }
    }
}

/// Exactly one machine consumes an event: this one while the pointer is here,
/// and while it is away nothing but word that the tap was disabled gets
/// through, the cursor is held, and where the pointer is does not change.
pub proof fn law_one_machine_consumes_an_event(
    s: TapState,
    ev: TapEvent,
    after: TapState,
    done: Handled,
)
    requires
        s.handles(ev, after, done),
        !is_disabled(ev.etype),
    ensures
        done.pass <==> !s.is_away(),
        done.hold <==> s.is_away(),
        after.focus == s.focus,
        after.park == s.park,
{
}

/// The cursor comes back where it left: whatever other machines the pointer
/// visits and whatever events arrive meanwhile keep the parking place, and
/// coming home measures motion from it.
pub proof fn law_the_cursor_returns_where_it_left(s: TapState, node: u8, other: u8)
    requires
        s.focus == 0,
        node != 0,
        other != 0,
    ensures
        s.after_focus(node).park == s.last,
        s.after_focus(node).after_focus(other).park == s.last,
        s.after_focus(node).after_focus(0).last == s.last,
        s.after_focus(node).after_focus(other).after_focus(0).last == s.last,
        forall|t: TapState, ev: TapEvent, after: TapState, done: Handled|
            #![trigger t.handles(ev, after, done)]
            t.handles(ev, after, done) && t.is_away() ==> after.park == t.park && after.last
                == t.last,
        s.after_focus(node).after_focus(node) == s.after_focus(node),
{
}

/// The keys in `held` are told apart: no usage stands in two slots.
pub open spec fn keys_are_distinct(held: Seq<u8>) -> bool {
    forall|i: int, j: int|
        #![trigger held[i], held[j]]
        0 <= i < j < 6 && held[i] != 0 ==> held[i] != held[j]
}

/// However keys go down and come up, no key is reported twice, a key that is
/// down is reported, one that came up is not, and no other key is touched.
pub proof fn law_held_keys_are_tracked(held: Seq<u8>, usage: u8, pressed: bool)
    requires
        held.len() == 6,
        usage != 0,
        keys_are_distinct(held),
    ensures
        keys_after(held, usage, pressed) matches Some(now) ==> {
            &&& now.len() == 6
            &&& keys_are_distinct(now)
            &&& now.contains(usage) == pressed
            &&& held.contains(usage) == !pressed
            &&& forall|k: u8| k != usage && k != 0 ==> (now.contains(k) <==> held.contains(k))
        },
        keys_after(held, usage, pressed) is None && pressed ==> held.contains(usage)
            || !held.contains(0),
        keys_after(held, usage, pressed) is None && !pressed ==> !held.contains(usage),
{
    lemma_slot_from(held, usage, 0);
    lemma_slot_from(held, 0, 0);
    match keys_after(held, usage, pressed) {
        Some(now) => {
            let at = if pressed {
                slot_from(held, 0, 0)
            } else {
                slot_from(held, usage, 0)
            };
            assert(now[at] == if pressed {
                usage
            } else {
                0
            });
            assert forall|k: u8| k != usage && k != 0 implies (now.contains(k) <==> held.contains(
                k,
            )) by {
                if now.contains(k) {
                    let i = choose|i: int| 0 <= i < 6 && now[i] == k;
                    assert(held[i] == k);
                }
                if held.contains(k) {
                    let i = choose|i: int| 0 <= i < 6 && held[i] == k;
                    assert(now[i] == k);
                }
            }
            if !pressed {
                assert(held[at] == usage);
                assert forall|i: int| 0 <= i < 6 implies now[i] != usage by {
                    if i < at {
                        assert(held[i] != usage);
                    } else if i > at {
                        assert(held[at] != held[i]);
                    }
                }
            }
        },
        None => {},
    }
}

proof fn lemma_slot_from(held: Seq<u8>, key: u8, i: int)
    requires
        held.len() == 6,
        0 <= i <= 6,
    ensures
        i <= slot_from(held, key, i) <= 6,
        slot_from(held, key, i) < 6 ==> held[slot_from(held, key, i)] == key,
        forall|k: int| i <= k < slot_from(held, key, i) ==> held[k] != key,
    decreases 6 - i,
{
    if i < 6 && held[i] != key {
        lemma_slot_from(held, key, i + 1);
    }
}

/// `r` is `v`, or the end of the 16-bit range that it lies beyond.
pub open spec fn held16(v: int, r: i16) -> bool {
    &&& -32768 <= v <= 32767 ==> r == v
    &&& v > 32767 ==> r == 32767
    &&& v < -32768 ==> r == -32768
}

/// `r` is `v`, or the end of the 8-bit range that it lies beyond.
pub open spec fn held8(v: int, r: i8) -> bool {
    &&& -128 <= v <= 127 ==> r == v
    &&& v > 127 ==> r == 127
    &&& v < -128 ==> r == -128
}

/// The event is of the pointer: of none of the types that say that the tap was
/// disabled, that come from the keyboard, that are gestures or that scroll.
pub open spec fn is_pointer_event(etype: u32) -> bool {
    &&& etype < 0xFFFF_FFFE
    &&& etype != 10 && etype != 11 && etype != 12
    &&& !(29 <= etype <= 35)
    &&& etype != 22
}

/// While the pointer is away, every pointer event sends the device's counts,
/// whatever buttons are held, and neither the wheel nor the pan turns.
pub proof fn law_device_counts_are_sent_while_away(
    s: TapState,
    ev: TapEvent,
    after: TapState,
    done: Handled,
)
    requires
        s.handles(ev, after, done),
        s.focus != 0,
        is_pointer_event(ev.etype),
    ensures
        done.send matches Outgoing::Mouse(m) && held16(ev.delta_x as int, m.dx) && held16(
            ev.delta_y as int,
            m.dy,
        ) && m.wheel == 0 && m.pan == 0 && m.buttons == after.buttons,
        after.last == s.last,
{
}

/// While the pointer is here, every pointer event sends how far the visible
/// cursor moved; where it did not move and stands at an end of the display, what
/// the device still pushes outwards; and otherwise nothing. The next event is
/// measured from where the cursor is now.
pub proof fn law_the_cursor_is_followed_while_here(
    s: TapState,
    ev: TapEvent,
    after: TapState,
    done: Handled,
)
    requires
        s.handles(ev, after, done),
        s.focus == 0,
        is_pointer_event(ev.etype),
    ensures
        after.last == (ev.x, ev.y),
        done.send matches Outgoing::Mouse(m) && {
            let b = s.bounds;
            let past_left = ev.x <= b.x + 1 && ev.delta_x < 0;
            let past_right = ev.x >= b.x + b.width - 2 && ev.delta_x > 0;
            let past_top = ev.y <= b.y + 1 && ev.delta_y < 0;
            let past_bottom = ev.y >= b.y + b.height - 2 && ev.delta_y > 0;
            &&& ev.x != s.last.0 ==> held16(ev.x - s.last.0, m.dx)
            &&& ev.x == s.last.0 && (past_left || past_right) ==> held16(ev.delta_x as int, m.dx)
            &&& ev.x == s.last.0 && !past_left && !past_right ==> m.dx == 0
            &&& ev.y != s.last.1 ==> held16(ev.y - s.last.1, m.dy)
            &&& ev.y == s.last.1 && (past_top || past_bottom) ==> held16(ev.delta_y as int, m.dy)
            &&& ev.y == s.last.1 && !past_top && !past_bottom ==> m.dy == 0
            &&& m.wheel == 0 && m.pan == 0 && m.buttons == after.buttons
        },
{
}

/// A button is held from the event that presses it until the one that lets go
/// of it, each kind of event touching its own button only. Wherever the pointer
/// is, nothing but such events changes what is held.
pub proof fn law_buttons_are_held_until_let_go(
    s: TapState,
    ev: TapEvent,
    after: TapState,
    done: Handled,
)
    requires
        s.handles(ev, after, done),
    ensures
        ({
            let (t, n) = (ev.etype, ev.button_number);
            let (was, is) = (s.buttons, after.buttons);
            &&& is & 1 != 0 <==> t == 1 || (t != 2 && was & 1 != 0)
            &&& is & 2 != 0 <==> t == 3 || (t != 4 && was & 2 != 0)
            &&& is & 4 != 0 <==> (t == 25 && n == 2) || (!(t == 26 && n == 2) && was & 4 != 0)
            &&& is & 8 != 0 <==> (t == 25 && n == 3) || (!(t == 26 && n == 3) && was & 8 != 0)
            &&& is & 16 != 0 <==> (t == 25 && n == 4) || (!(t == 26 && n == 4) && was & 16 != 0)
            &&& is & 0xE0 == was & 0xE0
        }),
{
    let was = s.buttons;
    assert((was | 1) & 1 != 0 && (was | 1) & 0xFE == was & 0xFE && (was & !1u8) & 1 == 0 && (was
        & !1u8) & 0xFE == was & 0xFE && (was | 2) & 2 != 0 && (was | 2) & 0xFD == was & 0xFD && (was
        & !2u8) & 2 == 0 && (was & !2u8) & 0xFD == was & 0xFD && (was | 4) & 4 != 0 && (was | 4)
        & 0xFB == was & 0xFB && (was & !4u8) & 4 == 0 && (was & !4u8) & 0xFB == was & 0xFB && (was
        | 8) & 8 != 0 && (was | 8) & 0xF7 == was & 0xF7 && (was & !8u8) & 8 == 0 && (was & !8u8)
        & 0xF7 == was & 0xF7 && (was | 16) & 16 != 0 && (was | 16) & 0xEF == was & 0xEF && (was
        & !16u8) & 16 == 0 && (was & !16u8) & 0xEF == was & 0xEF) by (bit_vector);
    let is = after.buttons;
    assert((is & 0xFE == was & 0xFE ==> is & 2 == was & 2 && is & 4 == was & 4 && is & 8 == was & 8
        && is & 16 == was & 16 && is & 0xE0 == was & 0xE0) && (is & 0xFD == was & 0xFD ==> is & 1
        == was & 1 && is & 4 == was & 4 && is & 8 == was & 8 && is & 16 == was & 16 && is & 0xE0
        == was & 0xE0) && (is & 0xFB == was & 0xFB ==> is & 1 == was & 1 && is & 2 == was & 2 && is
        & 8 == was & 8 && is & 16 == was & 16 && is & 0xE0 == was & 0xE0) && (is & 0xF7 == was & 0xF7
        ==> is & 1 == was & 1 && is & 2 == was & 2 && is & 4 == was & 4 && is & 16 == was & 16 && is
        & 0xE0 == was & 0xE0) && (is & 0xEF == was & 0xEF ==> is & 1 == was & 1 && is & 2 == was & 2
        && is & 4 == was & 4 && is & 8 == was & 8 && is & 0xE0 == was & 0xE0)) by (bit_vector);
}

/// Scrolling sends how far the wheel and the pan turned, each as far as eight
/// bits hold it, under the buttons that are held, and moves nothing. It is
/// remembered in no way.
pub proof fn law_scrolling_is_sent_as_it_is(
    s: TapState,
    ev: TapEvent,
    after: TapState,
    done: Handled,
)
    requires
        s.handles(ev, after, done),
        ev.etype == 22,
    ensures
        done.send matches Outgoing::Mouse(m) && held8(ev.scroll as int, m.wheel) && held8(
            ev.pan as int,
            m.pan,
        ) && m.dx == 0 && m.dy == 0 && m.buttons == s.buttons,
        after == s,
{
}

/// Word that the tap was disabled asks for it to be enabled again and changes
/// nothing else. A gesture sends nothing and changes nothing: it goes through
/// while the pointer is here and is swallowed while it is away.
pub proof fn law_what_is_never_sent(s: TapState, ev: TapEvent, after: TapState, done: Handled)
    requires
        s.handles(ev, after, done),
    ensures
        done.reenable <==> ev.etype >= 0xFFFF_FFFE,
        ev.etype >= 0xFFFF_FFFE ==> after == s && done.pass && !done.hold && done.send
            == Outgoing::Nothing,
        29 <= ev.etype <= 35 ==> after == s && done.send == Outgoing::Nothing,
        ev.etype < 0xFFFF_FFFE ==> done.pass == (s.focus == 0) && done.hold == (s.focus != 0),
{
}

/// While the pointer is away a key that goes down, or comes up, is sent with
/// everything else that is held and with the modifiers of its event. A press of
/// a modifier sends the same keys again. Where nothing changes nothing is sent,
/// and while the pointer is here nothing is held or sent.
pub proof fn law_keys_are_sent_while_away(
    s: TapState,
    ev: TapEvent,
    after: TapState,
    done: Handled,
    usage: u8,
)
    requires
        s.handles(ev, after, done),
        ev.etype == 10 || ev.etype == 11 || ev.etype == 12,
        keys_are_distinct(s.held@),
    ensures
        s.focus == 0 ==> done.send == Outgoing::Nothing && after.held@ == seq![0u8, 0, 0, 0, 0, 0],
        s.focus != 0 ==> {
            &&& done.send matches Outgoing::Key(k) ==> k.keys == after.held && k.modifiers
                == modifiers_of(ev.flags)
            &&& done.send is Key || done.send == Outgoing::Nothing
            &&& ev.etype == 12 ==> done.send is Key && after.held@ == s.held@
            &&& ev.etype != 12 && is_usage_of(usage, ev.keycode) ==> {
                &&& done.send is Key <==> after.held@ != s.held@
                &&& ev.etype == 11 ==> !after.held@.contains(usage)
                &&& ev.etype == 10 && (s.held@.contains(usage) || s.held@.contains(0))
                    ==> after.held@.contains(usage)
                &&& ev.etype == 10 && !s.held@.contains(usage) && !s.held@.contains(0)
                    ==> after.held@ == s.held@
                &&& forall|k: u8|
                    k != usage && k != 0 ==> (after.held@.contains(k) <==> s.held@.contains(k))
            }
            &&& ev.etype != 12 && !(exists|u: u8| is_usage_of(u, ev.keycode)) ==> done.send
                == Outgoing::Nothing && after.held@ == s.held@
        },
        after.buttons == s.buttons && after.last == s.last && after.bounds == s.bounds,
{
    if s.focus != 0 && ev.etype != 12 && is_usage_of(usage, ev.keycode) {
        let u = choose|u: u8| is_usage_of(u, ev.keycode);
        crate::capture::keymap::law_the_table_has_no_duplicates(u, usage, ev.keycode, ev.keycode);
        law_held_keys_are_tracked(s.held@, usage, ev.etype == 10);
        lemma_slot_from(s.held@, usage, 0);
        lemma_slot_from(s.held@, 0, 0);
        let free = slot_from(s.held@, 0, 0);
        assert(free < 6 ==> s.held@.contains(s.held@[free]));
        match keys_after(s.held@, usage, ev.etype == 10) {
            Some(now) => {
                assert(now.contains(usage) != s.held@.contains(usage));
            },
            None => {},
        }
    }
}

/// Each of the four modifier flags of an event holds the left modifier that goes
/// by it: Shift, Control, Alt and Command. No other flag holds any.
pub proof fn law_flags_hold_their_modifier(flags: u64)
    ensures
        modifiers_of(flags) & 1 != 0 <==> flags & 0x40000 != 0,
        modifiers_of(flags) & 2 != 0 <==> flags & 0x20000 != 0,
        modifiers_of(flags) & 4 != 0 <==> flags & 0x80000 != 0,
        modifiers_of(flags) & 8 != 0 <==> flags & 0x100000 != 0,
        modifiers_of(flags) < 16,
{
    let (a, b, c, d) = (
        flags & 0x20000 != 0,
        flags & 0x40000 != 0,
        flags & 0x80000 != 0,
        flags & 0x100000 != 0,
    );
    assert({
        let m = (if a { 2u8 } else { 0 }) | (if b { 1u8 } else { 0 }) | (if c { 4u8 } else { 0 })
            | (if d { 8u8 } else { 0 });
        &&& (m & 1 != 0 <==> b)
        &&& (m & 2 != 0 <==> a)
        &&& (m & 4 != 0 <==> c)
        &&& (m & 8 != 0 <==> d)
        &&& m < 16
    }) by (bit_vector);
}

/// What an announcement changes: the pointer is where it says; leaving parks the
/// cursor where it was last, and coming home resumes from there. A repeat
/// changes nothing. What is asked for is told by where the pointer was and is.
pub proof fn law_what_an_announcement_changes(s: TapState, node: u8)
    ensures
        ({
            let after = s.after_focus(node);
            let asks = s.focus_change(node);
            &&& after.focus == node
            &&& after.bounds == s.bounds && after.buttons == s.buttons && after.held == s.held
            &&& asks == FocusChange::Unchanged <==> node == s.focus
            &&& asks == FocusChange::Moved <==> node != s.focus && node != 0 && s.focus != 0
            &&& asks == FocusChange::Left <==> s.focus == 0 && node != 0
            &&& asks == FocusChange::Returned <==> s.focus != 0 && node == 0
            &&& s.focus == 0 && node != 0 ==> after.park == s.last && after.last == s.last
            &&& s.focus != 0 && node == 0 ==> after.last == s.park && after.park == s.park
            &&& (s.focus == 0) == (node == 0) ==> after.park == s.park && after.last == s.last
        }),
{
}

/// The tap asks for the events of the mouse and its buttons, of the keyboard, of
/// the wheel and for gestures.
pub proof fn law_what_the_tap_asks_for(etype: u64)
    ensures
        is_wanted(etype) <==> (1 <= etype <= 7) || (10 <= etype <= 12) || etype == 22 || (25 <= etype
            <= 27) || (29 <= etype <= 35),
{
}

/// A key that goes down takes the first slot that is free, one that comes up
/// frees the slot that it has, and no other slot changes. What is down already,
/// or is not down, changes nothing, and neither does a seventh key.
pub proof fn law_keys_keep_their_slots(held: Seq<u8>, usage: u8, pressed: bool, i: int, j: int)
    requires
        held.len() == 6,
        0 <= i < 6,
        0 <= j < 6,
        usage != 0,
    ensures
        pressed && !held.contains(usage) && held[i] == 0 && (forall|k: int|
            0 <= k < i ==> held[k] != 0) ==> keys_after(held, usage, pressed) == Some(
            held.update(i, usage),
        ),
        pressed && held.contains(usage) ==> keys_after(held, usage, pressed) is None,
        pressed && !held.contains(0) ==> keys_after(held, usage, pressed) is None,
        !pressed && held[i] == usage && (forall|k: int| 0 <= k < i ==> held[k] != usage)
            ==> keys_after(held, usage, pressed) == Some(held.update(i, 0)),
        !pressed && !held.contains(usage) ==> keys_after(held, usage, pressed) is None,
        keys_after(held, usage, pressed) matches Some(now) ==> (now[j] == held[j] || (pressed
            && held[j] == 0 && now[j] == usage) || (!pressed && held[j] == usage && now[j] == 0)),
{
    lemma_slot_from(held, usage, 0);
    lemma_slot_from(held, 0, 0);
    let (at, free) = (slot_from(held, usage, 0), slot_from(held, 0, 0));
    if at < 6 {
        assert(held.contains(held[at]));
    }
    if free < 6 {
        assert(held.contains(held[free]));
    }
    if held.contains(usage) {
        let k = choose|k: int| 0 <= k < 6 && held[k] == usage;
        assert(at <= k);
    }
    if held.contains(0) {
        let k = choose|k: int| 0 <= k < 6 && held[k] == 0;
        assert(free <= k);
    }
}

} // verus!
