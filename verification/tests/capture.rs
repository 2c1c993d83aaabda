//! Capturing local input.

use scurry::capture::reader::{on_read, ReadAction, ReadEvent, ReaderState};
use scurry::capture::tap::{self, track_key, FocusChange, Outgoing, TapEvent, TapState};
use scurry::capture::{local_delta, Bounds};
use scurry::ipc::DaemonState;
use scurry::proto::{kind, KeyState, MouseState};
use scurry::transport::Message;

/// A 1512x982 Mac display at the origin, matching the local screen in the
/// shipped layout.
const MAC: Bounds = Bounds {
    x: 0,
    y: 0,
    width: 1512,
    height: 982,
};

#[test]
fn mid_screen_motion_follows_the_visible_cursor() {
    // 40 device counts that moved the cursor 20 points must advance the
    // dongle's model by 20, or it reaches the edge twice as fast as the
    // cursor does -- the pointer jumping to the next machine while the
    // cursor is still mid-screen.
    assert_eq!(local_delta((700, 500), (720, 500), (40, 0), MAC), (20, 0));
}

#[test]
fn a_cursor_pinned_at_the_edge_still_hands_off() {
    // The cursor cannot move past x=1511, so the screen delta is zero
    // forever. Without the device-count fallback the pointer could never
    // leave this machine.
    assert_eq!(local_delta((1511, 500), (1511, 500), (30, 0), MAC), (30, 0));
    assert_eq!(local_delta((0, 500), (0, 500), (-30, 0), MAC), (-30, 0));
    assert_eq!(local_delta((700, 0), (700, 0), (0, -30), MAC), (0, -30));
    assert_eq!(local_delta((700, 981), (700, 981), (0, 30), MAC), (0, 30));

    // And a point short of it, since where exactly macOS stops the cursor
    // is not worth betting handoff on.
    assert_eq!(local_delta((1510, 500), (1510, 500), (30, 0), MAC), (30, 0));
}

#[test]
fn being_at_an_edge_while_moving_inward_is_not_pinned() {
    // Sitting on the left edge and pushing right is ordinary motion. Taking
    // the device count here would over-report every movement that starts
    // from a screen edge.
    assert_eq!(local_delta((0, 500), (0, 500), (12, 0), MAC), (0, 0));
}

#[test]
fn acceleration_rounding_away_a_tiny_move_sends_nothing() {
    // A slow nudge the OS rounded to no cursor movement. Sending the device
    // count would let a series of them walk the model off the screen while
    // the cursor had not moved at all.
    assert_eq!(local_delta((700, 500), (700, 500), (1, 1), MAC), (0, 0));
}

#[test]
fn axes_are_decided_independently() {
    // Sliding along the top edge: y is pinned and pushing up, x is moving
    // normally. Each axis must pick its own source.
    assert_eq!(local_delta((700, 0), (740, 0), (90, -20), MAC), (40, -20));
}

#[test]
fn a_stationary_mouse_reports_nothing() {
    assert_eq!(local_delta((1511, 981), (1511, 981), (0, 0), MAC), (0, 0));
}

#[test]
fn deceleration_is_reported_too() {
    // The other half of acceleration: a fast flick moves the cursor further
    // than the device counts. The cursor is what the user sees, so it wins.
    assert_eq!(local_delta((100, 500), (400, 500), (150, 0), MAC), (300, 0));
}

fn event(etype: u32) -> TapEvent {
    TapEvent {
        etype,
        keycode: 0,
        flags: 0,
        button_number: 0,
        delta_x: 0,
        delta_y: 0,
        scroll: 0,
        pan: 0,
        x: 100,
        y: 100,
    }
}

fn tap() -> TapState {
    let mut t = TapState::new();
    t.set_bounds(0, 0, 1512, 982);
    t.last = (100, 100);
    t
}

#[test]
fn exactly_one_machine_consumes_an_event() {
    for etype in [1, 2, 3, 4, 5, 6, 7, 10, 11, 12, 22, 25, 26, 27, 29, 32, 35] {
        let mut home = tap();
        let h = home.handle(&event(etype));
        assert!(h.pass && !h.hold && !h.reenable, "type {etype}");
        let mut away = tap();
        away.set_focus(2);
        let h = away.handle(&event(etype));
        assert!(!h.pass && h.hold && !h.reenable, "type {etype}");
    }
}

#[test]
fn a_disabled_tap_is_enabled_again() {
    for etype in [tap::TAP_DISABLED_BY_TIMEOUT, tap::TAP_DISABLED_BY_USER_INPUT] {
        let mut t = tap();
        t.set_focus(1);
        let h = t.handle(&event(etype));
        assert!(h.pass && h.reenable && !h.hold);
        assert_eq!(h.send, Outgoing::Nothing);
    }
}

#[test]
fn keys_are_sent_only_while_away_and_never_twice() {
    let mut t = tap();
    let mut down = event(tap::KEY_DOWN);
    down.flags = tap::FLAG_SHIFT | tap::FLAG_COMMAND;
    assert_eq!(t.handle(&down).send, Outgoing::Nothing, "typing here stays here");
    t.set_focus(1);
    let want = KeyState { modifiers: 0x0a, keys: [4, 0, 0, 0, 0, 0] };
    assert_eq!(t.handle(&down).send, Outgoing::Key(want));
    assert_eq!(t.handle(&down).send, Outgoing::Nothing, "autorepeat");
    let mut up = event(tap::KEY_UP);
    up.keycode = 0x0B;
    assert_eq!(t.handle(&up).send, Outgoing::Nothing, "B was never down");
    up.keycode = 0;
    assert_eq!(t.handle(&up).send, Outgoing::Key(KeyState { modifiers: 0, keys: [0; 6] }));
    let mut flags = event(tap::FLAGS_CHANGED);
    flags.flags = tap::FLAG_CONTROL | tap::FLAG_ALTERNATE;
    assert_eq!(t.handle(&flags).send, Outgoing::Key(KeyState { modifiers: 5, keys: [0; 6] }));
    let mut unknown = event(tap::KEY_DOWN);
    unknown.keycode = 0x7F;
    assert_eq!(t.handle(&unknown).send, Outgoing::Nothing);
}

#[test]
fn a_seventh_key_is_dropped_and_coming_home_forgets_the_rest() {
    let mut held = [0u8; 6];
    for k in 4..10 {
        assert!(track_key(&mut held, k, true));
    }
    assert!(!track_key(&mut held, 10, true));
    assert_eq!(held, [4, 5, 6, 7, 8, 9]);
    assert!(track_key(&mut held, 6, false));
    assert!(track_key(&mut held, 10, true));
    assert_eq!(held, [4, 5, 10, 7, 8, 9]);
    let mut t = tap();
    t.held = held;
    t.handle(&event(tap::KEY_DOWN));
    assert_eq!(t.held, [0; 6]);
}

#[test]
fn motion_follows_the_cursor_here_and_the_device_away() {
    let mut t = tap();
    let mut mv = event(tap::MOUSE_MOVED);
    (mv.delta_x, mv.delta_y, mv.x, mv.y) = (40, 0, 120, 100);
    let sent = |h: Outgoing| match h {
        Outgoing::Mouse(m) => (m.dx, m.dy),
        other => panic!("expected motion, got {other:?}"),
    };
    assert_eq!(sent(t.handle(&mv).send), (20, 0));
    assert_eq!(t.last, (120, 100));
    t.set_focus(3);
    (mv.delta_x, mv.delta_y) = (1 << 40, -(1 << 40));
    assert_eq!(sent(t.handle(&mv).send), (i16::MAX, i16::MIN));
    assert_eq!(t.last, (120, 100), "where the pinned cursor is says nothing");
}

#[test]
fn buttons_are_absolute() {
    let mut t = tap();
    let sent = |h: Outgoing| match h {
        Outgoing::Mouse(m) => m.buttons,
        other => panic!("expected an update, got {other:?}"),
    };
    assert_eq!(sent(t.handle(&event(tap::LEFT_MOUSE_DOWN)).send), 1);
    for (number, bit) in [(2, 4), (3, 8), (4, 16), (5, 0)] {
        let mut other = event(tap::OTHER_MOUSE_DOWN);
        other.button_number = number;
        assert_eq!(sent(t.handle(&other).send), 1 | bit);
        other.etype = tap::OTHER_MOUSE_UP;
        assert_eq!(sent(t.handle(&other).send), 1);
    }
    assert_eq!(sent(t.handle(&event(tap::RIGHT_MOUSE_DOWN)).send), 3);
    assert_eq!(sent(t.handle(&event(tap::LEFT_MOUSE_UP)).send), 2);
    let mut wheel = event(tap::SCROLL_WHEEL);
    (wheel.scroll, wheel.pan) = (-500, 3);
    let want = MouseState { buttons: 2, dx: 0, dy: 0, wheel: -128, pan: 3 };
    assert_eq!(t.handle(&wheel).send, Outgoing::Mouse(want));
}

#[test]
fn the_cursor_comes_back_where_it_left() {
    let mut t = tap();
    t.last = (1511, 400);
    assert_eq!(t.set_focus(0), FocusChange::Unchanged);
    assert_eq!(t.set_focus(1), FocusChange::Left);
    assert_eq!(t.park, (1511, 400));
    assert_eq!(t.set_focus(1), FocusChange::Unchanged);
    assert_eq!(t.set_focus(2), FocusChange::Moved);
    t.handle(&event(tap::MOUSE_MOVED));
    assert_eq!(t.set_focus(0), FocusChange::Returned);
    assert_eq!(t.last, (1511, 400));
    assert!(!t.is_remote());
}

#[test]
fn the_mask_asks_for_gestures_too() {
    assert_eq!(tap::event_mask(), 0xF_EE40_1CFE);
    let mut t = tap();
    t.set_bounds(1, 2, 0, -5);
    assert_eq!(t.bounds, Bounds { x: 1, y: 2, width: 1, height: 1 });
    assert_eq!(
        scurry::capture::run().unwrap_err(),
        "input capture is only implemented for macOS so far"
    );
}

#[test]
fn one_reader_at_a_time() {
    let mut r = ReaderState::new();
    assert!(!r.take_link_failure(), "no reader has ever run");
    assert!(!r.ask_to_stop());
    assert!(r.claim());
    assert!(!r.claim());
    assert!(r.ask_to_stop());
    r.ended(true);
    r.stop_is_over();
    assert!(!r.take_link_failure(), "a link that is replaced did not fail");
    assert!(r.claim());
    r.ended(false);
    assert!(r.take_link_failure());
    assert!(!r.take_link_failure(), "asked once, cleared");
    assert!(r.claim());
    r.release();
    assert!(r.claim());
}

#[test]
fn the_reader_routes_what_arrives() {
    let mut s = DaemonState::default();
    let waiting = s.register(kind::STATUS);
    let msg = |kind: u8, payload: Vec<u8>| ReadEvent::Message(Message { kind, payload });
    assert_eq!(on_read(&mut s, msg(kind::FOCUS, vec![3])), ReadAction::Focus(3));
    assert_eq!(s.focus(), 3);
    assert_eq!(on_read(&mut s, msg(kind::FOCUS, vec![])), ReadAction::Continue);
    assert_eq!(on_read(&mut s, ReadEvent::Quiet), ReadAction::Continue);
    assert_eq!(on_read(&mut s, msg(kind::CONFIG, vec![1])), ReadAction::Continue);
    assert_eq!(on_read(&mut s, msg(kind::STATUS, vec![1])), ReadAction::Wake);
    assert_eq!(waiting.wait(&mut s), Some((kind::STATUS, vec![1])));
    assert_eq!(s.focus(), 3);
    assert_eq!(on_read(&mut s, ReadEvent::Failed), ReadAction::Fail);
    assert_eq!(s.focus(), 0, "the pointer comes home");
    s.set_focus(2);
    assert_eq!(on_read(&mut s, ReadEvent::StopRequested), ReadAction::Stop);
    assert_eq!(s.focus(), 0);
}
