//! Keeping a slow radio up with a fast pointer.

use scurry::proto::{button, kind, Header, MouseState, HEADER_LEN};
use scurry::transport::coalesce::coalesce;
use scurry::transport::encode;

fn mouse(seq: u16, buttons: u8, dx: i16, dy: i16) -> Vec<u8> {
    let m = MouseState { buttons, dx, dy, wheel: 0, pan: 0 };
    encode(kind::MOUSE, seq, &m.encode())
}

fn parse(frame: &[u8]) -> (u16, MouseState) {
    let h = Header::decode(frame).unwrap();
    (h.seq, MouseState::decode(&frame[HEADER_LEN..]).unwrap())
}

#[test]
fn motion_sums_and_buttons_take_the_latest() {
    // The whole point: three reports the radio could not keep up with
    // become one that puts the pointer in the same place.
    let out = coalesce(vec![
        mouse(1, 0, 5, 0),
        mouse(2, button::LEFT, 7, -3),
        mouse(3, button::LEFT, 1, 1),
    ]);
    assert_eq!(out.len(), 1);
    let (seq, m) = parse(&out[0]);
    assert_eq!((m.dx, m.dy), (13, -2));
    assert_eq!(m.buttons, button::LEFT, "buttons are absolute; the last one wins");
    assert_eq!(seq, 3, "carrying the first would make the next frame a straggler");
}

#[test]
fn a_key_frame_splits_a_run() {
    // Merging across one would reorder a click against a keystroke.
    let keys = encode(kind::KEY, 9, &[0u8; 8]);
    let out = coalesce(vec![mouse(1, 0, 1, 0), keys.clone(), mouse(3, 0, 2, 0)]);
    assert_eq!(out.len(), 3);
    assert_eq!(out[1], keys);
}

#[test]
fn control_frames_pass_through_untouched() {
    let cfg = encode(kind::SET_CONFIG, 4, &[1, 2, 3]);
    let out = coalesce(vec![cfg.clone()]);
    assert_eq!(out, vec![cfg]);
}

#[test]
fn a_single_frame_is_unchanged() {
    let one = mouse(7, button::RIGHT, -4, 9);
    assert_eq!(coalesce(vec![one.clone()]), vec![one]);
}

#[test]
fn extreme_bursts_do_not_wrap() {
    // Saturating, not wrapping: a summed run that overflowed would send the
    // pointer hard in the opposite direction.
    let out = coalesce(vec![mouse(1, 0, i16::MAX, 0), mouse(2, 0, 100, 0)]);
    let (_, m) = parse(&out[0]);
    assert_eq!(m.dx, i16::MAX);
}

#[test]
fn collapsing_twice_changes_nothing_more() {
    let keys = encode(kind::KEY, 4, &[0; 8]);
    let once = coalesce(vec![
        mouse(1, 0, 1, 0),
        mouse(2, 0, 5, 0),
        keys.clone(),
        keys,
        mouse(5, 1, 2, 0),
        mouse(6, 0, 3, 0),
    ]);
    assert_eq!(once.len(), 4);
    assert_eq!(coalesce(once.clone()), once);
}
