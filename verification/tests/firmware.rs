//! The dongle's mouse reports.

use scurry::firmware::{encode_report, has_room, on_frame, take_frame, NODE};
use scurry::proto::{kind, Edge, MouseState, SeqGate};
use scurry::transport::encode;
use scurry::transport::sink::{Frame, Payload};

#[test]
fn a_report_is_seven_bytes_with_five_buttons() {
    assert_eq!(encode_report(0xff, -1, 256, -2, 3), [0x1f, 0xff, 0xff, 0, 1, 0xfe, 3]);
}

#[test]
fn leaving_releases_everything() {
    let mut gate = SeqGate::new();
    let m = MouseState { buttons: 1, dx: 2, dy: 3, wheel: 0, pan: 0 };
    assert_eq!(
        on_frame(&mut gate, &Frame::new(1, 1, Payload::Mouse(m))),
        Some([1, 2, 0, 3, 0, 0, 0])
    );
    assert_eq!(on_frame(&mut gate, &Frame::new(1, 2, Payload::Leave)), Some([0; 7]));
    let enter = Payload::Enter { edge: Edge::Left, ratio: 1 };
    assert_eq!(on_frame(&mut gate, &Frame::new(1, 3, enter)), None);
    assert_eq!(on_frame(&mut gate, &Frame::new(1, 3, Payload::Leave)), None, "a straggler");
}

#[test]
fn advertising_goes_on_while_there_is_room() {
    assert!(has_room(3));
    assert!(!has_room(4));
}

#[test]
fn a_frame_is_taken_once_it_is_whole() {
    let m = MouseState { buttons: 1, dx: -2, dy: 300, wheel: -1, pan: 4 };
    let mut bytes = encode(kind::MOUSE, 7, &m.encode());
    let len = bytes.len();
    bytes.extend_from_slice(&encode(kind::PING, 8, &[]));
    for n in 0..len {
        assert_eq!(take_frame(&bytes[..n]), None, "{n} bytes");
    }
    let mouse = Frame::new(NODE, 7, Payload::Mouse(m));
    assert_eq!(take_frame(&bytes[..len]), Some((Some(mouse), len)));
    assert_eq!(take_frame(&bytes), Some((Some(mouse), len)));
    let ping = Frame::new(1, 8, Payload::Ping);
    assert_eq!(take_frame(&bytes[len..]), Some((Some(ping), 8)));
    let pong = Frame::new(1, 9, Payload::Pong);
    assert_eq!(take_frame(&encode(kind::PONG, 9, &[])), Some((Some(pong), 8)));
}

#[test]
fn what_asks_for_nothing_is_passed_over() {
    let key = encode(kind::KEY, 1, &[0; 8]);
    assert_eq!(take_frame(&key), Some((None, key.len())));
    let short = encode(kind::MOUSE, 1, &[1, 2, 3]);
    assert_eq!(take_frame(&short), Some((None, short.len())), "too short for a mouse update");
    assert_eq!(take_frame(b"not a header"), Some((None, 1)));
    assert_eq!(take_frame(b"not a h"), None);
}
