//! Links to the dongle.

use scurry::proto::{kind, MouseState, HEADER_LEN, MAX_PAYLOAD};
use scurry::transport::ble::{
    find_characteristics, first_scurry, is_scurry, scan_step, Air, ScanStep, CONTROL, EVENT,
};
use scurry::transport::coalesce::radio_writes;
use scurry::transport::serial::{Recv, Serial};
use scurry::transport::sink::{Frame, NullTransport, Payload, SerialTransport, Transport};
use scurry::transport::{encode, Dongle, Framer, LinkError};

fn strings(v: &[&str]) -> Vec<String> {
    v.iter().map(|s| s.to_string()).collect()
}

#[test]
fn a_frame_is_read_back() {
    let mut f = Framer::default();
    let mut log = Vec::new();
    f.push(&encode(kind::CONFIG, 7, &[1, 2, 3]));
    let m = f.take(&mut log).unwrap();
    assert_eq!((m.kind, m.payload), (kind::CONFIG, vec![1, 2, 3]));
    assert!(f.take(&mut log).is_none());
    assert!(log.is_empty());
}

#[test]
fn messages_do_not_depend_on_how_the_stream_is_cut() {
    let mut stream = b"boot ok\r\nSSS\n".to_vec();
    stream.extend_from_slice(&encode(kind::FOCUS, 1, &[2]));
    stream.extend_from_slice(b"half a li");
    stream.extend_from_slice(&encode(kind::ACK, 2, &[0]));
    stream.extend_from_slice(b"ne\n\n");
    stream.extend_from_slice(&encode(kind::PONG, 3, &[]));
    for cut in 1..stream.len() {
        let mut f = Framer::with_capacity(16);
        let mut log = Vec::new();
        let mut got = Vec::new();
        for part in stream.chunks(cut) {
            f.push(part);
            while let Some(m) = f.take(&mut log) {
                got.push((m.kind, m.payload));
            }
        }
        assert_eq!(
            got,
            vec![(kind::FOCUS, vec![2]), (kind::ACK, vec![0]), (kind::PONG, vec![])],
            "cut {cut}"
        );
        assert_eq!(log, strings(&["boot ok", "SSS", "half a line"]), "cut {cut}");
    }
}

#[test]
fn log_bytes_that_are_not_text_are_marked() {
    let mut f = Framer::default();
    let mut log = Vec::new();
    f.push(&[b'a', 0xff, b'b', b'\n', 0, 0, 0, 0, 0, 0, 0, 0]);
    assert!(f.take(&mut log).is_none());
    assert_eq!(log, strings(&["a\u{fffd}b"]));
}

#[test]
fn an_oversized_header_is_log_text() {
    let mut f = Framer::default();
    let mut log = Vec::new();
    let mut bad = encode(kind::PING, 0, &[]);
    bad[7] = 0xff;
    f.push(&bad);
    f.push(&encode(kind::PING, 5, &[]));
    assert_eq!(f.take(&mut log).unwrap().kind, kind::PING);
}

#[test]
fn a_payload_longer_than_its_field_wraps_in_the_header_only() {
    let out = encode(kind::CONFIG, 1, &vec![0u8; 65536 + 2]);
    assert_eq!(&out[6..8], &[2, 0]);
    assert_eq!(out.len(), HEADER_LEN + 65538);
}

#[test]
fn the_callout_port_is_preferred_and_its_twin_never_used() {
    let ports = strings(&[
        "/dev/tty.usbmodem1",
        "/dev/ttyACM0",
        "/dev/cu.Bluetooth",
        "/dev/cu.usbmodem1",
    ]);
    assert_eq!(Dongle::autodetect(&ports).unwrap(), "/dev/cu.usbmodem1");
    assert_eq!(Serial::autodetect(&strings(&["/dev/ttyACM3", "/dev/ttyACM0"])).unwrap(), "/dev/ttyACM3");
    let err = Dongle::autodetect(&strings(&["/dev/tty.usbmodem1", "/dev/ttyS0"])).unwrap_err();
    assert_eq!(err, LinkError::NoDongle);
    assert_eq!(err.message(), "no dongle found (looked for usbmodem/ttyACM)");
}

#[test]
fn the_cable_numbers_its_messages() {
    let mut d = Dongle::open("/dev/ttyACM0");
    let air = Air::connected();
    assert_eq!(d.send(&air, kind::PING, &[]).unwrap(), encode(kind::PING, 0, &[]));
    assert_eq!(d.send(&air, kind::PING, &[9]).unwrap(), encode(kind::PING, 1, &[9]));
    let err = d.send(&air, kind::CONFIG, &vec![0u8; MAX_PAYLOAD + 1]).unwrap_err();
    assert_eq!(err, LinkError::PayloadTooLong(513));
    assert_eq!(err.message(), "payload of 513 bytes exceeds the dongle's buffer");
    assert_eq!(d.send(&air, kind::PING, &[]).unwrap()[4], 2, "a refused message is not counted");
    assert_eq!(d.try_clone().send(&air, kind::PING, &[]).unwrap()[4], 0);
    assert_eq!(d.describe(), "/dev/ttyACM0");
    assert!(!d.is_wireless());
}

#[test]
fn reading_the_cable_waits_until_time_is_up() {
    let mut s = Serial::open("/dev/ttyACM0");
    let mut log = Vec::new();
    assert!(matches!(s.recv(false, &mut log), Recv::Wait));
    assert!(matches!(s.recv(true, &mut log), Recv::TimedOut));
    s.received(&encode(kind::PONG, 0, &[]));
    // A message that is there is handed out even past the deadline.
    assert!(matches!(s.recv(true, &mut log), Recv::Message(m) if m.kind == kind::PONG));
}

#[test]
fn the_air_hands_messages_out_in_order_even_once_it_dropped() {
    let mut d = Dongle::open_wireless("Scurry 629X");
    let mut air = Air::connected();
    let mut log = Vec::new();
    assert_eq!(d.describe(), "Scurry 629X (wireless)");
    assert!(d.is_wireless());
    let mut bytes = encode(kind::FOCUS, 0, &[1]);
    bytes.extend_from_slice(&encode(kind::FOCUS, 1, &[2]));
    assert!(!air.notified(CONTROL, &bytes, &mut log), "another characteristic is ignored");
    assert!(!air.notified(EVENT, &bytes[..5], &mut log));
    assert!(air.notified(EVENT, &bytes[5..], &mut log));
    air.dropped();
    for want in [1u8, 2] {
        match d.recv(&mut air, false, &mut log) {
            Ok(Recv::Message(m)) => assert_eq!(m.payload, vec![want]),
            other => panic!("expected a message, got {other:?}"),
        }
    }
    assert_eq!(d.recv(&mut air, false, &mut log).unwrap_err(), LinkError::Dropped);
    assert_eq!(d.send(&air, kind::PING, &[]).unwrap_err(), LinkError::Down);
    assert_eq!(LinkError::Down.message(), "the wireless link is down");
    assert_eq!(LinkError::Dropped.message(), "the wireless link dropped");
}

#[test]
fn the_air_waits_until_time_is_up() {
    let mut d = Dongle::open_wireless("Scurry");
    let mut air = Air::connected();
    let mut log = Vec::new();
    assert!(matches!(d.recv(&mut air, false, &mut log), Ok(Recv::Wait)));
    assert!(matches!(d.recv(&mut air, true, &mut log), Ok(Recv::TimedOut)));
    assert_eq!(d.send(&air, kind::KEY, &[0; 8]).unwrap(), encode(kind::KEY, 0, &[0; 8]));
}

#[test]
fn a_dongle_is_recognised_by_its_name() {
    assert!(is_scurry("HID [Scurry 629X]"));
    assert!(!is_scurry("scurry"));
    let names = vec![None, Some("Mouse".to_string()), Some("Scurry 1".to_string())];
    assert_eq!(first_scurry(&names), Some(2));
    assert_eq!(first_scurry(&names[..2].to_vec()), None);
    assert_eq!(find_characteristics(&[1, EVENT, CONTROL]), Some((2, 1)));
    assert_eq!(find_characteristics(&[EVENT]), None);
    assert_eq!(scan_step(true, true), ScanStep::Found);
    assert_eq!(scan_step(false, true), ScanStep::GiveUp);
    assert_eq!(scan_step(false, false), ScanStep::LookAgain);
}

#[test]
fn a_long_frame_goes_out_in_confirmed_pieces() {
    let cfg = encode(kind::SET_CONFIG, 1, &vec![5u8; 50]);
    let m = MouseState { buttons: 0, dx: 1, dy: 0, wheel: 0, pan: 0 };
    let mouse = encode(kind::MOUSE, 2, &m.encode());
    let out = radio_writes(vec![cfg.clone(), mouse.clone()]);
    assert_eq!(out.iter().map(|w| w.data.len()).collect::<Vec<_>>(), vec![20, 20, 18, 16]);
    assert_eq!(out.iter().map(|w| w.confirmed).collect::<Vec<_>>(), vec![true, true, true, false]);
    let joined: Vec<u8> = out[..3].iter().flat_map(|w| w.data.clone()).collect();
    assert_eq!(joined, cfg);
    assert_eq!(out[3].data, mouse);
}

#[test]
fn addressed_frames_are_numbered_and_recorded() {
    let mut t = SerialTransport::open();
    let mut sink = NullTransport::default();
    sink.send(&t.send_to(1, Payload::Leave)).unwrap();
    sink.send(&t.send_to(2, Payload::Ping)).unwrap();
    sink.send(&Frame::new(3, 9, Payload::Pong)).unwrap();
    assert_eq!(
        sink.sent,
        vec![
            Frame { node: 1, seq: 0, payload: Payload::Leave },
            Frame { node: 2, seq: 1, payload: Payload::Ping },
            Frame { node: 3, seq: 9, payload: Payload::Pong },
        ]
    );
}
