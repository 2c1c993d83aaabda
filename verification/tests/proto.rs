//! The wire format.

use scurry::proto::{
    button, kind, modifier, mouse_flag, DecodeError, Edge, Header, InputProfile, KeyState,
    MouseState, ScreenWire, SeqGate, SlotStatus, WirelessState, HEADER_LEN, MAX_PAYLOAD, NAME_LEN,
    SCREEN_WIRE_LEN, SEQ_RESYNC_AFTER,
};

#[test]
fn mouse_stays_sixteen_bytes_on_the_wire() {
    // The hot path must not grow.
    assert_eq!(HEADER_LEN + MouseState::WIRE_LEN, 16);
}

#[test]
fn header_roundtrips() {
    let h = Header::encode(kind::MOUSE, 1234, 8);
    let got = Header::decode(&h).unwrap();
    assert_eq!(got, Header { kind: kind::MOUSE, seq: 1234, len: 8 });
}

#[test]
fn mouse_roundtrips_including_negatives() {
    // Sign handling through the byte layout is the easiest thing to get
    // wrong, and shows up as a pointer that only moves down and right.
    let m = MouseState {
        buttons: button::LEFT | button::MIDDLE,
        dx: i16::MIN,
        dy: -1,
        wheel: i8::MIN,
        pan: -1,
    };
    assert_eq!(MouseState::decode(&m.encode()).unwrap(), m);
}

#[test]
fn pinned_screen_roundtrips() {
    let s = ScreenWire::pinned(2, "chromebook", 1512, 131, 1280, 720,
                               [0xf0, 0x68, 0xe3, 0xe5, 0xd1, 0xb1]);
    let mut buf = [0u8; SCREEN_WIRE_LEN];
    s.encode_into(&mut buf);
    let got = ScreenWire::decode(&buf).unwrap();
    assert_eq!(got, s);
    assert!(got.is_pinned());
    assert_eq!(got.bda, [0xf0, 0x68, 0xe3, 0xe5, 0xd1, 0xb1]);
}

#[test]
fn unpinned_screen_is_recognisable() {
    // An all-zero address means "whichever machine turns up", which is valid
    // for a layout the user has not pinned.
    let s = ScreenWire::with_name(1, "any", 0, 0, 100, 100);
    assert!(!s.is_pinned());
}

#[test]
fn screen_roundtrips() {
    let s = ScreenWire::with_name(1, "chromebook", -100, 262, 1920, 1080);
    let mut buf = [0u8; SCREEN_WIRE_LEN];
    s.encode_into(&mut buf);
    let got = ScreenWire::decode(&buf).unwrap();
    assert_eq!(got, s);
    assert_eq!(got.name_str(), "chromebook");
}

#[test]
fn screen_name_truncates_without_panicking() {
    let s = ScreenWire::with_name(1, "a-name-far-longer-than-sixteen", 0, 0, 1, 1);
    assert_eq!(s.name_str().len(), NAME_LEN);
}

#[test]
fn slot_status_roundtrips() {
    let s = SlotStatus { slot: 2, connected: true, bda: [1, 2, 3, 4, 5, 6] };
    let mut buf = [0u8; SlotStatus::WIRE_LEN];
    s.encode_into(&mut buf);
    assert_eq!(SlotStatus::decode(&buf).unwrap(), s);
}

#[test]
fn rejects_foreign_and_oversized() {
    assert_eq!(Header::decode(&[]), Err(DecodeError::Truncated));
    assert_eq!(Header::decode(&[0u8; HEADER_LEN]), Err(DecodeError::BadMagic));

    let mut wrong = Header::encode(kind::PING, 0, 0);
    wrong[1] = 99;
    assert_eq!(Header::decode(&wrong), Err(DecodeError::VersionMismatch { got: 99 }));

    // A hostile or corrupt length must be refused, not buffered: the dongle
    // has no allocator and a fixed reassembly buffer.
    let big = Header::encode(kind::CONFIG, 0, (MAX_PAYLOAD + 1) as u16);
    assert_eq!(
        Header::decode(&big),
        Err(DecodeError::Oversized((MAX_PAYLOAD + 1) as u16))
    );
}

#[test]
fn wireless_state_roundtrips() {
    let mut w = WirelessState {
        wireless_driving: true,
        active: [0x84, 0x2f, 0x57, 0x29, 0x63, 0x64],
        window_secs: 42,
        count: 2,
        ..Default::default()
    };
    w.controllers[0] = [0x84, 0x2f, 0x57, 0x29, 0x63, 0x64];
    w.controllers[1] = [0xaa, 0xbb, 0xcc, 0xdd, 0xee, 0xff];

    let mut buf = [0u8; 64];
    let n = w.encode_into(&mut buf).unwrap();
    assert_eq!(n, WirelessState::HEADER_LEN + 12);
    let got = WirelessState::decode(&buf[..n]).unwrap();
    assert_eq!(got, w);
    assert_eq!(got.controllers().len(), 2);
    assert!(got.is_active(&[0x84, 0x2f, 0x57, 0x29, 0x63, 0x64]));
    assert!(!got.is_active(&[0xaa, 0xbb, 0xcc, 0xdd, 0xee, 0xff]));
}

#[test]
fn the_cable_driving_is_distinct_from_nobody_driving() {
    // One flag could not tell them apart, and they are what a person is
    // actually asking about.
    let cable = WirelessState { cable_driving: true, ..Default::default() };
    let mut buf = [0u8; 16];
    let n = cable.encode_into(&mut buf).unwrap();
    let got = WirelessState::decode(&buf[..n]).unwrap();
    assert!(got.cable_driving && !got.wireless_driving);

    let idle = WirelessState::default();
    let n = idle.encode_into(&mut buf).unwrap();
    let got = WirelessState::decode(&buf[..n]).unwrap();
    assert!(!got.cable_driving && !got.wireless_driving);
}

#[test]
fn a_lying_controller_count_cannot_read_past_the_payload() {
    // The dongle is trusted, but a truncated or corrupt reply is not: a
    // count of four with one address present must yield one, not a panic.
    let mut buf = [0u8; WirelessState::HEADER_LEN + 6];
    buf[8] = 4;
    let got = WirelessState::decode(&buf).unwrap();
    assert_eq!(got.controllers().len(), 1);
}

#[test]
fn nothing_driving_is_not_mistaken_for_an_address() {
    // All-zero means "nobody", and must not compare equal to a real
    // controller that happens to be asked about.
    let w = WirelessState::default();
    assert!(!w.is_active(&[0u8; 6]));
}

#[test]
fn control_kinds_do_not_collide_with_hot_path() {
    // The split at 0x10 is load-bearing: a reader tells the classes apart
    // by magnitude, so an overlap would route a config message into the
    // pointer path.
    for k in [kind::MOUSE, kind::PING, kind::PONG, kind::FOCUS] {
        assert!(k < 0x10, "hot-path kind {k:#x} must stay below 0x10");
    }
    for k in [
        kind::GET_CONFIG, kind::CONFIG, kind::SET_CONFIG,
        kind::GET_STATUS, kind::STATUS, kind::ACK,
        kind::GET_WIRELESS, kind::WIRELESS, kind::SET_WIRELESS,
    ] {
        assert!(k >= 0x10, "control kind {k:#x} must be 0x10 or above");
    }
}

#[test]
fn identity_profile_changes_nothing() {
    let p = InputProfile::identity();
    assert_eq!(p.map_modifiers(modifier::LGUI), modifier::LGUI);
    assert_eq!(p.map_motion(37, -12), (37, -12));
    assert!(p.is_identity());
}

#[test]
fn gui_ctrl_swap_is_two_way() {
    // Cmd+C on a Mac must arrive as Ctrl+C, and a target-side Ctrl must not
    // silently stay Ctrl -- otherwise both host modifiers map onto one.
    let p = InputProfile::swap_gui_ctrl();
    assert_eq!(p.map_modifiers(modifier::LGUI), modifier::LCTRL);
    assert_eq!(p.map_modifiers(modifier::LCTRL), modifier::LGUI);
    assert_eq!(p.map_modifiers(modifier::RGUI), modifier::RCTRL);
    // Untouched modifiers pass through.
    assert_eq!(p.map_modifiers(modifier::LSHIFT), modifier::LSHIFT);
    // Combinations map bit by bit.
    assert_eq!(
        p.map_modifiers(modifier::LGUI | modifier::LSHIFT),
        modifier::LCTRL | modifier::LSHIFT
    );
}

#[test]
fn motion_scaling_and_inversion() {
    let mut p = InputProfile::identity();
    p.mouse_scale_pct = 200;
    assert_eq!(p.map_motion(10, -5), (20, -10));
    p.mouse_flags = mouse_flag::INVERT_Y;
    assert_eq!(p.map_motion(10, -5), (20, 10));
}

#[test]
fn extreme_motion_does_not_wrap() {
    // Negating i16::MIN wraps to itself, so a fast flick would silently
    // fail to invert. saturating_neg keeps the sign correct.
    let mut p = InputProfile::identity();
    p.mouse_flags = mouse_flag::INVERT_Y;
    let (_, y) = p.map_motion(0, i16::MIN);
    assert!(y > 0, "inverting the largest negative delta must change sign");
}

#[test]
fn zero_scale_is_treated_as_unchanged() {
    // An unset field would otherwise freeze the pointer with nothing to
    // explain why.
    let mut buf = [0u8; InputProfile::WIRE_LEN];
    InputProfile::identity().encode_into(&mut buf);
    buf[0] = 0;
    buf[1] = 0;
    assert_eq!(InputProfile::decode(&buf).unwrap().mouse_scale_pct, 100);
}

#[test]
fn profile_survives_the_screen_round_trip() {
    let mut s = ScreenWire::pinned(2, "chromebook", 0, 0, 1280, 720, [1, 2, 3, 4, 5, 6]);
    s.profile = InputProfile::swap_gui_ctrl();
    s.profile.mouse_scale_pct = 150;
    let mut buf = [0u8; SCREEN_WIRE_LEN];
    s.encode_into(&mut buf);
    assert_eq!(ScreenWire::decode(&buf).unwrap(), s);
}

#[test]
fn key_state_roundtrips() {
    let k = KeyState { modifiers: modifier::LSHIFT | modifier::LGUI, keys: [4, 5, 0, 0, 0, 0] };
    assert_eq!(KeyState::decode(&k.encode()).unwrap(), k);
    // Byte 1 is the boot protocol's reserved field and must stay zero.
    assert_eq!(k.encode()[1], 0);
}

#[test]
fn edges_pair_up() {
    for e in [Edge::Left, Edge::Right, Edge::Top, Edge::Bottom] {
        assert_eq!(e.opposite().opposite(), e);
        assert_ne!(e.opposite(), e);
    }
}

#[test]
fn seq_gate_drops_duplicates_and_stragglers() {
    let mut g = SeqGate::new();
    assert!(g.accept(10));
    assert!(!g.accept(10));
    assert!(!g.accept(9));
    assert!(g.accept(11));
}

#[test]
fn seq_gate_reanchors_when_the_peer_restarts() {
    // A restarted controller counts from 0 while the receiver remembers
    // thousands; without re-anchoring every message would be a straggler.
    let mut g = SeqGate::new();
    for s in 0..5000u16 {
        g.accept(s);
    }
    let restarted: Vec<bool> = (0..20u16).map(|s| g.accept(s)).collect();
    assert!(
        restarted[..SEQ_RESYNC_AFTER as usize].iter().all(|&a| !a),
        "a short burst of stragglers must still be rejected"
    );
    assert!(
        restarted[SEQ_RESYNC_AFTER as usize..].iter().all(|&a| a),
        "a sustained run means the peer restarted; re-anchor"
    );
}

#[test]
fn brief_reordering_still_drops() {
    // Re-anchoring must not defeat what this is for.
    let mut g = SeqGate::new();
    for s in 0..100u16 {
        g.accept(s);
    }
    assert!(!g.accept(97), "a straggler is still a straggler");
    assert!(!g.accept(98));
    assert!(g.accept(101), "and progress still gets through");
}

#[test]
fn seq_gate_survives_wraparound() {
    let mut g = SeqGate::new();
    assert!(g.accept(u16::MAX - 1));
    assert!(g.accept(u16::MAX));
    assert!(g.accept(0), "wrap to zero is newer, not older");
    assert!(g.accept(1));
    assert!(!g.accept(u16::MAX), "pre-wrap value is now a straggler");
}

#[test]
fn a_zero_scale_freezes_nothing_on_the_wire_but_is_kept_in_memory() {
    let mut p = InputProfile::identity();
    p.mouse_scale_pct = 0;
    assert_eq!(p.map_motion(100, -100), (0, 0));
    let mut buf = [0xffu8; InputProfile::WIRE_LEN];
    p.encode_into(&mut buf);
    assert_eq!(buf[3], 0, "reserved");
    assert!(InputProfile::decode(&buf).unwrap().is_identity());
}

#[test]
fn scaling_rounds_towards_zero_and_saturates() {
    let mut p = InputProfile::identity();
    p.mouse_scale_pct = 50;
    assert_eq!(p.map_motion(3, -3), (1, -1));
    p.mouse_scale_pct = u16::MAX;
    assert_eq!(p.map_motion(i16::MAX, i16::MIN), (i16::MAX, i16::MIN));
    p.mouse_flags = mouse_flag::INVERT_X;
    assert_eq!(p.map_motion(5, 5), (-3276, 3276));
}

#[test]
fn swapping_twice_gives_every_modifier_back() {
    let p = InputProfile::swap_gui_ctrl();
    for host in 0..=255u8 {
        assert_eq!(p.map_modifiers(p.map_modifiers(host)), host);
        assert_eq!(InputProfile::default().map_modifiers(host), host);
    }
    assert!(!p.is_identity());
}

#[test]
fn short_payloads_decode_to_nothing() {
    assert!(MouseState::decode(&[0; 7]).is_none());
    assert!(KeyState::decode(&[0; 7]).is_none());
    assert!(SlotStatus::decode(&[0; 7]).is_none());
    assert!(InputProfile::decode(&[0; 11]).is_none());
    assert!(ScreenWire::decode(&[0; SCREEN_WIRE_LEN - 1]).is_none());
    assert!(WirelessState::decode(&[0; 8]).is_none());
    assert_eq!(MouseState::default().encode(), [0; 8]);
    assert_eq!(KeyState::default().encode(), [0; 8]);
}

#[test]
fn numbers_are_little_endian() {
    let m = MouseState { buttons: 1, dx: 0x0102, dy: -2, wheel: -1, pan: 2 };
    assert_eq!(m.encode(), [1, 2, 1, 0xfe, 0xff, 0xff, 2, 0]);
    let mut buf = [0u8; SCREEN_WIRE_LEN];
    ScreenWire::with_name(1, "x", 0x01020304, -1, 5, 6).encode_into(&mut buf);
    assert_eq!(&buf[17..25], &[4, 3, 2, 1, 0xff, 0xff, 0xff, 0xff]);
    assert_eq!(Header::encode(9, 0x0102, 3), [0x53, 3, 9, 0, 2, 1, 3, 0]);
}

#[test]
fn a_name_that_is_not_text_is_empty() {
    let mut s = ScreenWire::with_name(1, "caf\u{e9}", 0, 0, 1, 1);
    assert_eq!(s.name_str(), "caf\u{e9}");
    s.name[4] = 0;
    assert_eq!(s.name_str(), "", "a name cut inside a character");
    s.name = [0; 16];
    assert_eq!(s.name_str(), "");
}

#[test]
fn a_wireless_state_that_does_not_fit_is_not_written() {
    let w = WirelessState { count: 9, ..Default::default() };
    assert_eq!(w.count(), 4);
    let mut small = [5u8; 20];
    assert_eq!(w.encode_into(&mut small), None);
    assert_eq!(small, [5u8; 20]);
    let mut exact = [5u8; 33];
    assert_eq!(w.encode_into(&mut exact), Some(33));
    assert_eq!(exact[8], 4);
    let both = WirelessState { wireless_driving: true, cable_driving: true, ..Default::default() };
    assert_eq!(both.encode_into(&mut exact), Some(9));
    assert_eq!(exact[0], 3);
    assert_eq!(WirelessState::decode(&exact[..9]).unwrap(), both);
}

#[test]
fn half_the_circle_ahead_is_not_newer() {
    let mut g = SeqGate::default();
    assert!(g.accept(0));
    assert!(!g.accept(32768));
    assert!(g.accept(32767));
}

#[test]
fn modifiers_held_together_map_one_by_one() {
    let p = InputProfile::swap_gui_ctrl();
    for a in 0..=255u8 {
        for b in [0, 1, 0x18, 0x80, 0xff] {
            assert_eq!(p.map_modifiers(a | b), p.map_modifiers(a) | p.map_modifiers(b));
        }
    }
}
