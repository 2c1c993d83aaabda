//! Routing on the dongle.

use scurry::config::{Config, InputConfig, ScreenConfig};
use scurry::proto::{
    button, modifier, mouse_flag, InputProfile, ScreenWire, MAX_SCREENS, SCREEN_WIRE_LEN,
};
use scurry::router::{
    normalise, payload_fits, scurry_layout_advance, scurry_layout_load,
    scurry_layout_node_for_address, scurry_layout_ready, scurry_layout_save,
    scurry_layout_set_available, scurry_map_modifiers, scurry_map_mouse, Router, ScurryMouse,
    ScurryRoute,
};

const LINUX: [u8; 6] = [0xf0, 0x68, 0xe3, 0xe5, 0xd1, 0xb1];

fn payload(screens: &[ScreenWire]) -> Vec<u8> {
    let mut out = vec![0u8; 1 + screens.len() * SCREEN_WIRE_LEN];
    out[0] = screens.len() as u8;
    for (i, s) in screens.iter().enumerate() {
        s.encode_into(&mut out[1 + i * SCREEN_WIRE_LEN..]);
    }
    out
}

fn desk() -> Vec<ScreenWire> {
    let mut linux = ScreenWire::pinned(1, "linux", 1000, 0, 1000, 600, LINUX);
    linux.profile = InputProfile::swap_gui_ctrl();
    linux.profile.mouse_scale_pct = 150;
    vec![ScreenWire::with_name(0, "mac", 0, 0, 1000, 1000), linux]
}

fn loaded() -> Router {
    let mut r = Router::new();
    let p = payload(&desk());
    assert!(payload_fits(&p));
    assert_eq!(scurry_layout_load(&mut r, &p), 0);
    r
}

fn blank_route() -> ScurryRoute {
    ScurryRoute { crossed: 9, from: 9, to: 9, edge: 9, ratio: 9, abs_x: 9, abs_y: 9 }
}

#[test]
fn loading_refuses_with_a_code_for_each_reason() {
    let mut r = Router::new();
    assert_eq!(scurry_layout_load(&mut r, &[]), -1);
    assert_eq!(scurry_layout_load(&mut r, &[0]), -2);
    assert_eq!(scurry_layout_load(&mut r, &[MAX_SCREENS as u8 + 1]), -2);
    assert_eq!(scurry_layout_load(&mut r, &[2, 0, 0]), -3);
    let mut screens = desk();
    screens[1].height = 0;
    assert_eq!(scurry_layout_load(&mut r, &payload(&screens)), -5);
    let mut screens = desk();
    screens[1].x = 999;
    assert_eq!(scurry_layout_load(&mut r, &payload(&screens)), -6);
    assert_eq!(scurry_layout_ready(&r), 0, "nothing that was refused is installed");
}

#[test]
fn a_refused_layout_leaves_the_stored_one_in_place() {
    let mut r = loaded();
    let mut screens = desk();
    screens[1].x = 999;
    assert_eq!(scurry_layout_load(&mut r, &payload(&screens)), -6);
    assert_eq!(scurry_layout_ready(&r), 1);
    let mut out = [0u8; 512];
    let n = scurry_layout_save(&r, &mut out) as usize;
    assert_eq!(ScreenWire::decode(&out[1 + SCREEN_WIRE_LEN..n]).unwrap().x, 1000);
}

#[test]
fn a_screen_without_a_pixel_stops_the_reading_there() {
    let mut r = loaded();
    let mut screens = desk();
    screens[0].profile.mouse_scale_pct = 50;
    screens[1].width = -1;
    assert_eq!(scurry_layout_load(&mut r, &payload(&screens)), -5);
    // The first screen's profile was read, the second one's was not.
    assert_eq!(scurry_map_mouse(&r, 0, 0, 10, 0, 0, 0).dx, 5);
    assert_eq!(scurry_map_mouse(&r, 1, 0, 10, 0, 0, 0).dx, 10);
    // The pins read before it replace the first of the old ones; there were
    // none, so the pin is still the old one.
    assert_eq!(scurry_layout_node_for_address(&r, &LINUX), 1);
}

#[test]
fn saving_gives_back_what_was_loaded() {
    let r = loaded();
    let mut out = [7u8; 1 + 2 * SCREEN_WIRE_LEN + 3];
    let n = scurry_layout_save(&r, &mut out);
    assert_eq!(n as usize, 1 + 2 * SCREEN_WIRE_LEN);
    assert_eq!(&out[..n as usize], &payload(&desk())[..]);
    assert_eq!(&out[n as usize..], &[7, 7, 7], "nothing past the payload is touched");
}

#[test]
fn saving_gives_the_payload_back_wherever_the_pointer_went() {
    let mut r = loaded();
    let mut route = blank_route();
    for dx in [600, 10, -700] {
        assert!(r.can_advance(dx, 3));
        assert_eq!(scurry_layout_advance(&mut r, dx, 3, &mut route), 0);
        let mut out = [7u8; 1 + 2 * SCREEN_WIRE_LEN];
        assert_eq!(scurry_layout_save(&r, &mut out) as usize, out.len());
        assert_eq!(&out[..], &payload(&desk())[..]);
    }
    let mut small = [7u8; 2 * SCREEN_WIRE_LEN];
    assert_eq!(scurry_layout_save(&r, &mut small), -3);
    assert_eq!(small, [7u8; 2 * SCREEN_WIRE_LEN]);
}

#[test]
fn bytes_that_stand_for_nothing_are_not_given_back() {
    let mut r = Router::new();
    let mut p = payload(&desk());
    p[1 + 42] = 9;
    p[1 + 5] = b'x';
    p[1 + 39] = 0;
    p[1 + 40] = 0;
    assert_eq!(scurry_layout_load(&mut r, &p), 0);
    let mut out = [0u8; 1 + 2 * SCREEN_WIRE_LEN];
    assert_eq!(scurry_layout_save(&r, &mut out) as usize, out.len());
    assert_eq!(&out[..], &payload(&desk())[..], "\"mac\" ends at its first NUL");
}

#[test]
fn saving_refuses_without_a_layout_or_without_room() {
    let mut out = [3u8; 16];
    assert_eq!(scurry_layout_save(&Router::new(), &mut out), -2);
    assert_eq!(scurry_layout_save(&loaded(), &mut out), -3);
    assert_eq!(out, [3u8; 16]);
}

#[test]
fn a_pinned_machine_keeps_its_node() {
    let r = loaded();
    assert_eq!(scurry_layout_node_for_address(&r, &LINUX), 1);
    assert_eq!(scurry_layout_node_for_address(&r, &[1, 2, 3, 4, 5, 6]), -1);
}

#[test]
fn input_is_translated_for_the_node_it_goes_to() {
    let r = loaded();
    assert_eq!(scurry_map_modifiers(&r, 1, modifier::LGUI), modifier::LCTRL);
    assert_eq!(scurry_map_modifiers(&r, 0, modifier::LGUI), modifier::LGUI);
    assert_eq!(scurry_map_modifiers(&r, 200, modifier::LGUI), modifier::LGUI);
    assert_eq!(
        scurry_map_mouse(&r, 1, button::LEFT, 10, -4, 1, 2),
        ScurryMouse { buttons: button::LEFT, dx: 15, dy: -6, wheel: 1, pan: 2 }
    );
}

#[test]
fn buttons_and_wheels_can_be_turned_around() {
    let mut screens = desk();
    screens[1].profile.mouse_flags = mouse_flag::SWAP_BUTTONS | mouse_flag::NATURAL_SCROLL;
    let mut r = Router::new();
    assert_eq!(scurry_layout_load(&mut r, &payload(&screens)), 0);
    let m = scurry_map_mouse(&r, 1, button::LEFT | button::MIDDLE, 0, 0, i8::MIN, 5);
    assert_eq!(m.buttons, button::RIGHT | button::MIDDLE);
    assert_eq!((m.wheel, m.pan), (i8::MAX, -5));
    let both = scurry_map_mouse(&r, 1, button::LEFT | button::RIGHT, 0, 0, 0, 0);
    assert_eq!(both.buttons, button::LEFT | button::RIGHT);
}

#[test]
fn motion_is_routed_and_normalised() {
    let mut r = loaded();
    let mut out = blank_route();
    assert!(r.can_advance(600, 0));
    assert_eq!(scurry_layout_advance(&mut r, 600, 0, &mut out), 0);
    // Leaving at row 500 of 0..999 is ratio 500 * 65535 / 999; it arrives at
    // row 299 of 0..599.
    assert_eq!(
        out,
        ScurryRoute { crossed: 1, from: 0, to: 1, edge: 0, ratio: 32800, abs_x: 0, abs_y: 16356 }
    );
    assert_eq!(scurry_layout_advance(&mut r, 10, 0, &mut out), 0);
    assert_eq!((out.crossed, out.from, out.to), (0, 1, 1));
    assert_eq!(out.abs_x, 327);
}

#[test]
fn without_a_layout_there_is_nowhere_to_route() {
    let mut r = Router::new();
    let mut out = blank_route();
    assert!(!r.can_advance(1, 1));
    assert_eq!(scurry_layout_advance(&mut r, 1, 1, &mut out), -2);
    assert_eq!(out, blank_route());
}

#[test]
fn an_unavailable_machine_is_not_crossed_onto() {
    let mut r = loaded();
    let mut out = blank_route();
    scurry_layout_set_available(&mut r, 0);
    assert_eq!(scurry_layout_advance(&mut r, 600, 0, &mut out), 0);
    assert_eq!((out.crossed, out.to), (0, 0));
    scurry_layout_set_available(&mut r, 1 << 1);
    assert_eq!(scurry_layout_advance(&mut r, 600, 0, &mut out), 0);
    assert_eq!((out.crossed, out.to), (1, 1));
    // Coming home is always possible.
    scurry_layout_set_available(&mut r, 0);
    assert_eq!(scurry_layout_advance(&mut r, -600, 0, &mut out), 0);
    assert_eq!((out.crossed, out.to), (1, 0));
}

#[test]
fn a_layout_past_the_coordinates_is_noticed_before_it_is_installed() {
    let far = ScreenWire::with_name(0, "far", i32::MAX - 10, 0, 1000, 10);
    assert!(!payload_fits(&payload(&[far])));
    let edge = ScreenWire::with_name(0, "edge", i32::MAX - 10, 0, 20, 10);
    let p = payload(&[edge]);
    assert!(payload_fits(&p));
    let mut r = Router::new();
    assert_eq!(scurry_layout_load(&mut r, &p), 0);
    assert!(!r.can_advance(0, 0), "its last pixel is past the coordinates");
}

#[test]
fn coordinates_are_normalised_to_the_report_range() {
    assert_eq!(normalise(0, 1000), 0);
    assert_eq!(normalise(999, 1000), 32767);
    assert_eq!(normalise(5000, 1000), 32767);
    assert_eq!(normalise(-5, 1000), 0);
    assert_eq!(normalise(5, 1), 0);
    assert_eq!(normalise(500, 1000), 16399);
}

#[test]
fn a_checked_layout_is_one_the_dongle_installs() {
    let cfg = Config {
        screens: vec![
            ScreenConfig {
                name: "mac".into(),
                node: 0,
                x: 0,
                y: 0,
                width: 1512,
                height: 982,
                address: None,
                input: None,
            },
            ScreenConfig {
                name: "linux".into(),
                node: 3,
                x: 1512,
                y: 0,
                width: 1920,
                height: 1080,
                address: Some("f0:68:e3:e5:d1:b1".into()),
                input: Some(InputConfig { invert_y: true, ..Default::default() }),
            },
        ],
    };
    let mut r = Router::new();
    assert_eq!(scurry_layout_load(&mut r, &cfg.to_payload().unwrap()), 0);
    assert_eq!(scurry_layout_node_for_address(&r, &LINUX), 3);
    assert_eq!(scurry_map_mouse(&r, 3, 0, 1, 2, 0, 0).dy, -2);
}
