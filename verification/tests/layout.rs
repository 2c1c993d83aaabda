//! The virtual desktop.

use scurry::layout::{Layout, LayoutError, Motion, Screen, MAX_SCREENS, NAME_LEN};
use scurry::proto::Edge;

fn screen(node: u8, name: &str, x: i32, y: i32, w: i32, h: i32) -> Screen {
    Screen::new(node, name, x, y, w, h)
}

/// Local 1000x1000 at origin, a neighbour of the same size to its right.
fn pair() -> Layout {
    Layout::new(&[
        screen(Screen::LOCAL, "mac", 0, 0, 1000, 1000),
        screen(1, "linux", 1000, 0, 1000, 1000),
    ])
    .unwrap()
}

#[test]
fn starts_centred_on_the_local_screen() {
    let l = pair();
    assert!(l.is_local());
    assert_eq!(l.position(), (500, 500));
}

#[test]
fn names_round_trip_and_truncate_safely() {
    assert_eq!(screen(0, "mac", 0, 0, 1, 1).name(), "mac");
    // Longer than NAME_LEN: truncated, never panicking.
    let long = screen(0, "a-very-long-screen-name-indeed", 0, 0, 1, 1);
    assert_eq!(long.name().len(), NAME_LEN);
}

#[test]
fn motion_within_a_screen_does_not_hand_off() {
    let mut l = pair();
    assert_eq!(l.advance(10, -20), Motion::Stayed { node: 0, x: 510, y: 480 });
    assert!(l.is_local());
}

#[test]
fn crossing_right_lands_on_the_neighbours_left_edge() {
    let mut l = pair();
    match l.advance(600, 0) {
        Motion::Crossed { from, to, edge, x, .. } => {
            assert_eq!((from, to), (0, 1));
            assert_eq!(edge, Edge::Left);
            assert_eq!(x, 1000, "should arrive on the destination's left edge");
        }
        other => panic!("expected a crossing, got {other:?}"),
    }
    assert!(!l.is_local());
}

#[test]
fn handoff_is_reversible() {
    let mut l = pair();
    l.advance(600, 0);
    assert!(!l.is_local());
    match l.advance(-600, 0) {
        Motion::Crossed { from, to, edge, .. } => {
            assert_eq!((from, to), (1, 0));
            assert_eq!(edge, Edge::Right);
        }
        other => panic!("expected a crossing back, got {other:?}"),
    }
    assert!(l.is_local());
}

#[test]
fn vertical_position_is_preserved_proportionally() {
    // A 1000-tall screen handing off to a 500-tall one: leaving at 25% down
    // must arrive at 25% down, not at absolute row 250 of a shorter screen.
    let mut l = Layout::new(&[
        screen(Screen::LOCAL, "tall", 0, 0, 1000, 1000),
        screen(1, "short", 1000, 0, 1000, 500),
    ])
    .unwrap();
    l.advance(0, -250);
    match l.advance(600, 0) {
        Motion::Crossed { y, .. } => {
            assert!((120..=130).contains(&y), "arrived at y={y}, expected ~125");
        }
        other => panic!("expected a crossing, got {other:?}"),
    }
}

#[test]
fn pointer_is_clamped_at_the_desktop_boundary() {
    let mut l = pair();
    assert_eq!(l.advance(-9999, 0), Motion::Stayed { node: 0, x: 0, y: 500 });
    assert!(l.is_local(), "must not fall off the edge of the world");
}

#[test]
fn gaps_do_not_swallow_the_pointer() {
    let mut l = Layout::new(&[
        screen(Screen::LOCAL, "mac", 0, 0, 1000, 1000),
        screen(1, "far", 5000, 0, 1000, 1000),
    ])
    .unwrap();
    assert_eq!(l.advance(2000, 0), Motion::Stayed { node: 0, x: 999, y: 500 });
    assert!(l.is_local());
}

#[test]
fn diagonal_entry_picks_the_dominant_axis() {
    let mut l = Layout::new(&[
        screen(Screen::LOCAL, "mac", 0, 0, 1000, 1000),
        screen(1, "below", 0, 1000, 1000, 1000),
    ])
    .unwrap();
    match l.advance(50, 600) {
        Motion::Crossed { edge, .. } => assert_eq!(edge, Edge::Top),
        other => panic!("expected a crossing, got {other:?}"),
    }
}

#[test]
fn rejects_ambiguous_desktops() {
    assert_eq!(Layout::new(&[]).unwrap_err(), LayoutError::Empty);
    assert_eq!(
        Layout::new(&[screen(3, "remote-only", 0, 0, 100, 100)]).unwrap_err(),
        LayoutError::NoLocalScreen
    );
    assert_eq!(
        Layout::new(&[
            screen(Screen::LOCAL, "a", 0, 0, 1000, 1000),
            screen(1, "b", 999, 0, 1000, 1000),
        ])
        .unwrap_err(),
        LayoutError::Overlap
    );
    assert_eq!(
        Layout::new(&[
            screen(Screen::LOCAL, "a", 0, 0, 100, 100),
            screen(Screen::LOCAL, "b", 500, 0, 100, 100),
        ])
        .unwrap_err(),
        LayoutError::DuplicateNode(0)
    );
}

#[test]
fn rejects_more_screens_than_the_dongle_can_hold() {
    let many: [Screen; MAX_SCREENS + 1] =
        core::array::from_fn(|i| screen(i as u8, "s", i as i32 * 200, 0, 100, 100));
    assert_eq!(Layout::new(&many).unwrap_err(), LayoutError::TooMany);
}

#[test]
fn edge_ratio_round_trips_through_the_wire_type() {
    let s = screen(1, "s", 0, 0, 1920, 1080);
    for y in [0, 1, 539, 540, 1078, 1079] {
        let r = s.ratio_along(Edge::Left, 0, y);
        let (_, back) = s.point_on(Edge::Left, r);
        assert!((back - y).abs() <= 1, "y={y} came back as {back}");
    }
}

#[test]
fn errors_read_as_sentences() {
    assert_eq!(LayoutError::Empty.message(), "layout has no screens");
    assert_eq!(LayoutError::TooMany.message(), "layout has more than 5 screens");
    assert_eq!(LayoutError::NoLocalScreen.message(), "layout has no local screen (node 0)");
    assert_eq!(LayoutError::Overlap.message(), "two screens overlap in virtual space");
    assert_eq!(LayoutError::DuplicateNode(204).message(), "node id 204 is used by two screens");
}

#[test]
fn the_first_thing_wrong_is_the_one_reported() {
    let a = screen(0, "a", 0, 0, 100, 100);
    let b = screen(1, "b", 50, 0, 100, 100);
    let c = screen(0, "c", 500, 0, 100, 100);
    assert_eq!(Layout::check(&[a, b, c]), Some(LayoutError::Overlap));
    assert_eq!(Layout::check(&[a, c, b]), Some(LayoutError::DuplicateNode(0)));
    assert_eq!(Layout::check(&[a]), None);
    // Touching edges share no pixel.
    assert_eq!(Layout::check(&[a, screen(1, "b", 100, 0, 100, 100)]), None);
}

#[test]
fn the_pointer_is_on_the_active_screen_wherever_it_goes() {
    let mut l = Layout::new(&[
        screen(Screen::LOCAL, "mac", 0, 0, 300, 200),
        screen(1, "right", 300, 50, 100, 400),
        screen(2, "below", -100, 200, 250, 50),
    ])
    .unwrap();
    let steps = [(97, 13), (-31, 77), (250, -40), (-400, 90), (5, 160), (-180, -170), (350, 3)];
    for i in 0..200 {
        let (dx, dy) = steps[(i * 5 + i / 7) % steps.len()];
        assert!(l.can_advance(dx, dy));
        l.advance(dx, dy);
        let (x, y) = l.position();
        assert!(l.active().contains(x, y), "step {i} left the pointer at {x},{y}");
        assert_eq!(l.screens().iter().filter(|s| s.contains(x, y)).count(), 1);
    }
}

#[test]
fn a_one_pixel_edge_has_one_place() {
    let s = screen(1, "thin", 10, 20, 1, 1);
    assert_eq!(s.ratio_along(Edge::Left, 10, 20), 0);
    for e in [Edge::Left, Edge::Right, Edge::Top, Edge::Bottom] {
        assert_eq!(s.point_on(e, u16::MAX), (10, 20));
    }
}

#[test]
fn points_lie_on_their_edge() {
    let s = screen(1, "s", 100, 200, 50, 30);
    assert_eq!(s.point_on(Edge::Left, 0), (100, 200));
    assert_eq!(s.point_on(Edge::Right, u16::MAX), (149, 229));
    assert_eq!(s.point_on(Edge::Top, u16::MAX), (149, 200));
    assert_eq!(s.point_on(Edge::Bottom, 32768), (124, 229));
    assert_eq!(s.ratio_along(Edge::Top, 500, 0), u16::MAX, "past the end is the end");
}

#[test]
fn availability_takes_effect_on_the_next_motion() {
    let mut l = pair();
    l.set_available(0b1);
    assert_eq!(l.advance(600, 0), Motion::Stayed { node: 0, x: 999, y: 500 });
    l.set_available(0b10);
    assert!(matches!(l.advance(1, 0), Motion::Crossed { to: 1, .. }));
    l.set_available(0);
    assert!(matches!(l.advance(5, 0), Motion::Stayed { node: 1, .. }), "staying is no crossing");
}

#[test]
fn a_desktop_past_the_coordinates_is_noticed() {
    assert!(!Layout::can_start(&[screen(0, "far", i32::MAX, 0, 100, 1)]));
    assert!(Layout::can_start(&[screen(0, "near", i32::MAX - 50, 0, 100, 1)]));
    assert!(Layout::can_start(&[screen(1, "none", i32::MAX, 0, 100, 1)]), "it forms none");
}

#[test]
fn a_far_screen_past_the_coordinates_is_no_hindrance_here() {
    let mut l = Layout::new(&[
        screen(Screen::LOCAL, "mac", 0, 0, 1000, 1000),
        screen(1, "near", 1000, 0, 1000, 1000),
        screen(2, "far", i32::MAX - 50, 0, 100, 1000),
    ])
    .unwrap();
    assert!(l.can_advance(600, 0));
    assert!(matches!(l.advance(600, 0), Motion::Crossed { to: 1, .. }));
    assert!(l.can_advance(10, 3));
    // It arrived on row 499: 500 of 999 rounds down as a ratio, and again as a row.
    assert_eq!(l.advance(10, 3), Motion::Stayed { node: 1, x: 1010, y: 502 });
    // Its origin is reached, and its last pixel has no coordinate.
    assert!(!l.can_advance(i32::MAX - 1020, 0));
    assert!(l.can_advance(i32::MAX - 2000, 0));
    let at_the_end = Layout::new(&[screen(0, "end", i32::MAX - 50, 0, 100, 1)]).unwrap();
    assert!(!at_the_end.can_advance(-1, 0), "the active screen ends past them");
}
