//! Which link to use.

use scurry::tray::attach::{decide_attach, Attach};

#[test]
fn a_cable_appearing_beats_a_healthy_wireless_link() {
    // The whole point of the fourth argument: 0.3ms is available and the
    // app is using 17ms. Health is not the same as being the right link.
    assert!(matches!(decide_attach(true, false, true), Attach::Reopen));
}

#[test]
fn a_healthy_link_with_no_cable_is_left_alone() {
    assert!(matches!(decide_attach(true, false, false), Attach::Hold));
}

#[test]
fn nothing_attached_looks_for_a_dongle() {
    assert_eq!(decide_attach(false, false, false), Attach::Open);
}

#[test]
fn a_healthy_link_is_left_alone() {
    // Reopening a working port on every poll would drop the fd the control
    // socket and the tap are using, twice a second.
    assert_eq!(decide_attach(true, false, false), Attach::Hold);
}

#[test]
fn a_dead_link_is_reopened_rather_than_held() {
    // After an unplug the handle is still held, so being attached says nothing
    // about health.
    assert_eq!(decide_attach(true, true, false), Attach::Reopen);
}

#[test]
fn a_failure_without_a_link_still_opens_from_scratch() {
    // A failure latched from a link that was never replaced must not stop
    // the ordinary first-attach path from running.
    assert_eq!(decide_attach(false, true, false), Attach::Open);
}
