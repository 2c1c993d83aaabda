//! First flash of a blank board.

use scurry::proto::kind;
use scurry::provision::{
    candidates, check_factory_image, speaks_scurry, Candidate, ImageError, Meter, Probe, APP_OFFSET,
};
use scurry::transport::Message;

const APP_DESC_MAGIC: [u8; 4] = [0x32, 0x54, 0xcd, 0xab];

fn image_with_app_desc_at(offset: usize) -> Vec<u8> {
    let mut v = vec![0u8; offset + 0x24];
    v[0] = 0xE9;
    v[offset + 0x20..offset + 0x24].copy_from_slice(&APP_DESC_MAGIC);
    v
}

#[test]
fn a_bare_app_image_is_refused() {
    let err = check_factory_image(&image_with_app_desc_at(0)).unwrap_err().message();
    assert!(err.contains("bare app image"), "{err}");
}

#[test]
fn a_factory_image_is_accepted() {
    check_factory_image(&image_with_app_desc_at(APP_OFFSET)).unwrap();
}

#[test]
fn anything_else_is_refused() {
    assert!(check_factory_image(b"<html>not a firmware</html>").is_err());
    assert!(check_factory_image(&[]).is_err());
    // 0xE9 alone is not enough: a bootloader with no app behind it would
    // flash and then boot into nothing.
    let mut truncated = vec![0u8; 0x40];
    truncated[0] = 0xE9;
    assert!(check_factory_image(&truncated).is_err());
}

#[test]
fn refusals_say_what_is_wrong() {
    assert_eq!(
        check_factory_image(&[1]).unwrap_err().message(),
        "that is not an ESP32 image (first byte is not 0xe9)"
    );
    assert_eq!(
        check_factory_image(&[0xE9]).unwrap_err(),
        ImageError::NoApp
    );
    assert_eq!(
        ImageError::NoApp.message(),
        "that image has no app at 0x20000; it is not a scurry factory image"
    );
}

fn port(name: &str, probe: Probe) -> (Candidate, Probe) {
    (Candidate { port: name.into(), product: Some(format!("on {name}")) }, probe)
}

#[test]
fn a_board_that_does_not_answer_is_a_candidate() {
    let pong = Message { kind: kind::PONG, payload: vec![] };
    let odd = Message { kind: kind::ACK, payload: vec![] };
    let ports = vec![
        port("/dev/tty.usbmodem1", Probe::Answered(None)),
        port("/dev/cu.usbmodem1", Probe::Answered(None)),
        port("/dev/cu.usbmodem2", Probe::Answered(Some(pong))),
        port("/dev/ttyACM0", Probe::Answered(Some(odd))),
        port("/dev/ttyACM1", Probe::Busy),
        port("/dev/ttyACM2", Probe::Unsent),
        port("/dev/ttyS0", Probe::Answered(None)),
    ];
    let found: Vec<String> = candidates(&ports).into_iter().map(|c| c.port).collect();
    assert_eq!(found, vec!["/dev/cu.usbmodem1", "/dev/ttyACM0", "/dev/ttyACM2"]);
    assert_eq!(candidates(&ports)[0].product.as_deref(), Some("on /dev/cu.usbmodem1"));
    assert!(speaks_scurry(&Probe::Busy));
}

#[test]
fn progress_is_reported_in_pairs() {
    let mut m = Meter { total: 0 };
    assert_eq!(m.init(10), (0, 10));
    assert_eq!(m.update(4), (4, 10));
    assert_eq!(m.finish(), (10, 10));
}
