//! The command line.

use scurry::ctl::{
    app_answer, dongle_answer, firmware_lines, has_layout, name, no_answer, parse_args, probe_line,
    status_lines, stored, test_line, test_step, Answer, Command,
};
use scurry::proto::{ack, kind, FirmwareInfo, SlotStatus};
use scurry::transport::Message;
use scurry::update::Release;

fn args(v: &[&str]) -> Vec<String> {
    v.iter().map(|s| s.to_string()).collect()
}

fn command(v: &[&str]) -> Option<Command> {
    parse_args(&args(v)).map(|i| i.command)
}

#[test]
fn commands_are_read_off_the_arguments() {
    assert!(matches!(command(&["run"]), Some(Command::Run)));
    assert!(matches!(command(&["probe", "x"]), Some(Command::Probe)));
    assert!(matches!(command(&["status"]), Some(Command::Status)));
    assert!(matches!(command(&["get-config"]), Some(Command::GetConfig)));
    assert!(matches!(command(&["set-config", "f"]), Some(Command::SetConfig(f)) if f == "f"));
    assert!(matches!(command(&["ping"]), Some(Command::Ping)));
    assert!(matches!(command(&["test-move"]), Some(Command::TestMove)));
    assert!(matches!(command(&["firmware"]), Some(Command::Firmware)));
    assert!(matches!(command(&["flash"]), Some(Command::Flash(None))));
    assert!(
        matches!(command(&["flash", "--file", "f"]), Some(Command::Flash(Some(f))) if f == "f")
    );
    for none in
        [&["set-config"][..], &["Run"][..], &[][..], &["flash", "f"][..], &["flash", "--file"][..]]
    {
        assert!(command(none).is_none());
    }
}

#[test]
fn the_wireless_flag_may_stand_anywhere() {
    for v in [&["--wireless", "status"][..], &["status", "--wireless"][..]] {
        let i = parse_args(&args(v)).unwrap();
        assert!(i.wireless && matches!(i.command, Command::Status));
    }
    assert!(!parse_args(&args(&["status"])).unwrap().wireless);
    assert!(parse_args(&args(&["--wireless"])).is_none());
}

#[test]
fn the_firmware_is_compared_with_the_latest_release() {
    let mut version = [0u8; 32];
    version[..6].copy_from_slice(b"v0.1.0");
    let info = FirmwareInfo { version, pending_verify: false, ota_capable: true };
    let release = |tag: &str| {
        Ok(Release {
            tag: tag.into(),
            firmware_url: "u".into(),
            factory_url: None,
            checksums_url: None,
        })
    };
    let (first, second) = firmware_lines(&info, &release("v0.2.0"));
    assert_eq!((first.as_str(), second.as_str()), ("Dongle is running v0.1.0", "v0.2.0 is available."));
    assert_eq!(
        firmware_lines(&info, &release("v0.1.0")).1,
        "Up to date. Latest release is v0.1.0."
    );
    assert_eq!(
        firmware_lines(&info, &Err("offline".to_string())).1,
        "Could not check for releases: offline"
    );
    let blank = FirmwareInfo { version: [0; 32], ..info };
    assert_eq!(
        firmware_lines(&blank, &release("v0.1.0")).0,
        "Dongle is running an unversioned build"
    );
}

#[test]
fn a_refusal_reads_as_a_sentence() {
    let m = app_answer(kind::PING, kind::PONG, kind::PONG, vec![]).unwrap();
    assert_eq!(m.kind, kind::PONG);
    assert_eq!(
        app_answer(kind::GET_CONFIG, kind::CONFIG, kind::ACK, vec![1]).unwrap_err(),
        "bad request"
    );
    assert_eq!(
        app_answer(kind::GET_STATUS, kind::STATUS, kind::FOCUS, vec![1]).unwrap_err(),
        "the app answered a status request with a 0x06 message"
    );
    let ack = |p: Vec<u8>| Message { kind: kind::ACK, payload: p };
    assert!(matches!(dongle_answer(kind::ACK, ack(vec![0])), Answer::Done(_)));
    assert!(matches!(
        dongle_answer(kind::CONFIG, ack(vec![2])),
        Answer::Refused(t) if t == "the dongle refused the request: invalid layout"
    ));
    let focus = Message { kind: kind::FOCUS, payload: vec![1] };
    assert!(matches!(dongle_answer(kind::CONFIG, focus), Answer::Other));
    assert_eq!(
        no_answer(kind::SET_CONFIG, 3),
        "the dongle did not answer a layout write within 3s"
    );
    assert_eq!(no_answer(kind::PING, 45), "the dongle did not answer a ping within 45s");
    assert_eq!(name(kind::GET_CONFIG), "request for the layout");
    assert_eq!(name(kind::MOUSE), "request");
}

#[test]
fn slots_are_listed_in_columns() {
    let mut p = vec![0u8; 17];
    p[0] = 2;
    SlotStatus { slot: 0, connected: true, bda: [0xf0, 1, 2, 3, 4, 5] }.encode_into(&mut p[1..]);
    SlotStatus { slot: 255, connected: false, bda: [0; 6] }.encode_into(&mut p[9..]);
    assert_eq!(
        status_lines(&p).unwrap(),
        vec![
            "node   connected   address",
            "1      yes         f0:01:02:03:04:05",
            "256    no          -",
        ]
    );
    assert_eq!(status_lines(&[]).unwrap_err(), "empty status payload");
    assert_eq!(status_lines(&[3]).unwrap().len(), 1);
}

#[test]
fn ports_and_layouts_are_told_apart() {
    assert_eq!(probe_line("/dev/ttyACM0"), "/dev/ttyACM0 <- dongle");
    assert_eq!(probe_line("/dev/tty.usbmodem1"), "/dev/tty.usbmodem1");
    assert!(has_layout(&[1]) && !has_layout(&[0]) && !has_layout(&[]));
    assert_eq!(stored(&[ack::OK], 12).unwrap(), "stored 12 screens on the dongle");
    assert_eq!(
        stored(&[ack::STORAGE_FAILED], 1).unwrap_err(),
        "the layout was not stored: storage failed"
    );
    assert_eq!(stored(&[], 1).unwrap_err(), "the layout was not stored: bad request");
}

#[test]
fn synthetic_motion_goes_there_and_back() {
    assert_eq!((test_step(true).dx, test_step(false).dx), (12, -12));
    assert_eq!(test_line(kind::FOCUS, &[2]), "FOCUS -> node 2");
    assert_eq!(test_line(kind::FOCUS, &[]), "FOCUS -> node 255");
    assert_eq!(test_line(0x15, &[0, 0]), "message kind 0x15, 2 bytes");
}
