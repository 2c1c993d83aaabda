//! Layouts as they are written down.

use scurry::config::{parse_bda, Config, InputConfig, ScreenConfig};

fn sample() -> Config {
    Config {
        screens: vec![
            ScreenConfig {
                name: "mac".into(),
                node: 0,
                x: 0,
                y: 0,
                width: 1512,
                height: 982,
                address: None,
                input: None,
            },
            ScreenConfig {
                name: "chromebook".into(),
                node: 1,
                x: 1512,
                y: 0,
                width: 1920,
                height: 1080,
                address: Some("f0:68:e3:e5:d1:b1".into()),
                input: Some(InputConfig {
                    modifiers: Some("swap-gui-ctrl".into()),
                    mouse_scale: Some(150),
                    ..Default::default()
                }),
            },
        ],
    }
}

#[test]
fn payload_roundtrips() {
    let cfg = sample();
    let back = Config::from_payload(&cfg.to_payload().unwrap()).unwrap();
    assert_eq!(back.screens.len(), 2);
    assert_eq!(back.screens[1].name, "chromebook");
    assert_eq!(back.screens[1].width, 1920);
    assert_eq!(back.screens[0].node, 0);
}

#[test]
fn rejects_layouts_the_dongle_would_reject() {
    // Overlapping screens: containment would be ambiguous, so handoff would
    // be non-deterministic. Caught here rather than as a bare ack.
    let mut cfg = sample();
    cfg.screens[1].x = 1000;
    assert!(cfg.to_payload().is_err());

    // No local screen at all.
    let mut cfg = sample();
    cfg.screens[0].node = 2;
    assert!(cfg.to_payload().is_err());

    // A zero-size screen would make the ratio arithmetic meaningless.
    let mut cfg = sample();
    cfg.screens[1].height = 0;
    assert!(cfg.to_payload().is_err());
}

#[test]
fn addresses_survive_the_round_trip() {
    let cfg = sample();
    let back = Config::from_payload(&cfg.to_payload().unwrap()).unwrap();
    assert_eq!(back.screens[1].address.as_deref(), Some("f0:68:e3:e5:d1:b1"));
    // An unpinned screen must come back unpinned, not as all-zeroes text.
    assert_eq!(back.screens[0].address, None);
}

#[test]
fn input_profiles_survive_the_round_trip() {
    let back = Config::from_payload(&sample().to_payload().unwrap()).unwrap();
    let input = back.screens[1].input.as_ref().expect("profile should survive");
    assert_eq!(input.modifiers.as_deref(), Some("swap-gui-ctrl"));
    assert_eq!(input.mouse_scale, Some(150));
    // An untranslated screen must come back with no profile rather than an
    // explicit identity, so the file stays as short as what was written.
    assert!(back.screens[0].input.is_none());
}

#[test]
fn rejects_settings_that_would_break_the_pointer() {
    let bad = InputConfig { mouse_scale: Some(0), ..Default::default() };
    assert!(bad.to_profile().is_err(), "a zero scale would freeze the pointer");

    let typo = InputConfig { modifiers: Some("swap_gui_ctrl".into()), ..Default::default() };
    assert!(typo.to_profile().is_err(), "a misspelled mode must not silently do nothing");
}

#[test]
fn address_parsing_accepts_both_spellings() {
    let want = [0xf0, 0x68, 0xe3, 0xe5, 0xd1, 0xb1];
    assert_eq!(parse_bda("f0:68:e3:e5:d1:b1").unwrap(), want);
    // The dongle's own logs print addresses unseparated.
    assert_eq!(parse_bda("f068e3e5d1b1").unwrap(), want);
    assert!(parse_bda("f0:68:e3").is_err());
    assert!(parse_bda("zz:68:e3:e5:d1:b1").is_err());
}

#[test]
fn short_payload_is_an_error_not_a_panic() {
    assert!(Config::from_payload(&[]).is_err());
    assert!(Config::from_payload(&[2, 0, 0]).is_err(), "claims 2 screens, carries none");
}

#[test]
fn each_thing_wrong_has_its_sentence() {
    let mut cfg = sample();
    cfg.screens[1].height = -3;
    assert_eq!(
        cfg.validate().unwrap_err().message(),
        "screen \"chromebook\" has a non-positive size"
    );
    let mut cfg = sample();
    cfg.screens[1].node = 0;
    assert_eq!(cfg.validate().unwrap_err().message(), "node id 0 is used by two screens");
    let mut cfg = sample();
    cfg.screens[1].address = Some("f0:68\n".into());
    assert_eq!(
        cfg.to_payload().unwrap_err().message(),
        "\"f0:68\\n\" is not a Bluetooth address (need 12 hex digits, got 4)"
    );
    let mut cfg = sample();
    for i in 2..6 {
        let mut s = cfg.screens[1].clone();
        s.node = i;
        cfg.screens.push(s);
    }
    assert_eq!(
        cfg.to_payload().unwrap_err().message(),
        "6 screens declared, the dongle holds at most 5"
    );
    let typo = InputConfig { modifiers: Some("swap".into()), ..Default::default() };
    assert_eq!(
        typo.to_profile().unwrap_err().message(),
        "unknown modifiers mode \"swap\": use identity or swap-gui-ctrl"
    );
    let zero = InputConfig { mouse_scale: Some(0), ..Default::default() };
    assert_eq!(
        zero.to_profile().unwrap_err().message(),
        "mouse_scale of 0 would freeze the pointer"
    );
    assert_eq!(Config::from_payload(&[]).unwrap_err().message(), "empty config payload");
    assert_eq!(
        Config::from_payload(&[9]).unwrap_err().message(),
        "dongle reported 9 screens, more than the 5 maximum"
    );
    assert_eq!(
        Config::from_payload(&[2, 0, 0]).unwrap_err().message(),
        "config payload is short: 3 bytes for 2 screens"
    );
    assert_eq!(
        Config::load(Config::default()).unwrap_err().message(),
        "layout declares no screens"
    );
    assert_eq!(Config::load(sample()).unwrap().screens.len(), 2);
}

#[test]
fn flags_and_modifiers_make_a_profile() {
    let all = InputConfig {
        mouse_scale: None,
        invert_x: true,
        invert_y: true,
        natural_scroll: true,
        swap_buttons: true,
        modifiers: Some("identity".into()),
    };
    let p = all.to_profile().unwrap();
    assert_eq!((p.mouse_scale_pct, p.mouse_flags), (100, 15));
    let back = InputConfig::from_profile(&p).unwrap();
    assert!(back.invert_x && back.invert_y && back.natural_scroll && back.swap_buttons);
    assert_eq!((back.mouse_scale, back.modifiers.clone()), (None, None));
    assert_eq!(back.to_profile().unwrap(), p);
}

#[test]
fn a_layout_read_back_goes_on_the_wire_as_it_came() {
    let p = sample().to_payload().unwrap();
    let again = Config::from_payload(&p).unwrap().to_payload().unwrap();
    assert_eq!(again, p);
    assert_eq!(p.len(), 103);
    assert_eq!(p[0], 2);
}

#[test]
fn an_address_written_down_reads_the_same() {
    let a = [0x00, 0x0f, 0xf0, 0x9a, 0xab, 0xff];
    assert_eq!(scurry::config::format_bda(a), "00:0f:f0:9a:ab:ff");
    assert_eq!(parse_bda("00:0F:f0:9A:ab:FF").unwrap(), a);
}

#[test]
fn an_address_of_zeros_comes_back_unpinned() {
    let mut cfg = sample();
    cfg.screens[1].address = Some("00:00:00:00:00:00".into());
    let back = Config::from_payload(&cfg.to_payload().unwrap()).unwrap();
    assert_eq!(back.screens[1].address, None);
}
