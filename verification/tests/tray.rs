//! The tray, its menu and its settings window.

use scurry::config::{Config, ScreenConfig};
use scurry::ipc::local;
use scurry::proto::{ack, kind, FirmwareInfo, ScreenWire, SlotStatus, SCREEN_WIRE_LEN};
use scurry::provision::Candidate;
use scurry::tray::attach::{CableLook, CaptureRetry, CaptureTry, Find, ScanLook, Search};
use scurry::tray::daemon::{self, Command, Platform};
use scurry::tray::firmware::{
    accept_reply, after_latest, finished, first_step, is_provisioning, preparing, read_failure,
    FirmwarePane, PaneAction, PaneItem, Progress, Source, Step,
};
use scurry::tray::icon::{icon, IconError};
use scurry::tray::login::{self, Change};
use scurry::tray::menu::{
    build_menu, pairing_outcome, pairing_request, says_the_same, shown, Entry, Snapshot,
};
use scurry::tray::settings::{edited_address, next_node, Settings};
use scurry::tray::status::{load_config, save_config, Replies, ScreenInfo, Status};
use scurry::update::Release;

fn info(name: &str, node: u8) -> ScreenInfo {
    ScreenInfo { name: name.into(), node, width: 1920, height: 1080 }
}

fn slot(slot: u8, connected: bool) -> SlotStatus {
    SlotStatus { slot, connected, bda: [1, 2, 3, 4, 5, 6] }
}

fn ready(focus: u8) -> Snapshot {
    Snapshot::Ready {
        focus,
        screens: vec![info("mac", 0), info("linux", 1), info("pc", 2)],
        slots: vec![slot(0, true), slot(1, false), slot(255, true)],
    }
}

fn texts(menu: &[Entry]) -> Vec<String> {
    menu.iter()
        .map(|e| match e {
            Entry::Separator => "-".to_string(),
            Entry::Label(t) => t.clone(),
            Entry::Item { text, enabled, .. } => format!("[{text}] {enabled}"),
            Entry::Check { text, checked, .. } => format!("<{text}> {checked}"),
        })
        .collect()
}

#[test]
fn the_menu_says_how_things_stand() {
    assert_eq!(
        texts(&build_menu(&ready(1), false, true)),
        vec![
            "Pointer on linux",
            "Connected by cable",
            "-",
            "mac  ·  1920×1080  ·  this machine",
            "linux  ·  1920×1080  ·  connected",
            "pc  ·  1920×1080  ·  offline",
            "-",
            "[Settings…] true",
            "[Pair a wireless controller…] true",
            "<Open at Login> true",
            "-",
            "[Quit scurry] true",
        ]
    );
    let away = texts(&build_menu(&ready(9), true, false));
    assert_eq!(&away[..2], &["Pointer on node 9", "Connected over Bluetooth"]);
    assert!(away.contains(&"[Pair a wireless controller (needs the cable)] false".to_string()));
    assert_eq!(texts(&build_menu(&ready(0), false, false))[0], "Pointer here");
}

#[test]
fn without_a_dongle_there_is_little_to_do() {
    let menu = texts(&build_menu(&Snapshot::NoDongle, false, false));
    assert_eq!(
        menu,
        vec![
            "No dongle connected",
            "-",
            "[Settings…] false",
            "[Pair a wireless controller…] false",
            "<Open at Login> false",
            "-",
            "[Quit scurry] true",
        ]
    );
    let waiting = texts(&build_menu(&Snapshot::NeedsPermission, false, false));
    assert_eq!(waiting[0], "Waiting for Accessibility access");
    let empty = Snapshot::Ready { focus: 0, screens: vec![], slots: vec![] };
    assert_eq!(texts(&build_menu(&empty, false, false))[2], "-");
    assert_eq!(build_menu(&empty, false, false).len(), 8);
}

#[test]
fn a_dead_link_reads_as_no_dongle() {
    assert!(matches!(shown(false, false, true, ready(0)), Snapshot::NoDongle));
    assert!(matches!(shown(true, true, true, ready(0)), Snapshot::NoDongle));
    assert!(matches!(shown(true, false, false, ready(0)), Snapshot::NeedsPermission));
    assert!(says_the_same(&shown(true, false, true, ready(1)), &ready(1)));
}

#[test]
fn a_menu_is_rebuilt_only_for_a_change() {
    assert!(says_the_same(&ready(1), &ready(1)));
    assert!(!says_the_same(&ready(1), &ready(2)));
    assert!(!says_the_same(&ready(1), &Snapshot::NoDongle));
    assert!(says_the_same(&Snapshot::NeedsPermission, &Snapshot::NeedsPermission));
    let mut other = ready(1);
    if let Snapshot::Ready { slots, .. } = &mut other {
        slots[0].connected = false;
    }
    assert!(!says_the_same(&ready(1), &other));
    let mut other = ready(1);
    if let Snapshot::Ready { screens, .. } = &mut other {
        screens[1].name.push('x');
    }
    assert!(!says_the_same(&ready(1), &other));
}

#[test]
fn pairing_lasts_a_minute() {
    assert_eq!(pairing_request(), [1, 60]);
    assert!(pairing_outcome(&[ack::OK]).starts_with("pairing window open for 60s"));
    assert_eq!(
        pairing_outcome(&[ack::BAD_REQUEST]),
        "the dongle refused to open the window: bad request"
    );
}

#[test]
fn the_cable_is_preferred_and_scans_are_rationed() {
    let mut s = Search { searching: false, next_scan: 0 };
    assert_eq!(s.find_link(CableLook::Busy, ScanLook::Running, 5), Find::Wait);
    assert_eq!(s.find_link(CableLook::Absent, ScanLook::Running, 5), Find::Scan);
    assert_eq!(s.find_link(CableLook::Absent, ScanLook::Running, 6), Find::Wait);
    assert_eq!(s.find_link(CableLook::Absent, ScanLook::Nothing, 7), Find::Wait);
    assert_eq!(s, Search { searching: false, next_scan: 20_007 });
    assert_eq!(s.find_link(CableLook::Absent, ScanLook::Running, 20_006), Find::Wait);
    assert_eq!(s.find_link(CableLook::Absent, ScanLook::Running, 20_007), Find::Scan);
    assert_eq!(s.find_link(CableLook::Absent, ScanLook::Found, 20_008), Find::Wireless);
    assert!(!s.searching);
    s.searching = true;
    assert_eq!(s.find_link(CableLook::Opened, ScanLook::Running, 9), Find::Cable);
    assert!(!s.searching);
    s.searching = true;
    assert_eq!(s.find_link(CableLook::Absent, ScanLook::Lost, u64::MAX), Find::Wait);
    assert_eq!(s.next_scan, u64::MAX);
}

#[test]
fn capture_is_retried_less_and_less() {
    let mut c = CaptureRetry { next_try: 0, backoff: 2000 };
    assert!(c.is_due(true, false, 0));
    assert!(!c.is_due(false, false, 0));
    assert!(!c.is_due(true, true, 0));
    c.tried(CaptureTry::Untrusted, 100);
    assert_eq!(c, CaptureRetry { next_try: 2100, backoff: 2000 });
    assert!(!c.is_due(true, false, 2099));
    for want in [4000, 8000, 16_000, 32_000, 60_000, 60_000] {
        let wait = c.backoff;
        c.tried(CaptureTry::Failed, 0);
        assert_eq!(c, CaptureRetry { next_try: wait, backoff: want });
    }
    c.tried(CaptureTry::Started, 0);
    assert_eq!(c.backoff, 2000);
}

fn config_payload() -> Vec<u8> {
    let mut out = vec![0u8; 1 + SCREEN_WIRE_LEN];
    out[0] = 1;
    ScreenWire::with_name(0, "mac", 0, 0, 1512, 982).encode_into(&mut out[1..]);
    out
}

fn status_payload() -> Vec<u8> {
    let mut out = vec![0u8; 1 + 2 * 8 + 3];
    out[0] = 4;
    slot(0, true).encode_into(&mut out[1..]);
    slot(1, false).encode_into(&mut out[9..]);
    out
}

#[test]
fn the_tray_shows_what_was_answered() {
    let none = Status::fetch(None);
    assert!(!none.daemon_running);
    let replies = Replies {
        daemon: Some((local::DAEMON_STATUS, vec![2, 1])),
        status: Some((kind::STATUS, status_payload())),
        config: Some((kind::CONFIG, config_payload())),
    };
    let s = Status::fetch(Some(&replies));
    assert!(s.daemon_running);
    assert_eq!(s.focus, 2);
    assert_eq!(s.slots, vec![slot(0, true), slot(1, false)], "only what arrived whole");
    assert_eq!(s.screens.len(), 1);
    assert_eq!((s.screen_name(0), s.screen_name(7)), ("mac".into(), "node 7".into()));
    let odd = Replies {
        daemon: Some((kind::ACK, vec![9])),
        status: Some((kind::STATUS, vec![])),
        config: Some((kind::CONFIG, vec![1])),
    };
    let s = Status::fetch(Some(&odd));
    assert!(s.daemon_running);
    assert_eq!((s.focus, s.slots.len(), s.screens.len()), (0, 0, 0));
}

#[test]
fn the_layout_is_read_and_written_through_the_daemon() {
    assert_eq!(load_config(kind::CONFIG, &config_payload()).unwrap().screens[0].name, "mac");
    assert_eq!(
        load_config(kind::ACK, &[1]).unwrap_err().message(),
        "unexpected reply 0x15 to a config request"
    );
    assert_eq!(load_config(kind::CONFIG, &[]).unwrap_err().message(), "empty config payload");
    assert!(save_config(kind::ACK, &[ack::OK]).is_ok());
    for (kind, payload, text) in [
        (kind::CONFIG, vec![0u8], "unexpected reply 0x11 to a config write"),
        (kind::ACK, vec![ack::INVALID_LAYOUT], "the dongle rejected the layout"),
        (kind::ACK, vec![ack::STORAGE_FAILED], "the dongle could not store the layout"),
        (kind::ACK, vec![], "the dongle refused the request"),
    ] {
        assert_eq!(save_config(kind, &payload).unwrap_err().message(), text);
    }
}

#[test]
fn a_new_row_takes_the_next_free_node() {
    let mut s = Settings::new();
    for want in [1u8, 2, 3, 4, 1] {
        assert_eq!(next_node(&s.screens), want);
        s.add_screen();
        let last = s.screens.last().unwrap();
        assert_eq!((last.node, last.width, last.height), (want, 1920, 1080));
        assert_eq!(last.name, format!("machine {want}"));
    }
    assert!(s.can_remove(1));
    assert!(!s.can_remove(5));
    s.remove(1);
    assert_eq!(next_node(&s.screens), 2);
    s.screens[0].node = 0;
    assert!(!s.can_remove(0), "a layout without the local screen is rejected");
}

#[test]
fn an_empty_address_is_unpinned() {
    assert_eq!(edited_address(" \t\u{3000}"), None);
    assert_eq!(edited_address(" aa:bb ").as_deref(), Some("aa:bb"));
    let mut s = Settings::new();
    s.add_screen();
    s.set_address(0, " f0 ");
    assert_eq!(s.screens[0].address.as_deref(), Some("f0"));
    s.set_address(0, "");
    assert_eq!(s.screens[0].address, None);
}

#[test]
fn loading_and_saving_are_reported() {
    let mut s = Settings::new();
    s.loaded(Ok(Config { screens: Vec::<ScreenConfig>::new() }));
    assert_eq!(s.message, Some(Ok("Loaded 0 screens".to_string())));
    s.add_screen();
    s.loaded(Err("no".into()));
    assert_eq!((s.message.clone(), s.screens.len()), (Some(Err("no".to_string())), 1));
    s.saved(Ok(()));
    assert_eq!(s.message, Some(Ok("Saved to the dongle".to_string())));
    s.saved(Err("full".into()));
    assert_eq!(s.message, Some(Err("full".to_string())));
}

fn release() -> Release {
    Release {
        tag: "v0.2.0".into(),
        firmware_url: "u".into(),
        factory_url: None,
        checksums_url: None,
    }
}

fn running(version: &str, ota_capable: bool) -> FirmwareInfo {
    let mut v = [0u8; 32];
    v[..version.len()].copy_from_slice(version.as_bytes());
    FirmwareInfo { version: v, pending_verify: !ota_capable, ota_capable }
}

fn items(p: &FirmwarePane) -> Vec<String> {
    p.ui()
        .iter()
        .map(|i| match i {
            PaneItem::Separator => "-".to_string(),
            PaneItem::Text(t) => t.clone(),
            PaneItem::Mono(t) => format!("`{t}`"),
            PaneItem::Weak(t) => format!("({t})"),
            PaneItem::Button { label, enabled, .. } => format!("[{label}] {enabled}"),
            PaneItem::PathField => "path".to_string(),
            PaneItem::Spinner => "spin".to_string(),
            PaneItem::Bar { sent, total } => format!("{sent}/{total}"),
            PaneItem::Good(t) => format!("+{t}"),
            PaneItem::Bad(t) => format!("!{t}"),
        })
        .collect()
}

#[test]
fn the_pane_offers_what_can_be_installed() {
    let mut p = FirmwarePane::default();
    assert_eq!(
        items(&p),
        vec![
            "Not connected to a dongle.",
            "[Check again] true",
            "-",
            "No new board plugged in.",
            "[Look again] true",
        ]
    );
    assert!(!p.refresh(vec![], Err("busy".into())));
    assert_eq!(items(&p)[0], "Could not ask the dongle: busy");
    assert!(p.refresh(vec![], Ok(running("v0.1.0", true))));
    assert_eq!(&items(&p)[2..4], &["Release not checked yet.", "[Check for updates] true"]);
    p.checked(Err("offline".into()));
    assert_eq!(items(&p)[2], "Could not check for releases: offline");
    p.checked(Ok(release()));
    p.local_path = " a.bin ".into();
    assert_eq!(
        items(&p),
        vec![
            "Dongle is running v0.1.0",
            "-",
            "v0.2.0 is available.",
            "[Install update] true",
            "-",
            "Or install a local image — drag a .bin onto this window, or type its path:",
            "path",
            "[Install file] true",
            "-",
            "No new board plugged in.",
            "[Look again] true",
        ]
    );
    p.progress = Progress::Sending { sent: 1, total: 4 };
    p.info = Some(running("v0.2.0", true));
    let busy = items(&p);
    assert_eq!(&busy[2..4], &["Up to date. Latest release is v0.2.0.", "[Reinstall] false"]);
    assert!(busy.contains(&"[Install file] false".to_string()));
    assert_eq!(&busy[busy.len() - 3..], &["-", "1/4", "Do not unplug the dongle."]);
}

#[test]
fn a_single_slot_is_offered_nothing() {
    let mut p = FirmwarePane::default();
    p.refresh(vec![], Ok(running("", false)));
    let shown = items(&p);
    assert_eq!(shown.len(), 3);
    assert_eq!(shown[0], "Dongle is running an unversioned build");
    assert!(shown[1].starts_with("This image has not confirmed itself yet."));
    assert!(shown[2].starts_with("This build has a single app slot"));
}

#[test]
fn progress_is_shown_as_it_is() {
    let mut p = FirmwarePane::default();
    let tail = |p: &FirmwarePane| items(p)[5..].to_vec();
    p.progress = Progress::Working("Reading".into());
    assert_eq!(tail(&p), vec!["-", "Reading", "spin"]);
    p.progress = Progress::Done("ok".into());
    assert_eq!(tail(&p), vec!["-", "+ok"]);
    p.progress = Progress::Failed("no".into());
    assert_eq!(tail(&p), vec!["-", "!no"]);
}

#[test]
fn a_blank_board_can_be_flashed() {
    let mut p = FirmwarePane::default();
    let board = |port: &str, product: Option<&str>| Candidate {
        port: port.into(),
        product: product.map(str::to_string),
    };
    p.refresh(vec![board("A", None), board("B", Some("C3"))], Err("x".into()));
    let shown = items(&p);
    assert_eq!(
        &shown[3..8],
        &["New board — not running scurry yet:", "`A`", "[Flash scurry onto it] true", "`B`", "(C3)"]
    );
    match p.source_for(PaneAction::Flash(1)) {
        Some(Source::Provision { port, file }) => assert_eq!((port.as_str(), file), ("B", None)),
        other => panic!("expected a board, got {other:?}"),
    }
    p.local_path = " f.bin ".into();
    assert!(matches!(
        p.source_for(PaneAction::Flash(0)),
        Some(Source::Provision { file: Some(f), .. }) if f == "f.bin"
    ));
    assert!(p.source_for(PaneAction::Flash(2)).is_none());
    assert!(p.source_for(PaneAction::Install).is_none());
    assert!(matches!(p.source_for(PaneAction::InstallFile), Some(Source::File(f)) if f == "f.bin"));
    p.checked(Ok(release()));
    assert!(
        matches!(p.source_for(PaneAction::Install), Some(Source::Release(r)) if r.tag == "v0.2.0")
    );
}

#[test]
fn each_source_has_its_first_step() {
    let says = |p: Progress| match p {
        Progress::Working(t) => t,
        other => panic!("expected work, got {other:?}"),
    };
    assert_eq!(says(preparing()), "Preparing…");
    let (step, p) = first_step(&Source::Release(release()));
    assert!(matches!(step, Step::DownloadFirmware(r) if r.firmware_url == "u"));
    assert_eq!(says(p), "Downloading v0.2.0…");
    let (step, p) = first_step(&Source::File("f".into()));
    assert!(matches!(step, Step::ReadFile(f) if f == "f"));
    assert_eq!(says(p), "Reading the image…");
    let blank = Source::Provision { port: "A".into(), file: None };
    assert!(is_provisioning(&blank));
    let (step, p) = first_step(&blank);
    assert!(matches!(step, Step::FindLatest));
    assert_eq!(says(p), "Finding the latest release…");
    let (step, p) = after_latest(&release());
    assert!(matches!(step, Step::DownloadFactory(r) if r.tag == "v0.2.0"));
    assert_eq!(says(p), "Downloading v0.2.0…");
    assert_eq!(read_failure("f", "denied"), "reading f: denied");
    assert!(matches!(finished(false, Ok(())), Progress::Done(t) if t.starts_with("Installed.")));
    assert!(matches!(finished(true, Ok(())), Progress::Done(t) if t.starts_with("Flashed.")));
    assert!(matches!(finished(true, Err("e".into())), Progress::Failed(t) if t == "e"));
    assert!(accept_reply(kind::ACK, kind::FIRMWARE).is_ok());
    assert_eq!(
        accept_reply(kind::PONG, kind::FIRMWARE).unwrap_err(),
        "the app answered with a 0x05 message"
    );
}

#[test]
fn login_entries_point_at_the_program() {
    let agent = login::launch_agent("/Applications/scurry");
    assert!(agent.starts_with("<?xml version=\"1.0\" encoding=\"UTF-8\"?>\n<!DOCTYPE plist"));
    assert!(agent.contains("<string>com.ananthb.scurry</string>"));
    assert!(agent.contains("    <string>/Applications/scurry</string>\n  </array>\n"));
    assert!(!agent.contains("KeepAlive"));
    assert!(agent.ends_with("</dict>\n</plist>\n"));
    assert_eq!(
        login::autostart_entry("[x]\nExec=scurry-tray\nTryExec=scurry-tray %u", "/bin/s"),
        "[x]\nExec=/bin/s\nTryExec=/bin/s %u"
    );
    assert!(login::enabled(Some(true)) && !login::enabled(Some(false)) && !login::enabled(None));
    assert!(login::toggle(false) && !login::toggle(true));
    assert_eq!(login::set(Platform::MacOs, true, true), Change::WriteAgent);
    assert_eq!(login::set(Platform::MacOs, false, true), Change::RemoveAgent);
    assert_eq!(login::set(Platform::Linux, true, true), Change::WriteEntry);
    assert_eq!(login::set(Platform::Linux, false, true), Change::RemoveEntry);
    for (change, text) in [
        (login::set(Platform::MacOs, true, false), "no HOME to place a LaunchAgent in"),
        (login::set(Platform::Linux, true, false), "no config directory for an autostart entry"),
        (login::set(Platform::Other, true, true), "open at login is not supported on this platform"),
    ] {
        assert_eq!(change.failure().as_deref(), Some(text));
    }
    assert_eq!(Change::WriteAgent.failure(), None);
}

fn line(c: &Command) -> String {
    format!("{} {}", c.program, c.args.join(" "))
}

#[test]
fn the_service_manager_is_driven_by_name() {
    let mac = daemon::start(Platform::MacOs, 501).unwrap();
    assert_eq!(line(&mac), "launchctl kickstart gui/501/com.ananthb.scurry");
    let load = daemon::bootstrap(501, Some("/p.plist")).unwrap();
    assert_eq!(line(&load), "launchctl bootstrap gui/501 /p.plist");
    assert_eq!(
        daemon::bootstrap(501, None).unwrap_err().message(),
        "no LaunchAgent at ~/Library/LaunchAgents/com.ananthb.scurry.plist"
    );
    let (stop, start) = daemon::restart(Platform::Linux, 0);
    assert_eq!(line(&stop.unwrap()), "systemctl --user stop scurry");
    assert_eq!(line(&start.unwrap()), "systemctl --user start scurry");
    let stop = daemon::stop(Platform::MacOs, 7).unwrap();
    assert_eq!(line(&stop), "launchctl bootout gui/7/com.ananthb.scurry");
    assert_eq!(
        daemon::failure(&stop, "exit status: 3"),
        "launchctl bootout gui/7/com.ananthb.scurry failed: exit status: 3"
    );
    assert_eq!(
        daemon::start(Platform::Other, 0).unwrap_err().message(),
        "daemon control is not implemented on this platform"
    );
    assert!(daemon::supported(Platform::Linux) && !daemon::supported(Platform::Other));
    assert!(daemon::install_hint(Platform::MacOs).starts_with("Run “Install"));
}

/// A PNG file of one red pixel, eight bits a sample, red, green, blue and alpha.
const RED: [u8; 70] = [
    0x89, 0x50, 0x4e, 0x47, 0x0d, 0x0a, 0x1a, 0x0a, 0x00, 0x00, 0x00, 0x0d, 0x49, 0x48, 0x44, 0x52,
    0x00, 0x00, 0x00, 0x01, 0x00, 0x00, 0x00, 0x01, 0x08, 0x06, 0x00, 0x00, 0x00, 0x1f, 0x15, 0xc4,
    0x89, 0x00, 0x00, 0x00, 0x0d, 0x49, 0x44, 0x41, 0x54, 0x78, 0xda, 0x63, 0xf8, 0xcf, 0xc0, 0xf0,
    0x1f, 0x00, 0x05, 0x00, 0x01, 0xff, 0x56, 0xc7, 0x2f, 0x0d, 0x00, 0x00, 0x00, 0x00, 0x49, 0x45,
    0x4e, 0x44, 0xae, 0x42, 0x60, 0x82,
];

#[test]
fn the_icon_is_decoded() {
    let i = icon(&RED).unwrap();
    assert_eq!((i.width, i.height, i.rgba), (1, 1, vec![255, 0, 0, 255]));
    assert!(matches!(icon(b"not an image"), Err(IconError::Undecodable(_))));
    let mut huge = RED;
    huge[16] = 0x7f;
    assert!(matches!(icon(&huge), Err(IconError::TooLarge)));
}

#[test]
fn entries_and_units_live_where_the_system_looks() {
    let mac = "/Users/a/Library/LaunchAgents/com.ananthb.scurry.plist";
    let entry = login::entry_path;
    assert_eq!(entry(Platform::MacOs, Some("/Users/a"), Some("/x")).as_deref(), Some(mac));
    assert_eq!(entry(Platform::MacOs, None, Some("/x")), None);
    assert_eq!(
        entry(Platform::Linux, Some("/home/a"), Some("/cfg/")).as_deref(),
        Some("/cfg/autostart/scurry-tray.desktop")
    );
    assert_eq!(
        entry(Platform::Linux, Some("/home/a"), None).as_deref(),
        Some("/home/a/.config/autostart/scurry-tray.desktop")
    );
    assert_eq!(entry(Platform::Linux, None, None), None);
    assert_eq!(entry(Platform::Other, Some("/"), Some("/")), None);
    assert_eq!(daemon::unit_path(Platform::MacOs, Some("/Users/a")).as_deref(), Some(mac));
    assert_eq!(
        daemon::unit_path(Platform::Linux, Some("/home/a/")).as_deref(),
        Some("/home/a/.config/systemd/user/scurry.service")
    );
    assert_eq!(daemon::unit_path(Platform::Linux, None), None);
    assert_eq!(daemon::unit_path(Platform::Other, Some("/")), None);
}

#[test]
fn an_agent_that_does_not_start_is_loaded() {
    assert!(daemon::after_start(Platform::MacOs, false));
    assert!(!daemon::after_start(Platform::MacOs, true));
    assert!(!daemon::after_start(Platform::Linux, false));
    assert!(!daemon::after_start(Platform::Other, false));
}
