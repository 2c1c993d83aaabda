//! Firmware updates.

use scurry::proto::{ack, kind, FirmwareInfo, OTA_CHUNK_MAX};
use scurry::update::flash::{
    check_ack, check_status, AckFault, FlashError, Journal, Link, Rehearsal,
};
use scurry::update::release::{
    check_asset, check_digest, manifest_sum, Asset, Checked, Listing, ReleaseError,
};
use scurry::update::{
    download_factory, download_firmware, firmware_info, flash, latest_release, Release,
};

/// SHA-256 of "abc".
const ABC: &str = "ba7816bf8f01cfea414140de5dae2223b00361a396177a9cb410ff61f20015ad";

type Request = (u8, Vec<u8>, u8);

/// A dongle that answers from a script, and remembers what it was asked.
struct Dongle {
    asked: Vec<Request>,
    received: u32,
    /// Answer differently to the request at this place.
    odd: Option<(usize, Result<Vec<u8>, String>)>,
}

impl Dongle {
    fn new() -> Self {
        Dongle { asked: Vec::new(), received: 0, odd: None }
    }

    fn odd(at: usize, answer: Result<Vec<u8>, String>) -> Self {
        Dongle { odd: Some((at, answer)), ..Dongle::new() }
    }
}

impl Link for Dongle {
    fn request(&mut self, kind: u8, payload: &[u8], want: u8) -> Result<Vec<u8>, String> {
        let at = self.asked.len();
        self.asked.push((kind, payload.to_vec(), want));
        if let Some((odd, answer)) = &self.odd {
            if *odd == at {
                return answer.clone();
            }
        }
        Ok(match kind {
            kind::OTA_DATA => {
                self.received += payload.len() as u32 - 4;
                self.received.to_le_bytes().to_vec()
            }
            _ => vec![ack::OK],
        })
    }
}

fn image(len: usize) -> Vec<u8> {
    let mut v: Vec<u8> = (0..len).map(|i| (i * 7) as u8).collect();
    v[0] = 0xE9;
    v
}

fn run(link: &mut Dongle, image: &[u8]) -> (Result<(), FlashError>, Vec<(u32, u32)>) {
    let mut seen = Journal { steps: Vec::new() };
    let r = flash(link, image, &mut seen);
    (r, seen.steps)
}

#[test]
fn every_byte_is_sent_once_and_in_order() {
    let img = image(2 * OTA_CHUNK_MAX + 10);
    let mut d = Dongle::new();
    let (r, seen) = run(&mut d, &img);
    assert!(r.is_ok());
    let kinds: Vec<u8> = d.asked.iter().map(|a| a.0).collect();
    assert_eq!(
        kinds,
        vec![kind::OTA_BEGIN, kind::OTA_DATA, kind::OTA_DATA, kind::OTA_DATA, kind::OTA_END]
    );
    let mut got = Vec::new();
    for (_, p, want) in &d.asked[1..4] {
        assert_eq!(*want, kind::OTA_STATUS);
        assert_eq!(u32::from_le_bytes([p[0], p[1], p[2], p[3]]) as usize, got.len());
        got.extend_from_slice(&p[4..]);
    }
    assert_eq!(got, img);
    assert_eq!(seen, vec![(508, 1026), (1016, 1026), (1026, 1026)]);
}

#[test]
fn an_update_is_described_before_it_is_sent() {
    let mut d = Dongle::new();
    let img = [0xE9, b'b', b'c'];
    assert!(run(&mut d, &img).0.is_ok());
    let begin = &d.asked[0].1;
    assert_eq!(&begin[..4], &[3, 0, 0, 0]);
    assert_eq!(begin.len(), 36);
    // The digest is of the image, so the manifest of the same bytes agrees.
    let hex: String = begin[4..].iter().map(|b| format!("{b:02x}")).collect();
    let manifest = format!("{hex}  a.bin\n");
    assert_eq!(check_asset("a.bin", &img, Some(manifest.as_bytes())).unwrap(), Checked::Matches);
}

#[test]
fn what_cannot_be_an_image_is_never_sent() {
    let mut d = Dongle::new();
    let (r, _) = run(&mut d, &[]);
    assert_eq!(r.unwrap_err().message(), "the firmware image is empty");
    let (r, _) = run(&mut d, b"<html>");
    assert_eq!(
        r.unwrap_err().message(),
        "that does not look like an ESP32 app image (first byte 0x3c, expected 0xe9)"
    );
    assert!(d.asked.is_empty());
}

#[test]
fn a_refused_image_goes_no_further() {
    let mut d = Dongle::odd(0, Err("gone".into()));
    let (r, _) = run(&mut d, &image(10));
    assert!(matches!(&r, Err(FlashError::Start(e)) if e == "gone"));
    let e = r.unwrap_err();
    assert_eq!((e.message().as_str(), e.cause()), ("starting the update", Some("gone")));
    assert_eq!(FlashError::EmptyImage.cause(), None);
    let mut d = Dongle::odd(0, Ok(vec![ack::OTA_FAILED]));
    let (r, seen) = run(&mut d, &image(10));
    assert_eq!(
        r.unwrap_err().message(),
        "the dongle refused the image: the update failed. The dongle is still running the old firmware."
    );
    assert_eq!(d.asked.len(), 1);
    assert!(seen.is_empty());
}

#[test]
fn a_failed_chunk_abandons_the_transfer() {
    let mut d = Dongle::odd(2, Err("gone".into()));
    let (r, seen) = run(&mut d, &image(1000));
    match &r {
        Err(FlashError::Sending { from, to, cause }) => {
            assert_eq!((*from, *to, cause.as_str()), (508, 1000, "gone"));
        }
        other => panic!("expected a failed chunk, got {other:?}"),
    }
    assert_eq!(r.unwrap_err().message(), "sending bytes 508..1000");
    assert_eq!(d.asked.last().unwrap().0, kind::OTA_ABORT);
    assert_eq!(seen, vec![(508, 1000)]);
}

#[test]
fn a_transfer_out_of_step_is_abandoned() {
    let mut d = Dongle::odd(1, Ok(vec![9, 0, 0, 0]));
    let (r, _) = run(&mut d, &image(20));
    assert_eq!(
        r.unwrap_err().message(),
        "the dongle has 9 bytes but 20 were sent; the transfer is out of step"
    );
    assert_eq!(d.asked.last().unwrap().0, kind::OTA_ABORT);
    let mut d = Dongle::odd(1, Ok(vec![ack::BAD_REQUEST]));
    let (r, _) = run(&mut d, &image(20));
    assert_eq!(r.unwrap_err().message(), "the dongle's progress reply was too short");
    assert_eq!(d.asked.len(), 2);
}

#[test]
fn a_completed_image_can_still_be_rejected() {
    let mut d = Dongle::odd(2, Err("gone".into()));
    let (r, _) = run(&mut d, &image(20));
    assert_eq!(r.unwrap_err().message(), "finishing the update");
    let mut d = Dongle::odd(2, Ok(vec![77]));
    let (r, _) = run(&mut d, &image(20));
    assert_eq!(
        r.unwrap_err().message(),
        "the dongle rejected the completed image: the dongle answered with code 77"
    );
}

#[test]
fn a_rehearsal_keeps_what_it_is_asked() {
    let mut link = Rehearsal {
        replies: vec![Ok(vec![ack::OK]), Ok(vec![2, 0, 0, 0]), Ok(vec![ack::OK])],
        sent: Vec::new(),
    };
    let mut seen = Journal { steps: Vec::new() };
    assert!(flash(&mut link, &[0xE9, 7], &mut seen).is_ok());
    let asked: Vec<(u8, usize, u8)> =
        link.sent.iter().map(|s| (s.kind, s.payload.len(), s.want)).collect();
    assert_eq!(
        asked,
        vec![
            (kind::OTA_BEGIN, 36, kind::ACK),
            (kind::OTA_DATA, 6, kind::OTA_STATUS),
            (kind::OTA_END, 0, kind::ACK),
        ]
    );
    assert_eq!(link.sent[1].payload, vec![0, 0, 0, 0, 0xE9, 7]);
    assert_eq!(seen.steps, vec![(2, 2)]);
    match firmware_info(&mut link) {
        Err(FlashError::Asking(why)) => assert_eq!(why, "no reply was prepared"),
        other => panic!("expected silence, got {other:?}"),
    }
}

#[test]
fn a_progress_reply_is_held_against_what_was_sent() {
    assert!(check_status(&[4, 1, 0, 0], 260).is_ok());
    assert!(matches!(check_status(&[4, 1, 0], 260), Err(FlashError::ShortStatus)));
    assert!(matches!(
        check_status(&[4, 1, 0, 0], 261),
        Err(FlashError::OutOfStep { received: 260, sent: 261 })
    ));
}

#[test]
fn acknowledgements_are_told_apart() {
    assert_eq!(check_ack(&[ack::OK]), Ok(()));
    assert_eq!(check_ack(&[]), Err(AckFault::Empty));
    assert_eq!(check_ack(&[ack::NOT_PERMITTED]), Err(AckFault::NotPermitted));
    assert_eq!(check_ack(&[ack::BAD_REQUEST]), Err(AckFault::BadRequest));
    assert!(AckFault::NotPermitted.message("no").starts_with("no: not authorised. Firmware may"));
    assert!(AckFault::BadRequest.message("no").ends_with("afterwards this will work."));
    assert_eq!(AckFault::Empty.message("no"), "no: the dongle sent an empty acknowledgement");
}

#[test]
fn the_dongle_says_what_it_runs() {
    let mut reply = vec![0u8; FirmwareInfo::WIRE_LEN];
    reply[0] = 2;
    reply[1..7].copy_from_slice(b"v0.3.1");
    let mut d = Dongle::odd(0, Ok(reply));
    let info = firmware_info(&mut d).unwrap();
    assert_eq!(info.version_str(), "v0.3.1");
    assert!(info.ota_capable && !info.pending_verify);
    assert_eq!(d.asked, vec![(kind::GET_FIRMWARE, vec![], kind::FIRMWARE)]);
    let mut d = Dongle::odd(0, Ok(vec![ack::BAD_REQUEST]));
    assert_eq!(
        firmware_info(&mut d).unwrap_err().message(),
        "the firmware reply was too short"
    );
    let mut d = Dongle::odd(0, Err("gone".into()));
    assert_eq!(
        firmware_info(&mut d).unwrap_err().message(),
        "asking the dongle what firmware it runs"
    );
}

fn asset(name: Option<&str>, url: Option<&str>) -> Asset {
    Asset { name: name.map(str::to_string), url: url.map(str::to_string) }
}

fn listing(assets: Vec<Asset>) -> Listing {
    Listing { tag: Some("v0.2.0".into()), assets: Some(assets) }
}

#[test]
fn a_release_is_read_off_its_listing() {
    let rel = latest_release(&listing(vec![
        asset(None, Some("u0")),
        asset(Some("scurry-dongle-esp32c3.bin"), None),
        asset(Some("scurry-dongle-esp32c3.bin"), Some("u1")),
        asset(Some("SHA256SUMS"), Some("u2")),
        asset(Some("scurry-dongle-esp32c3.bin"), Some("u3")),
    ]))
    .unwrap();
    assert_eq!(rel.tag, "v0.2.0");
    assert_eq!(rel.firmware_url, "u1");
    assert_eq!(rel.factory_url, None);
    assert_eq!(rel.checksums_url.as_deref(), Some("u2"));
    let d = download_firmware(&rel);
    assert_eq!((d.name.as_str(), d.url.as_str()), ("scurry-dongle-esp32c3.bin", "u1"));
    assert_eq!(d.checksums_url.as_deref(), Some("u2"));
    assert_eq!(
        download_factory(&rel).unwrap_err().message(),
        "release v0.2.0 has no scurry-dongle-esp32c3-factory.bin; it predates provisioning from the app"
    );
    let both = Release { factory_url: Some("u4".into()), ..rel };
    assert_eq!(download_factory(&both).unwrap().url, "u4");
}

#[test]
fn a_release_without_its_parts_is_refused() {
    let none = Listing { tag: None, assets: None };
    assert_eq!(latest_release(&none).unwrap_err().message(), "the release has no tag");
    let bare = Listing { tag: Some("v1".into()), assets: None };
    assert_eq!(latest_release(&bare).unwrap_err().message(), "the release lists no assets");
    assert_eq!(
        latest_release(&listing(vec![])).unwrap_err().message(),
        "release v0.2.0 has no scurry-dongle-esp32c3.bin; it predates firmware updates"
    );
}

#[test]
fn a_download_is_held_against_the_manifest() {
    let manifest = format!("00  other.bin\r\nno sum here\n {ABC}  a.bin \r\n{ABC}  b.bin");
    assert_eq!(check_asset("a.bin", b"abc", Some(manifest.as_bytes())).unwrap(), Checked::Matches);
    assert_eq!(check_asset("b.bin", b"abc", Some(manifest.as_bytes())).unwrap(), Checked::Matches);
    assert_eq!(check_asset("b.bin", b"abc", None).unwrap(), Checked::Unchecked);
    match check_asset("a.bin", b"abd", Some(manifest.as_bytes())) {
        Err(ReleaseError::Mismatch { name, want, got }) => {
            assert_eq!((name.as_str(), want.as_str()), ("a.bin", ABC));
            assert_eq!(got, "a52d159f262b2c6ddb724a61840befc36eb30c88877a4030b65cbe86298449c9");
        }
        other => panic!("expected a mismatch, got {other:?}"),
    }
    assert_eq!(
        check_asset("c.bin", b"abc", Some(manifest.as_bytes())).unwrap_err().message(),
        "SHA256SUMS does not mention c.bin"
    );
}

#[test]
fn a_manifest_that_is_not_text_still_lists_what_it_can() {
    let mut manifest = vec![0xff, b'\n'];
    manifest.extend_from_slice(ABC.as_bytes());
    manifest.extend_from_slice(b"  a.bin\n");
    assert_eq!(check_asset("a.bin", b"abc", Some(&manifest)).unwrap(), Checked::Matches);
}

#[test]
fn the_first_line_that_names_it_counts() {
    assert_eq!(manifest_sum("11  a\n22  a\n", "a").as_deref(), Some("11"));
    assert_eq!(manifest_sum("11   a", "a").as_deref(), Some("11"), "blanks around are trimmed");
    assert_eq!(manifest_sum("11 a", "a"), None);
    assert_eq!(manifest_sum("", "a"), None);
    assert!(check_digest("a", "0aff  a", &[0x0a, 0xff]).is_ok());
    assert_eq!(
        check_digest("a", "00  a", &[0xff]).unwrap_err().message(),
        "the downloaded a does not match the release checksum:\n  expected 00\n  got      ff"
    );
}
