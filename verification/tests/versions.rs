//! Which release is newer.

use scurry::update::is_newer;

#[test]
fn versions_compare_numerically_not_lexically() {
    assert!(is_newer("v0.10.0", "v0.9.0"));
    assert!(!is_newer("v0.9.0", "v0.10.0"));
    assert!(is_newer("0.2.0", "v0.1.9"));
    assert!(!is_newer("v0.1.0", "v0.1.0"));
}

#[test]
fn a_longer_version_is_newer_only_if_the_extra_part_is_nonzero() {
    assert!(is_newer("v1.0.1", "v1.0"));
    assert!(!is_newer("v1.0.0", "v1.0"));
}

/// An unparseable version must not be reported as an upgrade. A dongle
/// built from an untagged tree reports a bare commit hash, and offering to
/// "update" it every time the tray polls would be a permanent nag.
#[test]
fn unparseable_versions_are_never_newer() {
    assert!(!is_newer("v0.2.0", "g1a2b3c4"));
    assert!(!is_newer("dirty", "v0.1.0"));
}

#[test]
fn a_commit_hash_is_no_version() {
    // Whatever digits a hash starts with, it is never behind a release.
    assert!(!is_newer("v0.3.0", "g0a2b3c4"));
    assert!(!is_newer("v9.0.0", "1a2b3c4"));
    assert!(!is_newer("v9.0.0", "abc1234"));
    assert!(!is_newer("1a2b3c4", "v0.1.0"));
    assert!(!is_newer("", "v0.1.0"));
    assert!(!is_newer("v0.2.0", ""));
}

#[test]
fn what_follows_a_version_counts_as_further_parts() {
    assert!(is_newer("v1.0.0-rc2", "v1.0.0-rc1"));
    assert!(is_newer("v1.0.0-3-g12", "v1.0.0-2"));
    assert!(is_newer("vv2", "1.9"));
    assert!(is_newer("007", "6"));
    // A part too large to read is passed over.
    assert!(!is_newer("99999999999999999999", "1"));
    assert!(is_newer("18446744073709551615", "1"));
}

#[test]
fn what_cannot_be_a_hash_is_read_for_its_numbers() {
    assert!(is_newer("v2rc1", "v1.0"));
    assert!(is_newer("2rc1", "v1.0"));
    assert!(is_newer("v2b", "v1"));
    assert!(is_newer("v1a2b3c4", "v0.9"));
    assert!(is_newer("release-2.0", "v1.9"));
    assert!(is_newer("2b", "1"), "too short for a hash");
    assert!(is_newer("1234567", "v1.0"), "a plain number");
    assert!(is_newer("1A2B3C4", "v0.9"), "a hash is written in small letters");
}
