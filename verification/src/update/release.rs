//! What a release offers, and whether a download is what it offered.

use vstd::prelude::*;

use crate::provision::FACTORY_ASSET;
use crate::text::{
    chars_of, hex, hex_text, is_at, lossy, readable, same_text, stands_at, text_from, trim,
    trimmed,
};
use crate::transport::log::newline_from;

verus! {

/// Where releases come from. Fixed rather than configurable: an update source
/// that can be pointed elsewhere by a config file is a way to install firmware
/// from anywhere.
pub const RELEASES_API: &'static str =
    "https://api.github.com/repos/ananthb/scurry/releases/latest";

/// The asset a dongle takes. Only the app image is published: an update writes
/// the inactive app slot and nothing else.
pub const FIRMWARE_ASSET: &'static str = "scurry-dongle-esp32c3.bin";

/// The asset that lists the checksums of the others.
pub const CHECKSUMS_ASSET: &'static str = "SHA256SUMS";

/// How long to wait for the release server, in seconds.
pub const HTTP_TIMEOUT_SECS: u64 = 30;

/// One file of a release, as the server lists it.
#[derive(Debug)]
pub struct Asset {
    pub name: Option<String>,
    pub url: Option<String>,
}

/// What the server lists of a release.
#[derive(Debug)]
pub struct Listing {
    pub tag: Option<String>,
    pub assets: Option<Vec<Asset>>,
}

/// A release, reduced to the parts that matter here.
#[derive(Debug, Clone)]
pub struct Release {
    pub tag: String,
    pub firmware_url: String,
    /// The merged image that provisions a blank board. Absent on releases
    /// that predate it.
    pub factory_url: Option<String>,
    /// URL of the signed checksum manifest, when the release has one.
    pub checksums_url: Option<String>,
}

/// Why a release could not be used.
#[derive(Debug)]
pub enum ReleaseError {
    NoTag,
    NoAssets,
    NoFirmware { tag: String },
    NoFactory { tag: String },
    /// The manifest does not list this asset.
    NotMentioned { name: String },
    /// The download is not what the manifest lists.
    Mismatch { name: String, want: String, got: String },
}

/// What a release error says.
pub enum ReleaseFault {
    NoTag,
    NoAssets,
    NoFirmware { tag: Seq<char> },
    NoFactory { tag: Seq<char> },
    NotMentioned { name: Seq<char> },
    Mismatch { name: Seq<char>, want: Seq<char>, got: Seq<char> },
}

impl View for ReleaseError {
    type V = ReleaseFault;

    open spec fn view(&self) -> ReleaseFault {
        match *self {
            ReleaseError::NoTag => ReleaseFault::NoTag,
            ReleaseError::NoAssets => ReleaseFault::NoAssets,
            ReleaseError::NoFirmware { tag } => ReleaseFault::NoFirmware { tag: tag@ },
            ReleaseError::NoFactory { tag } => ReleaseFault::NoFactory { tag: tag@ },
            ReleaseError::NotMentioned { name } => ReleaseFault::NotMentioned { name: name@ },
            ReleaseError::Mismatch { name, want, got } => ReleaseFault::Mismatch {
                name: name@,
                want: want@,
                got: got@,
            },
        }
    }
}

impl ReleaseFault {
    /// The fault in words.
    pub open spec fn text(self) -> Seq<char> {
        match self {
            ReleaseFault::NoTag => "the release has no tag"@,
            ReleaseFault::NoAssets => "the release lists no assets"@,
            ReleaseFault::NoFirmware { tag } => "release "@ + tag + " has no "@ + FIRMWARE_ASSET@
                + "; it predates firmware updates"@,
            ReleaseFault::NoFactory { tag } => "release "@ + tag + " has no "@ + FACTORY_ASSET@
                + "; it predates provisioning from the app"@,
            ReleaseFault::NotMentioned { name } => "SHA256SUMS does not mention "@ + name,
            ReleaseFault::Mismatch { name, want, got } => "the downloaded "@ + name
                + " does not match the release checksum:\n  expected "@ + want + "\n  got      "@
                + got,
        }
    }
}

impl ReleaseError {
    /// The error in words.
    pub fn message(&self) -> (r: String)
        ensures
            r@ == self@.text(),
    {
        match self {
            ReleaseError::NoTag => String::from_str("the release has no tag"),
            ReleaseError::NoAssets => String::from_str("the release lists no assets"),
            ReleaseError::NoFirmware { tag } => {
                let mut s = String::from_str("release ");
                s.append(tag.as_str());
                s.append(" has no ");
                s.append(FIRMWARE_ASSET);
                s.append("; it predates firmware updates");
                s
            },
            ReleaseError::NoFactory { tag } => {
                let mut s = String::from_str("release ");
                s.append(tag.as_str());
                s.append(" has no ");
                s.append(FACTORY_ASSET);
                s.append("; it predates provisioning from the app");
                s
            },
            ReleaseError::NotMentioned { name } => {
                let mut s = String::from_str("SHA256SUMS does not mention ");
                s.append(name.as_str());
                s
            },
            ReleaseError::Mismatch { name, want, got } => {
                let mut s = String::from_str("the downloaded ");
                s.append(name.as_str());
                s.append(" does not match the release checksum:\n  expected ");
                s.append(want.as_str());
                s.append("\n  got      ");
                s.append(got.as_str());
                s
            },
        }
    }
}

/// The asset has this name, and an address to fetch it from.
pub open spec fn offers(a: Asset, name: Seq<char>) -> bool {
    &&& a.name matches Some(n) && n@ == name
    &&& a.url is Some
}

/// The first asset from `i` on that offers `name`; their number where none
/// does.
pub open spec fn asset_from(assets: Seq<Asset>, name: Seq<char>, i: int) -> int
    decreases assets.len() - i,
{
    if i >= assets.len() || offers(assets[i], name) {
        i
    } else {
        asset_from(assets, name, i + 1)
    }
}

/// Where an asset is fetched from.
pub open spec fn address_of(assets: Seq<Asset>, name: Seq<char>) -> Option<Seq<char>> {
    let i = asset_from(assets, name, 0);
    if i < assets.len() {
        Some(assets[i].url.unwrap()@)
    } else {
        None
    }
}

/// What an optional text says.
pub open spec fn optional(s: Option<String>) -> Option<Seq<char>> {
    match s {
        Some(t) => Some(t@),
        None => None,
    }
}

fn find_asset(assets: &Vec<Asset>, name: &str) -> (r: Option<String>)
    ensures
        optional(r) == address_of(assets@, name@),
{
    let n: usize = assets.len();
    let mut i: usize = 0;
    while i < n
        invariant
            i <= n == assets@.len(),
            asset_from(assets@, name@, 0) == asset_from(assets@, name@, i as int),
        decreases n - i,
    {
        match &assets[i].name {
            Some(found) => if same_text(found.as_str(), name) {
                match &assets[i].url {
                    Some(url) => {
                        return Some(url.clone());
                    },
                    None => {},
                }
            },
            None => {},
        }
        i = i + 1;
    }
    None
}

/// This is the release that a listing offers, or why it offers none.
pub open spec fn is_release_of(listing: Listing, r: Result<Release, ReleaseError>) -> bool {
    match r {
        Ok(rel) => {
            &&& listing.tag is Some
            &&& listing.assets is Some
            &&& rel.tag@ == listing.tag.unwrap()@
            &&& address_of(listing.assets.unwrap()@, FIRMWARE_ASSET@) == Some(rel.firmware_url@)
            &&& optional(rel.factory_url) == address_of(listing.assets.unwrap()@, FACTORY_ASSET@)
            &&& optional(rel.checksums_url) == address_of(
                listing.assets.unwrap()@,
                CHECKSUMS_ASSET@,
            )
        },
        Err(e) => if listing.tag is None {
            e@ == ReleaseFault::NoTag
        } else if listing.assets is None {
            e@ == ReleaseFault::NoAssets
        } else {
            &&& address_of(listing.assets.unwrap()@, FIRMWARE_ASSET@) is None
            &&& e@ == (ReleaseFault::NoFirmware { tag: listing.tag.unwrap()@ })
        },
    }
}

/// Read a release off the server's listing. One without firmware is no use; the
/// other files may be missing.
pub fn latest_release(listing: &Listing) -> (r: Result<Release, ReleaseError>)
    ensures
        is_release_of(*listing, r),
{
    let tag: &String = match &listing.tag {
        Some(tag) => tag,
        None => return Err(ReleaseError::NoTag),
    };
    let assets: &Vec<Asset> = match &listing.assets {
        Some(assets) => assets,
        None => return Err(ReleaseError::NoAssets),
    };
    let firmware_url: String = match find_asset(assets, FIRMWARE_ASSET) {
        Some(url) => url,
        None => return Err(ReleaseError::NoFirmware { tag: tag.clone() }),
    };
    Ok(
        Release {
            tag: tag.clone(),
            firmware_url,
            factory_url: find_asset(assets, FACTORY_ASSET),
            checksums_url: find_asset(assets, CHECKSUMS_ASSET),
        },
    )
}

/// What to fetch, and what to check it against.
#[derive(Debug)]
pub struct Download {
    pub name: String,
    pub url: String,
    /// Where the checksum manifest is; without one nothing is checked.
    pub checksums_url: Option<String>,
}

fn copied(s: &Option<String>) -> (r: Option<String>)
    ensures
        optional(r) == optional(*s),
{
    match s {
        Some(t) => Some(t.clone()),
        None => None,
    }
}

/// What to download for a release's firmware.
pub fn download_firmware(release: &Release) -> (r: Download)
    ensures
        r.name@ == FIRMWARE_ASSET@,
        r.url@ == release.firmware_url@,
        optional(r.checksums_url) == optional(release.checksums_url),
{
    Download {
        name: String::from_str(FIRMWARE_ASSET),
        url: release.firmware_url.clone(),
        checksums_url: copied(&release.checksums_url),
    }
}

/// What to download for the merged image that provisions a blank board.
pub fn download_factory(release: &Release) -> (r: Result<Download, ReleaseError>)
    ensures
        match r {
            Ok(d) => {
                &&& release.factory_url is Some
                &&& d.name@ == FACTORY_ASSET@
                &&& d.url@ == release.factory_url.unwrap()@
                &&& optional(d.checksums_url) == optional(release.checksums_url)
            },
            Err(e) => release.factory_url is None && e@ == (ReleaseFault::NoFactory {
                tag: release.tag@,
            }),
        },
{
    match &release.factory_url {
        Some(url) => Ok(
            Download {
                name: String::from_str(FACTORY_ASSET),
                url: url.clone(),
                checksums_url: copied(&release.checksums_url),
            },
        ),
        None => Err(ReleaseError::NoFactory { tag: release.tag.clone() }),
    }
}

/// The first place from `i` on where two blanks stand; the length where
/// nowhere.
pub open spec fn gap_from(line: Seq<char>, i: int) -> int
    decreases line.len() - i,
{
    if i >= line.len() || stands_at(line, seq![' ', ' '], i) {
        i
    } else {
        gap_from(line, i + 1)
    }
}

/// The checksum that a line gives for `name`: what stands before the first two
/// blanks, where what stands behind them is the name.
pub open spec fn sum_on(line: Seq<char>, name: Seq<char>) -> Option<Seq<char>> {
    let k = gap_from(line, 0);
    if k < line.len() && trimmed(line.skip(k + 2)) == name {
        Some(trimmed(line.take(k)))
    } else {
        None
    }
}

/// The checksum that the first line which gives one gives for `name`.
pub open spec fn sum_in(t: Seq<char>, name: Seq<char>) -> Option<Seq<char>>
    decreases t.len(),
{
    let n = newline_from(t, 0);
    if n < 0 || n >= t.len() {
        sum_on(t, name)
    } else {
        match sum_on(t.take(n), name) {
            Some(sum) => Some(sum),
            None => sum_in(t.skip(n + 1), name),
        }
    }
}

fn read_line(line: &[char], name: &str) -> (r: Option<String>)
    ensures
        optional(r) == sum_on(line@, name@),
{
    let blanks: [char; 2] = [' ', ' '];
    assert(blanks@ =~= seq![' ', ' ']);
    let n: usize = line.len();
    let mut k: usize = 0;
    while k < n && !is_at(line, blanks.as_slice(), k)
        invariant
            k <= n == line@.len(),
            blanks@ == seq![' ', ' '],
            gap_from(line@, 0) == gap_from(line@, k as int),
        decreases n - k,
    {
        k = k + 1;
    }
    if k == n {
        return None;
    }
    let sum: &[char] = vstd::slice::slice_subrange(line, 0, k);
    let got: &[char] = vstd::slice::slice_subrange(line, k + 2, n);
    assert(sum@ =~= line@.take(k as int));
    assert(got@ =~= line@.skip(k + 2));
    if same_text(text_from(trim(got)).as_str(), name) {
        Some(text_from(trim(sum)))
    } else {
        None
    }
}

/// Look a name up in a checksum manifest.
pub fn manifest_sum(manifest: &str, name: &str) -> (r: Option<String>)
    ensures
        optional(r) == sum_in(manifest@, name@),
{
    let t: Vec<char> = chars_of(manifest);
    let n: usize = t.len();
    let mut start: usize = 0;
    assert(t@.skip(0) =~= t@);
    loop
        invariant
            start <= n == t@.len(),
            t@ == manifest@,
            sum_in(manifest@, name@) == sum_in(t@.skip(start as int), name@),
        decreases n - start,
    {
        let ghost tail = t@.skip(start as int);
        let mut end: usize = start;
        while end < n && t[end] != '\n'
            invariant
                start <= end <= n == t@.len(),
                tail == t@.skip(start as int),
                newline_from(tail, 0) == newline_from(tail, end - start),
            decreases n - end,
        {
            assert(tail[end - start] == t@[end as int]);
            end = end + 1;
        }
        if end < n {
            assert(tail[end - start] == t@[end as int]);
        }
        let line: &[char] = vstd::slice::slice_subrange(t.as_slice(), start, end);
        assert(line@ =~= tail.take(end - start));
        let found: Option<String> = read_line(line, name);
        if end == n {
            assert(line@ =~= tail);
            return found;
        }
        match found {
            Some(sum) => {
                return Some(sum);
            },
            None => {},
        }
        assert(tail.skip(end - start + 1) =~= t@.skip(end + 1));
        start = end + 1;
    }
}

/// The SHA-256 digest of some bytes.
pub uninterp spec fn sha256_of(data: Seq<u8>) -> Seq<u8>;

/// `Sha256::digest` of the sha2 crate: the SHA-256 digest of the bytes, which
/// depends on them alone and is 32 bytes long.
#[verifier::external_body]
pub(crate) fn sha256(data: &[u8]) -> (r: [u8; 32])
    ensures
        r@ == sha256_of(data@),
{
    <sha2::Sha256 as sha2::Digest>::digest(data).into()
}

/// The text of a manifest, whatever its bytes are.
pub open spec fn manifest_text(b: Seq<u8>) -> Seq<char> {
    readable(b)
}

/// What is wrong with a download of this digest.
pub open spec fn digest_fault(
    name: Seq<char>,
    manifest: Seq<char>,
    digest: Seq<u8>,
) -> Option<ReleaseFault> {
    match sum_in(manifest, name) {
        None => Some(ReleaseFault::NotMentioned { name }),
        Some(want) => if want == hex_text(digest) {
            None
        } else {
            Some(ReleaseFault::Mismatch { name, want, got: hex_text(digest) })
        },
    }
}

/// Hold the digest of a download against the release's checksum manifest.
pub fn check_digest(name: &str, manifest: &str, digest: &[u8]) -> (r: Result<(), ReleaseError>)
    ensures
        match r {
            Ok(_) => digest_fault(name@, manifest@, digest@) is None,
            Err(e) => digest_fault(name@, manifest@, digest@) == Some(e@),
        },
{
    let want: String = match manifest_sum(manifest, name) {
        Some(sum) => sum,
        None => return Err(ReleaseError::NotMentioned { name: String::from_str(name) }),
    };
    let got: String = hex(digest);
    if got != want {
        return Err(ReleaseError::Mismatch { name: String::from_str(name), want, got });
    }
    Ok(())
}

/// Whether a download was held against a checksum.
#[derive(Debug, Clone, Copy, PartialEq, Eq, Structural)]
pub enum Checked {
    /// It is what the manifest lists.
    Matches,
    /// The release has no manifest to check against.
    Unchecked,
}

/// What checking a download of this digest comes to, where the release has a
/// manifest and where it has none.
pub open spec fn checked_of(
    name: Seq<char>,
    digest: Seq<u8>,
    manifest: Option<Seq<char>>,
) -> Result<Checked, ReleaseFault> {
    match manifest {
        None => Ok(Checked::Unchecked),
        Some(text) => match digest_fault(name, text, digest) {
            None => Ok(Checked::Matches),
            Some(fault) => Err(fault),
        },
    }
}

/// Check a download against the release's own checksum manifest.
///
/// It catches a truncated or corrupted download, which is the failure that
/// actually happens. It does not establish that the release is genuine, because
/// anyone who could alter the image could alter the manifest beside it.
pub fn check_asset(name: &str, image: &[u8], manifest: Option<&[u8]>) -> (r: Result<
    Checked,
    ReleaseError,
>)
    ensures
        ({
            let text = match manifest {
                Some(m) => Some(manifest_text(m@)),
                None => None,
            };
            match r {
                Ok(c) => checked_of(name@, sha256_of(image@), text) == Ok::<Checked, ReleaseFault>(
                    c,
                ),
                Err(e) => checked_of(name@, sha256_of(image@), text) == Err::<Checked, ReleaseFault>(
                    e@,
                ),
            }
        }),
{
    match manifest {
        None => Ok(Checked::Unchecked),
        Some(m) => {
            let text: String = lossy(m);
            let digest: [u8; 32] = sha256(image);
            match check_digest(name, text.as_str(), digest.as_slice()) {
                Ok(_) => Ok(Checked::Matches),
                Err(e) => Err(e),
            }
        },
    }
}

/// A manifest of one line, a checksum and a name two blanks apart, is found to
/// list that checksum for that name, where neither holds blanks or newlines.
pub proof fn law_a_listed_checksum_is_found(sum: Seq<char>, name: Seq<char>)
    requires
        forall|i: int| 0 <= i < sum.len() ==> !crate::text::is_blank(sum[i]),
        forall|i: int| 0 <= i < name.len() ==> !crate::text::is_blank(name[i]),
        sum.len() > 0,
        name.len() > 0,
    ensures
        sum_in(sum + seq![' ', ' '] + name, name) == Some(sum),
{
    let line = sum + seq![' ', ' '] + name;
    let k = sum.len() as int;
    assert forall|i: int| 0 <= i < line.len() implies line[i] != '\n' by {
        if i < k {
            assert(line[i] == sum[i]);
        } else if i >= k + 2 {
            assert(line[i] == name[i - k - 2]);
        }
    }
    crate::transport::log::lemma_newline_from(line, 0);
    lemma_gap_is(line, 0, k);
    assert(line.skip(k + 2) =~= name);
    assert(line.take(k) =~= sum);
    assert(name.last() == name[name.len() - 1]);
    assert(sum.last() == sum[sum.len() - 1]);
}

proof fn lemma_gap_is(line: Seq<char>, i: int, k: int)
    requires
        0 <= i <= k,
        k + 2 <= line.len(),
        line[k] == ' ',
        line[k + 1] == ' ',
        forall|j: int| i <= j < k ==> line[j] != ' ',
    ensures
        gap_from(line, i) == k,
    decreases k - i,
{
    if i < k {
        assert(!stands_at(line, seq![' ', ' '], i)) by {
            if stands_at(line, seq![' ', ' '], i) {
                assert(line.subrange(i, i + 2)[0] == line[i]);
            }
        }
        lemma_gap_is(line, i + 1, k);
    } else {
        assert(line.subrange(k, k + 2) =~= seq![' ', ' ']);
    }
}

/// An asset is fetched from the address of the first entry that has its name and
/// an address; one that has none is passed over.
pub proof fn law_where_an_asset_is_fetched_from(assets: Seq<Asset>, name: Seq<char>, i: int)
    requires
        0 <= i < assets.len(),
        forall|k: int|
            0 <= k < i ==> !((#[trigger] assets[k]).name matches Some(n) && n@ == name)
                || assets[k].url is None,
    ensures
        (assets[i].name matches Some(n) && n@ == name) ==> (assets[i].url matches Some(u)
            ==> address_of(assets, name) == Some(u@)),
        i == assets.len() - 1 && (!(assets[i].name matches Some(n) && n@ == name) || assets[i].url is None)
            ==> address_of(assets, name) is None,
{
    lemma_asset_from(assets, name, 0, i);
    reveal_with_fuel(asset_from, 3);
}

proof fn lemma_asset_from(assets: Seq<Asset>, name: Seq<char>, i: int, n: int)
    requires
        0 <= i <= n <= assets.len(),
        forall|k: int| i <= k < n ==> !offers(#[trigger] assets[k], name),
    ensures
        asset_from(assets, name, i) == asset_from(assets, name, n),
    decreases n - i,
{
    if i < n {
        assert(!offers(assets[i], name));
        lemma_asset_from(assets, name, i + 1, n);
    }
}

/// The lines of a manifest are tried in order: the first that gives a checksum
/// for the name is the one that counts.
pub proof fn law_lines_are_tried_in_order(line: Seq<char>, rest: Seq<char>, name: Seq<char>)
    requires
        forall|i: int| 0 <= i < line.len() ==> #[trigger] line[i] != '\n',
    ensures
        sum_in(line, name) is Some ==> sum_in(line + seq!['\n'] + rest, name) == sum_in(line, name),
        sum_in(line, name) is None ==> sum_in(line + seq!['\n'] + rest, name) == sum_in(rest, name),
{
    let t = line + seq!['\n'] + rest;
    let n = line.len() as int;
    crate::transport::log::lemma_newline_from(line, 0);
    crate::transport::log::lemma_newline_from(t, 0);
    let k = newline_from(t, 0);
    assert(t[n] == '\n');
    assert(k == n) by {
        if k < n {
            assert(line[k] == t[k]);
        }
    }
    assert(newline_from(line, 0) == n) by {
        let j = newline_from(line, 0);
        if j < n {
            assert(line[j] != '\n');
        }
    }
    assert(t.take(n) =~= line);
    assert(t.skip(n + 1) =~= rest);
}

/// A download passes exactly where the manifest lists, for its name, the digest
/// of its bytes in lower-case hexadecimal. One that the manifest does not list
/// is refused, and so is one of another digest.
pub proof fn law_which_downloads_pass(name: Seq<char>, manifest: Seq<char>, digest: Seq<u8>, i: int)
    ensures
        digest_fault(name, manifest, digest) is None <==> sum_in(manifest, name) == Some(
            hex_text(digest),
        ),
        sum_in(manifest, name) is None ==> digest_fault(name, manifest, digest) == Some(
            ReleaseFault::NotMentioned { name },
        ),
        sum_in(manifest, name) is Some && sum_in(manifest, name) != Some(hex_text(digest))
            ==> digest_fault(name, manifest, digest) == Some(
            ReleaseFault::Mismatch {
                name,
                want: sum_in(manifest, name).unwrap(),
                got: hex_text(digest),
            },
        ),
        digest_fault(name, manifest, digest) is None && 0 <= i < digest.len() ==> {
            let sum = sum_in(manifest, name).unwrap();
            &&& sum.len() == 2 * digest.len()
            &&& crate::config::hex_value(sum[2 * i]) == Some(digest[i] as int / 16)
            &&& crate::config::hex_value(sum[2 * i + 1]) == Some(digest[i] as int % 16)
        },
{
    if 0 <= i < digest.len() {
        crate::text::law_two_characters_for_each_byte(digest, i);
    }
}

/// A download counts as checked exactly where there is a manifest and it lists
/// the digest for the name; without one it counts as unchecked, and is kept.
pub proof fn law_when_a_download_counts_as_checked(
    name: Seq<char>,
    digest: Seq<u8>,
    manifest: Option<Seq<char>>,
)
    ensures
        ({
            let r = checked_of(name, digest, manifest);
            &&& r == Ok::<Checked, ReleaseFault>(Checked::Unchecked) <==> manifest is None
            &&& r == Ok::<Checked, ReleaseFault>(Checked::Matches) <==> manifest is Some && sum_in(
                manifest.unwrap(),
                name,
            ) == Some(hex_text(digest))
            &&& r == Err::<Checked, ReleaseFault>(ReleaseFault::NotMentioned { name }) <==> manifest
                is Some && sum_in(manifest.unwrap(), name) is None
        }),
{
}

/// A release takes its tag from the listing, its firmware from the entry of the
/// app image, its factory image and its checksums from theirs where they are
/// listed. Without a tag, or without an app image, there is none.
pub proof fn law_what_a_listing_offers(listing: Listing, r: Result<Release, ReleaseError>)
    requires
        is_release_of(listing, r),
    ensures
        r matches Ok(rel) ==> {
            let assets = listing.assets.unwrap()@;
            &&& listing.tag is Some && listing.assets is Some
            &&& rel.tag@ == listing.tag.unwrap()@
            &&& address_of(assets, "scurry-dongle-esp32c3.bin"@) == Some(rel.firmware_url@)
            &&& rel.factory_url matches Some(u) ==> address_of(
                assets,
                "scurry-dongle-esp32c3-factory.bin"@,
            ) == Some(u@)
            &&& rel.factory_url is None ==> address_of(
                assets,
                "scurry-dongle-esp32c3-factory.bin"@,
            ) is None
            &&& rel.checksums_url matches Some(u) ==> address_of(assets, "SHA256SUMS"@) == Some(u@)
            &&& rel.checksums_url is None ==> address_of(assets, "SHA256SUMS"@) is None
        },
        r is Ok <==> listing.tag is Some && listing.assets is Some && address_of(
            listing.assets.unwrap()@,
            "scurry-dongle-esp32c3.bin"@,
        ) is Some,
{
}

} // verus!
