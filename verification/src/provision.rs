//! First flash of a blank board, over the cable.
//!
//! Distinct from an update, which pushes an app image into the inactive slot of
//! firmware that is already running. A board out of the box has no partition
//! table and nothing that speaks the scurry protocol, so the whole layout goes
//! down over the ROM bootloader instead.
//!
//! What goes down is a single merged image at offset 0: bootloader, partition
//! table, initial otadata and app. That erases NVS too, so a dongle provisioned
//! this way comes up with no bonds and no layout.

use vstd::prelude::*;

use crate::proto::kind;
use crate::text::{contains, has};
use crate::transport::frame::Message;
use crate::transport::serial::{is_candidate, is_tty_twin};

verus! {

/// The merged image published with each release.
pub const FACTORY_ASSET: &'static str = "scurry-dongle-esp32c3-factory.bin";

/// Where the app lives in the layout, and so where the app descriptor sits in
/// a merged image.
pub const APP_OFFSET: usize = 0x20000;

/// Where the app descriptor sits in an app image.
pub const APP_DESC_OFFSET: usize = 0x20;

/// Serial timeout for the initial handshake, in seconds.
pub const CONNECT_TIMEOUT_SECS: u64 = 3;

/// How long to wait for a port to prove it is already a dongle, in
/// milliseconds.
pub const PROBE_TIMEOUT_MS: u64 = 600;

/// Magic at the head of an app descriptor, little endian.
pub open spec fn app_desc_magic() -> Seq<u8> {
    seq![0x32u8, 0x54, 0xcd, 0xab]
}

/// A port that might have an unprovisioned board on it.
#[derive(Debug, Clone, PartialEq, Eq)]
pub struct Candidate {
    pub port: String,
    /// USB product string, when the OS gives one.
    pub product: Option<String>,
}

/// Whether a port is worth asking if there is a dongle on it. macOS exposes
/// each device twice; the tty side blocks on carrier detect and never opens.
pub fn is_worth_probing(port: &str) -> (r: bool)
    ensures
        r == (is_candidate(port@) && !is_tty_twin(port@)),
{
    !contains(port, "/tty.") && (contains(port, "usbmodem") || contains(port, "ttyACM"))
}

/// What probing a port came to.
#[derive(Debug)]
pub enum Probe {
    /// The port could not be opened: it is in use by the running app.
    Busy,
    /// The ping could not be sent.
    Unsent,
    /// What was read back in time, if anything.
    Answered(Option<Message>),
}

/// True when the port answers a scurry ping. A port that cannot be opened is
/// in use by the running app, which means it is a dongle too.
pub fn speaks_scurry(probe: &Probe) -> (r: bool)
    ensures
        r == match *probe {
            Probe::Busy => true,
            Probe::Unsent => false,
            Probe::Answered(Some(m)) => m.kind == kind::PONG,
            Probe::Answered(None) => false,
        },
{
    match probe {
        Probe::Busy => true,
        Probe::Unsent => false,
        Probe::Answered(answer) => match answer {
            Some(m) => m.kind == kind::PONG,
            None => false,
        },
    }
}

/// The port may have an unprovisioned board on it.
pub open spec fn is_blank(p: (Candidate, Probe)) -> bool {
    &&& is_candidate(p.0.port@)
    &&& !is_tty_twin(p.0.port@)
    &&& match p.1 {
        Probe::Busy => false,
        Probe::Unsent => true,
        Probe::Answered(Some(m)) => m.kind != kind::PONG,
        Probe::Answered(None) => true,
    }
}

/// The first `n` ports that may have an unprovisioned board on them, in order.
pub open spec fn blanks_of(ports: Seq<(Candidate, Probe)>, n: int) -> Seq<Candidate>
    decreases n,
{
    if n <= 0 {
        Seq::empty()
    } else if is_blank(ports[n - 1]) {
        blanks_of(ports, n - 1).push(ports[n - 1].0)
    } else {
        blanks_of(ports, n - 1)
    }
}

/// Two candidates say the same.
pub open spec fn same_candidate(a: Candidate, b: Candidate) -> bool {
    &&& a.port@ == b.port@
    &&& match (a.product, b.product) {
        (Some(x), Some(y)) => x@ == y@,
        (None, None) => true,
        _ => false,
    }
}

/// Ports with a board on them that is not already running scurry.
///
/// A blank board and a working dongle enumerate identically, so each port is
/// asked: one that answers a ping is a dongle and is left alone, one that does
/// not is a candidate. A port held open by the running app cannot be opened,
/// which excludes the app's own dongle for the same reason.
pub fn candidates(ports: &Vec<(Candidate, Probe)>) -> (r: Vec<Candidate>)
    ensures
        r@.len() == blanks_of(ports@, ports@.len() as int).len(),
        forall|i: int|
            0 <= i < r@.len() ==> same_candidate(
                #[trigger] r@[i],
                blanks_of(ports@, ports@.len() as int)[i],
            ),
{
    let mut out: Vec<Candidate> = Vec::new();
    let n: usize = ports.len();
    let mut i: usize = 0;
    while i < n
        invariant
            i <= n == ports@.len(),
            out@.len() == blanks_of(ports@, i as int).len(),
            forall|k: int|
                0 <= k < out@.len() ==> same_candidate(
                    #[trigger] out@[k],
                    blanks_of(ports@, i as int)[k],
                ),
        decreases n - i,
    {
        let (c, probe): (&Candidate, &Probe) = (&ports[i].0, &ports[i].1);
        if is_worth_probing(c.port.as_str()) && !speaks_scurry(probe) {
            let product: Option<String> = match &c.product {
                Some(p) => Some(p.clone()),
                None => None,
            };
            out.push(Candidate { port: c.port.clone(), product });
        }
        i = i + 1;
    }
    out
}

/// Why an image cannot provision a board.
#[derive(Debug, Clone, Copy, PartialEq, Eq, Structural)]
pub enum ImageError {
    NotAnImage,
    /// It has no bootloader or partition table.
    BareApp,
    NoApp,
}

impl ImageError {
    /// What the error says.
    pub open spec fn text(self) -> Seq<char> {
        match self {
            ImageError::NotAnImage =>
                "that is not an ESP32 image (first byte is not 0xe9)"@,
            ImageError::BareApp =>
                "that is a bare app image, not a factory image. It has no bootloader or partition table, so it cannot provision a blank board — use a firmware update instead, or fetch "@
                + FACTORY_ASSET@,
            ImageError::NoApp =>
                "that image has no app at 0x20000; it is not a scurry factory image"@,
        }
    }

    /// The error in words.
    pub fn message(&self) -> (r: String)
        ensures
            r@ == self.text(),
    {
        match self {
            ImageError::NotAnImage => String::from_str(
                "that is not an ESP32 image (first byte is not 0xe9)",
            ),
            ImageError::BareApp => {
                let mut s = String::from_str(
                    "that is a bare app image, not a factory image. It has no bootloader or partition table, so it cannot provision a blank board — use a firmware update instead, or fetch ",
                );
                s.append(FACTORY_ASSET);
                s
            },
            ImageError::NoApp => String::from_str(
                "that image has no app at 0x20000; it is not a scurry factory image",
            ),
        }
    }
}

/// An app descriptor stands at `at`.
pub open spec fn describes_app(image: Seq<u8>, at: int) -> bool {
    at + 4 <= image.len() && image.subrange(at, at + 4) == app_desc_magic()
}

/// What keeps an image from provisioning a board. An app image on its own
/// starts with the same byte as a bootloader; what distinguishes the two is the
/// app descriptor, which in a merged image sits at the app's offset, and in a
/// bare app image at the front.
pub open spec fn image_fault(image: Seq<u8>) -> Option<ImageError> {
    if image.len() == 0 || image[0] != 0xE9 {
        Some(ImageError::NotAnImage)
    } else if describes_app(image, APP_DESC_OFFSET as int) {
        Some(ImageError::BareApp)
    } else if !describes_app(image, APP_OFFSET + APP_DESC_OFFSET) {
        Some(ImageError::NoApp)
    } else {
        None
    }
}

fn has_app_at(image: &[u8], at: usize) -> (r: bool)
    requires
        at <= 0x7FFF_FFFF,
    ensures
        r == describes_app(image@, at as int),
{
    if image.len() < at + 4 {
        return false;
    }
    let r: bool = image[at] == 0x32 && image[at + 1] == 0x54 && image[at + 2] == 0xcd && image[at
        + 3] == 0xab;
    let ghost s = image@.subrange(at as int, at + 4);
    assert(r == (s == app_desc_magic())) by {
        assert(s[0] == image@[at as int] && s[1] == image@[at + 1] && s[2] == image@[at + 2] && s[3]
            == image@[at + 3]);
        if r {
            assert(s =~= app_desc_magic());
        }
    }
    r
}

/// Reject anything that is not a merged image before erasing a chip with it.
pub fn check_factory_image(image: &[u8]) -> (r: Result<(), ImageError>)
    ensures
        match r {
            Ok(_) => image_fault(image@) is None,
            Err(e) => image_fault(image@) == Some(e),
        },
{
    if image.len() == 0 || image[0] != 0xE9 {
        return Err(ImageError::NotAnImage);
    }
    if has_app_at(image, APP_DESC_OFFSET) {
        return Err(ImageError::BareApp);
    }
    if !has_app_at(image, APP_OFFSET + APP_DESC_OFFSET) {
        return Err(ImageError::NoApp);
    }
    Ok(())
}

/// A progress report in the pairs that the rest of the update path uses.
#[derive(Debug, Clone, Copy, PartialEq, Eq, Structural)]
pub struct Meter {
    pub total: usize,
}

impl Meter {
    /// The writer announced how much there is.
    pub fn init(&mut self, total: usize) -> (r: (u32, u32))
        ensures
            final(self).total == total,
            r == (0u32, total as u32),
    {
        self.total = total;
        (0, total as u32)
    }

    /// The writer got this far.
    pub fn update(&self, current: usize) -> (r: (u32, u32))
        ensures
            r == (current as u32, self.total as u32),
    {
        (current as u32, self.total as u32)
    }

    /// The writer is done.
    pub fn finish(&self) -> (r: (u32, u32))
        ensures
            r == (self.total as u32, self.total as u32),
    {
        (self.total as u32, self.total as u32)
    }
}

/// A port may have a blank board on it where its name is one that a board has,
/// it could be opened, and no pong came back. Those ports are offered in the
/// order in which they were found, and no others.
pub proof fn law_which_boards_are_offered(ports: Seq<(Candidate, Probe)>, n: int)
    requires
        0 < n <= ports.len(),
    ensures
        ({
            let p = ports[n - 1];
            let name = p.0.port@;
            let board = (has(name, "usbmodem"@) || has(name, "ttyACM"@)) && !(has(name, "/tty."@));
            let silent = match p.1 {
                Probe::Busy => false,
                Probe::Unsent => true,
                Probe::Answered(None) => true,
                Probe::Answered(Some(m)) => m.kind != 5,
            };
            &&& board && silent ==> blanks_of(ports, n) == blanks_of(ports, n - 1).push(p.0)
            &&& !(board && silent) ==> blanks_of(ports, n) == blanks_of(ports, n - 1)
            &&& blanks_of(ports, 0) == Seq::<Candidate>::empty()
        }),
{
}

/// An image provisions a board exactly where it starts with 0xE9, has an app
/// descriptor behind 0x20000, which is where the app lives, and has none at its
/// front, which only a bare app has. What is wrong is told in that order.
pub proof fn law_which_images_provision(image: Seq<u8>)
    ensures
        ({
            let starts = image.len() > 0 && image[0] == 0xE9;
            let bare = image.len() >= 0x24 && image[0x20] == 0x32 && image[0x21] == 0x54
                && image[0x22] == 0xCD && image[0x23] == 0xAB;
            let merged = image.len() >= 0x20024 && image[0x20020] == 0x32 && image[0x20021] == 0x54
                && image[0x20022] == 0xCD && image[0x20023] == 0xAB;
            &&& !starts ==> image_fault(image) == Some(ImageError::NotAnImage)
            &&& starts && bare ==> image_fault(image) == Some(ImageError::BareApp)
            &&& starts && !bare && !merged ==> image_fault(image) == Some(ImageError::NoApp)
            &&& starts && !bare && merged ==> image_fault(image) is None
        }),
{
    lemma_describes(image, 0x20);
    lemma_describes(image, 0x20020);
}

proof fn lemma_describes(image: Seq<u8>, at: int)
    requires
        0 <= at,
    ensures
        describes_app(image, at) <==> image.len() >= at + 4 && image[at] == 0x32 && image[at + 1]
            == 0x54 && image[at + 2] == 0xCD && image[at + 3] == 0xAB,
{
    if image.len() >= at + 4 {
        let s = image.subrange(at, at + 4);
        assert(s[0] == image[at] && s[1] == image[at + 1] && s[2] == image[at + 2] && s[3]
            == image[at + 3]);
        if image[at] == 0x32 && image[at + 1] == 0x54 && image[at + 2] == 0xCD && image[at + 3]
            == 0xAB {
            assert(s =~= app_desc_magic());
        }
    }
}

} // verus!
