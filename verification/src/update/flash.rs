//! Pushing an image to the dongle.
//!
//! The transfer is deliberately dull. Each chunk is acknowledged before the next
//! goes out, which halves the theoretical throughput and is what makes it safe:
//! the dongle writes to flash as the bytes arrive, and a controller that does
//! not wait will outrun it and overflow a reassembly buffer that has no
//! allocator to grow.

use vstd::prelude::*;

use crate::proto::ack;
use crate::proto::kind;
use crate::proto::ota::{FirmwareInfo, OtaBegin, OtaChunk, OtaStatus, OTA_CHUNK_MAX};
use crate::text::{decimal, hex_byte, push_decimal, push_hex_byte};
use crate::update::release::{sha256, sha256_of};

verus! {

/// What came of a request: the payload of the reply, or why there is none.
pub type Outcome = Result<Seq<u8>, Seq<char>>;

/// One request over a link, and what came of it.
pub struct Exchange {
    pub kind: u8,
    pub payload: Seq<u8>,
    /// The kind of reply that was asked for.
    pub want: u8,
    pub reply: Outcome,
}

/// What the update needs from a link to the dongle.
///
/// A trait rather than a concrete type because the same transfer runs over the
/// cable, over BLE, and through the running app's control socket, and none of
/// those three know about each other.
pub trait Link {
    /// Everything that was asked over this link, in order, and what came of it.
    /// Left open here, so that a link written in plain Rust need not spell it
    /// out; one that is verified says what it is.
    open spec fn asked(&self) -> Seq<Exchange> {
        arbitrary()
    }

    /// Send a request and return the payload of the reply, which must be of
    /// kind `want`.
    fn request(&mut self, kind: u8, payload: &[u8], want: u8) -> (r: Result<Vec<u8>, String>)
        ensures
            final(self).asked() == old(self).asked().push(
                Exchange { kind, payload: payload@, want, reply: outcome(r) },
            ),
    ;
}

/// Somebody who wants to know how far a transfer is.
pub trait Watcher {
    /// Everything that was told, in order: bytes sent, and bytes in all. Left
    /// open here as for a link.
    open spec fn told(&self) -> Seq<(u32, u32)> {
        arbitrary()
    }

    /// So many bytes were sent, out of so many.
    fn report(&mut self, sent: u32, total: u32)
        ensures
            final(self).told() == old(self).told().push((sent, total)),
    ;
}

/// A watcher that keeps what it is told.
#[derive(Debug)]
pub struct Journal {
    pub steps: Vec<(u32, u32)>,
}

impl Watcher for Journal {
    open spec fn told(&self) -> Seq<(u32, u32)> {
        self.steps@
    }

    fn report(&mut self, sent: u32, total: u32) {
        self.steps.push((sent, total));
    }
}

/// One request that a rehearsal was asked, and what it answered.
#[derive(Debug)]
pub struct Sent {
    pub kind: u8,
    pub payload: Vec<u8>,
    pub want: u8,
    pub reply: Result<Vec<u8>, String>,
}

impl View for Sent {
    type V = Exchange;

    open spec fn view(&self) -> Exchange {
        Exchange {
            kind: self.kind,
            payload: self.payload@,
            want: self.want,
            reply: outcome(self.reply),
        }
    }
}

/// A link without a dongle: it answers from prepared replies and keeps what it
/// is asked, for dry runs.
#[derive(Debug)]
pub struct Rehearsal {
    /// What to answer, first to last.
    pub replies: Vec<Result<Vec<u8>, String>>,
    pub sent: Vec<Sent>,
}

/// What the requests of a rehearsal say.
pub open spec fn exchanges_of(sent: Seq<Sent>) -> Seq<Exchange> {
    Seq::new(sent.len(), |i: int| sent[i]@)
}

fn copy_reply(r: &Result<Vec<u8>, String>) -> (c: Result<Vec<u8>, String>)
    ensures
        outcome(c) == outcome(*r),
{
    match r {
        Ok(p) => {
            let body: Vec<u8> = crate::bytes::copy_range(p.as_slice(), 0, p.len());
            assert(body@ =~= p@);
            Ok(body)
        },
        Err(e) => Err(e.clone()),
    }
}

impl Link for Rehearsal {
    open spec fn asked(&self) -> Seq<Exchange> {
        exchanges_of(self.sent@)
    }

    /// Once the prepared replies are used up, requests fail.
    fn request(&mut self, kind: u8, payload: &[u8], want: u8) -> (r: Result<Vec<u8>, String>)
        ensures
            old(self).replies@.len() > 0 ==> {
                &&& outcome(r) == outcome(old(self).replies@[0])
                &&& final(self).replies@ == old(self).replies@.skip(1)
            },
            old(self).replies@.len() == 0 ==> {
                &&& r is Err
                &&& final(self).replies@ == old(self).replies@
            },
    {
        let ghost before = self.asked();
        let reply: Result<Vec<u8>, String> = if self.replies.len() > 0 {
            let first: Result<Vec<u8>, String> = self.replies.remove(0);
            assert(self.replies@ =~= old(self).replies@.skip(1));
            first
        } else {
            Err(String::from_str("no reply was prepared"))
        };
        let body: Vec<u8> = crate::bytes::copy_range(payload, 0, payload.len());
        assert(body@ =~= payload@);
        let r: Result<Vec<u8>, String> = copy_reply(&reply);
        self.sent.push(Sent { kind, payload: body, want, reply });
        assert(self.asked() =~= before.push(
            Exchange { kind, payload: payload@, want, reply: outcome(r) },
        ));
        r
    }
}

/// What came of a request.
pub open spec fn outcome(r: Result<Vec<u8>, String>) -> Outcome {
    match r {
        Ok(p) => Ok(p@),
        Err(e) => Err(e@),
    }
}

/// Why an acknowledgement is not one.
#[derive(Debug, Clone, Copy, PartialEq, Eq, Structural)]
pub enum AckFault {
    NotPermitted,
    OtaFailed,
    BadRequest,
    Other(u8),
    Empty,
}

/// What an acknowledgement refuses; nothing where it agrees.
pub open spec fn ack_fault(payload: Seq<u8>) -> Option<AckFault> {
    if payload.len() == 0 {
        Some(AckFault::Empty)
    } else if payload[0] == ack::OK {
        None
    } else if payload[0] == ack::NOT_PERMITTED {
        Some(AckFault::NotPermitted)
    } else if payload[0] == ack::OTA_FAILED {
        Some(AckFault::OtaFailed)
    } else if payload[0] == ack::BAD_REQUEST {
        Some(AckFault::BadRequest)
    } else {
        Some(AckFault::Other(payload[0]))
    }
}

/// Read an acknowledgement.
pub fn check_ack(payload: &[u8]) -> (r: Result<(), AckFault>)
    ensures
        match r {
            Ok(_) => ack_fault(payload@) is None,
            Err(f) => ack_fault(payload@) == Some(f),
        },
{
    if payload.len() == 0 {
        return Err(AckFault::Empty);
    }
    let code: u8 = payload[0];
    if code == ack::OK {
        Ok(())
    } else if code == ack::NOT_PERMITTED {
        Err(AckFault::NotPermitted)
    } else if code == ack::OTA_FAILED {
        Err(AckFault::OtaFailed)
    } else if code == ack::BAD_REQUEST {
        Err(AckFault::BadRequest)
    } else {
        Err(AckFault::Other(code))
    }
}

impl AckFault {
    /// What was refused, and why.
    pub open spec fn text(self, what: Seq<char>) -> Seq<char> {
        match self {
            AckFault::NotPermitted => what
                + ": not authorised. Firmware may be written over the cable, or by a controller that has already been authorised -- press the dongle's button three times and pair, or use the cable."@,
            AckFault::OtaFailed => what
                + ": the update failed. The dongle is still running the old firmware."@,
            AckFault::BadRequest => what
                + ": the dongle did not understand the request. Firmware older than this tool cannot be updated over the wire -- use the cable and idf.py once, and afterwards this will work."@,
            AckFault::Other(code) => what + ": the dongle answered with code "@ + decimal(
                code as int,
            ),
            AckFault::Empty => what + ": the dongle sent an empty acknowledgement"@,
        }
    }

    /// What was refused, and why, in words.
    pub fn message(&self, what: &str) -> (r: String)
        ensures
            r@ == self.text(what@),
    {
        let mut s = String::from_str(what);
        match self {
            AckFault::NotPermitted => {
                s.append(
                    ": not authorised. Firmware may be written over the cable, or by a controller that has already been authorised -- press the dongle's button three times and pair, or use the cable.",
                );
            },
            AckFault::OtaFailed => {
                s.append(": the update failed. The dongle is still running the old firmware.");
            },
            AckFault::BadRequest => {
                s.append(
                    ": the dongle did not understand the request. Firmware older than this tool cannot be updated over the wire -- use the cable and idf.py once, and afterwards this will work.",
                );
            },
            AckFault::Other(code) => {
                s.append(": the dongle answered with code ");
                push_decimal(&mut s, *code as u64);
            },
            AckFault::Empty => {
                s.append(": the dongle sent an empty acknowledgement");
            },
        }
        s
    }
}

/// Why a transfer, or a question to the dongle, failed.
#[derive(Debug)]
pub enum FlashError {
    EmptyImage,
    /// The image starts with this byte.
    NotAnImage(u8),
    /// The update could not be announced.
    Start(String),
    /// The dongle refused the image.
    Refused(AckFault),
    /// These bytes could not be sent.
    Sending { from: usize, to: usize, cause: String },
    /// The dongle's progress reply was too short.
    ShortStatus,
    /// The dongle has another number of bytes than were sent.
    OutOfStep { received: u32, sent: usize },
    /// The end of the update could not be announced.
    Finish(String),
    /// The dongle rejected the completed image.
    Rejected(AckFault),
    /// The dongle could not be asked what it runs.
    Asking(String),
    /// Its answer was too short.
    ShortInfo,
}

impl FlashError {
    /// What the error says; its cause, where it has one, is kept beside it.
    pub open spec fn text(self) -> Seq<char> {
        match self {
            FlashError::EmptyImage => "the firmware image is empty"@,
            FlashError::NotAnImage(b) =>
                "that does not look like an ESP32 app image (first byte 0x"@ + hex_byte(b)
                + ", expected 0xe9)"@,
            FlashError::Start(_) => "starting the update"@,
            FlashError::Refused(f) => f.text("the dongle refused the image"@),
            FlashError::Sending { from, to, cause } => "sending bytes "@ + decimal(from as int)
                + ".."@ + decimal(to as int),
            FlashError::ShortStatus => "the dongle's progress reply was too short"@,
            FlashError::OutOfStep { received, sent } => "the dongle has "@ + decimal(
                received as int,
            ) + " bytes but "@ + decimal(sent as int)
                + " were sent; the transfer is out of step"@,
            FlashError::Finish(_) => "finishing the update"@,
            FlashError::Rejected(f) => f.text("the dongle rejected the completed image"@),
            FlashError::Asking(_) => "asking the dongle what firmware it runs"@,
            FlashError::ShortInfo => "the firmware reply was too short"@,
        }
    }

    /// What lies behind the error: what the link said.
    pub open spec fn cause_text(self) -> Option<Seq<char>> {
        match self {
            FlashError::Start(c) => Some(c@),
            FlashError::Sending { from, to, cause } => Some(cause@),
            FlashError::Finish(c) => Some(c@),
            FlashError::Asking(c) => Some(c@),
            _ => None,
        }
    }

    /// What lies behind the error, in words.
    pub fn cause(&self) -> (r: Option<&str>)
        ensures
            match r {
                Some(t) => self.cause_text() == Some(t@),
                None => self.cause_text() is None,
            },
    {
        match self {
            FlashError::Start(c) => Some(c.as_str()),
            FlashError::Sending { from: _, to: _, cause } => Some(cause.as_str()),
            FlashError::Finish(c) => Some(c.as_str()),
            FlashError::Asking(c) => Some(c.as_str()),
            _ => None,
        }
    }

    /// The error in words.
    pub fn message(&self) -> (r: String)
        ensures
            r@ == self.text(),
    {
        match self {
            FlashError::EmptyImage => String::from_str("the firmware image is empty"),
            FlashError::NotAnImage(b) => {
                let mut s = String::from_str(
                    "that does not look like an ESP32 app image (first byte 0x",
                );
                push_hex_byte(&mut s, *b);
                s.append(", expected 0xe9)");
                s
            },
            FlashError::Start(_) => String::from_str("starting the update"),
            FlashError::Refused(f) => f.message("the dongle refused the image"),
            FlashError::Sending { from, to, cause: _ } => {
                let mut s = String::from_str("sending bytes ");
                push_decimal(&mut s, *from as u64);
                s.append("..");
                push_decimal(&mut s, *to as u64);
                s
            },
            FlashError::ShortStatus => String::from_str(
                "the dongle's progress reply was too short",
            ),
            FlashError::OutOfStep { received, sent } => {
                let mut s = String::from_str("the dongle has ");
                push_decimal(&mut s, *received as u64);
                s.append(" bytes but ");
                push_decimal(&mut s, *sent as u64);
                s.append(" were sent; the transfer is out of step");
                s
            },
            FlashError::Finish(_) => String::from_str("finishing the update"),
            FlashError::Rejected(f) => f.message("the dongle rejected the completed image"),
            FlashError::Asking(_) => String::from_str("asking the dongle what firmware it runs"),
            FlashError::ShortInfo => String::from_str("the firmware reply was too short"),
        }
    }
}

/// Where the chunk after `k` chunks starts: never past the image's end.
pub open spec fn sent_after(image: Seq<u8>, k: int) -> int {
    if OTA_CHUNK_MAX * k < image.len() {
        OTA_CHUNK_MAX * k
    } else {
        image.len() as int
    }
}

/// How many chunks an image takes.
pub open spec fn chunk_count(image: Seq<u8>) -> int {
    (image.len() + OTA_CHUNK_MAX - 1) / OTA_CHUNK_MAX as int
}

/// The announcement of an update: the image's length, in 32 bits, and its
/// digest.
pub open spec fn begin_exchange(image: Seq<u8>, reply: Outcome) -> Exchange {
    Exchange {
        kind: kind::OTA_BEGIN,
        payload: OtaBegin::wire(image.len() as u32, sha256_of(image)),
        want: kind::ACK,
        reply,
    }
}

/// A run of image bytes, at its place.
pub open spec fn run_exchange(
    image: Seq<u8>,
    from: int,
    to: int,
    reply: Outcome,
) -> Exchange {
    Exchange {
        kind: kind::OTA_DATA,
        payload: OtaChunk::wire(from as u32, image.subrange(from, to)),
        want: kind::OTA_STATUS,
        reply,
    }
}

/// The `k`th chunk of an image.
pub open spec fn data_exchange(image: Seq<u8>, k: int, reply: Outcome) -> Exchange {
    run_exchange(image, sent_after(image, k), sent_after(image, k + 1), reply)
}

/// The announcement that an update is complete.
pub open spec fn end_exchange(reply: Outcome) -> Exchange {
    Exchange { kind: kind::OTA_END, payload: Seq::empty(), want: kind::ACK, reply }
}

/// The announcement that an update is abandoned, whatever came of it.
pub open spec fn is_abort(e: Exchange) -> bool {
    e.kind == kind::OTA_ABORT && e.payload == Seq::<u8>::empty() && e.want == kind::ACK
}

/// The reply says that the dongle has this many bytes, in 32 bits.
pub open spec fn has_received(reply: Seq<u8>, sent: int) -> bool {
    OtaStatus::from_wire(reply) == Some(OtaStatus { received: sent as u32 })
}

/// The reply to a chunk that confirms every byte up to the end of it.
pub open spec fn confirms(image: Seq<u8>, k: int, reply: Outcome) -> bool {
    reply is Ok && has_received(reply->Ok_0, sent_after(image, k + 1))
}

/// What is asked for one run of image bytes, and what comes of it. Where it
/// fails, or is confirmed wrongly, the dongle is told to forget the transfer.
pub open spec fn sends_run(
    image: Seq<u8>,
    from: int,
    to: int,
    x: Seq<Exchange>,
    r: Result<(), FlashError>,
) -> bool {
    &&& x.len() >= 1
    &&& x[0] == run_exchange(image, from, to, x[0].reply)
    &&& match r {
        Ok(_) => x.len() == 1 && x[0].reply is Ok && has_received(x[0].reply->Ok_0, to),
        Err(FlashError::Sending { from: f, to: t, cause }) => {
            &&& x.len() == 2
            &&& x[0].reply == Err::<Seq<u8>, Seq<char>>(cause@)
            &&& is_abort(x[1])
            &&& f == from
            &&& t == to
        },
        Err(FlashError::ShortStatus) => {
            &&& x.len() == 1
            &&& x[0].reply is Ok
            &&& OtaStatus::from_wire(x[0].reply->Ok_0) is None
        },
        Err(FlashError::OutOfStep { received, sent }) => {
            &&& x.len() == 2
            &&& x[0].reply is Ok
            &&& OtaStatus::from_wire(x[0].reply->Ok_0) == Some(OtaStatus { received })
            &&& !has_received(x[0].reply->Ok_0, to)
            &&& sent == to
            &&& is_abort(x[1])
        },
        _ => false,
    }
}

/// The exchanges start with an announcement that the dongle agreed to, and `k`
/// chunks that it confirmed.
pub open spec fn confirmed(image: Seq<u8>, x: Seq<Exchange>, k: int) -> bool {
    &&& x.len() >= 1 + k
    &&& x[0] == begin_exchange(image, x[0].reply)
    &&& x[0].reply is Ok
    &&& ack_fault(x[0].reply->Ok_0) is None
    &&& forall|i: int|
        0 <= i < k ==> #[trigger] x[1 + i] == data_exchange(image, i, x[1 + i].reply) && confirms(
            image,
            i,
            x[1 + i].reply,
        )
}

/// What is asked over the link for an image, in order, and what comes of it:
/// nothing where the image cannot be one, and otherwise the announcement, the
/// chunks one after the other, each only once the one before it was confirmed,
/// and the end. Where a chunk fails, or is confirmed wrongly, the dongle is told
/// to forget the transfer.
pub open spec fn transfers(image: Seq<u8>, x: Seq<Exchange>, r: Result<(), FlashError>) -> bool {
    let n = chunk_count(image);
    match r {
        Ok(_) => {
            &&& image.len() > 0
            &&& image[0] == 0xE9
            &&& x.len() == n + 2
            &&& confirmed(image, x, n)
            &&& x[n + 1] == end_exchange(x[n + 1].reply)
            &&& x[n + 1].reply is Ok
            &&& ack_fault(x[n + 1].reply->Ok_0) is None
        },
        Err(FlashError::EmptyImage) => image.len() == 0 && x.len() == 0,
        Err(FlashError::NotAnImage(b)) => image.len() > 0 && image[0] == b && b != 0xE9 && x.len()
            == 0,
        Err(FlashError::Start(cause)) => image.len() > 0 && image[0] == 0xE9 && x == seq![
            begin_exchange(image, Err(cause@)),
        ],
        Err(FlashError::Refused(f)) => {
            &&& image.len() > 0
            &&& image[0] == 0xE9
            &&& x.len() == 1
            &&& x[0] == begin_exchange(image, x[0].reply)
            &&& x[0].reply is Ok
            &&& ack_fault(x[0].reply->Ok_0) == Some(f)
        },
        Err(FlashError::Sending { from, to, cause }) => {
            let k = x.len() - 3;
            &&& image.len() > 0
            &&& image[0] == 0xE9
            &&& 0 <= k < n
            &&& confirmed(image, x, k)
            &&& x[1 + k] == data_exchange(image, k, Err(cause@))
            &&& is_abort(x[2 + k])
            &&& from == sent_after(image, k)
            &&& to == sent_after(image, k + 1)
        },
        Err(FlashError::ShortStatus) => {
            let k = x.len() - 2;
            &&& image.len() > 0
            &&& image[0] == 0xE9
            &&& 0 <= k < n
            &&& confirmed(image, x, k)
            &&& x[1 + k] == data_exchange(image, k, x[1 + k].reply)
            &&& x[1 + k].reply is Ok
            &&& OtaStatus::from_wire(x[1 + k].reply->Ok_0) is None
        },
        Err(FlashError::OutOfStep { received, sent }) => {
            let k = x.len() - 3;
            &&& image.len() > 0
            &&& image[0] == 0xE9
            &&& 0 <= k < n
            &&& confirmed(image, x, k)
            &&& x[1 + k] == data_exchange(image, k, x[1 + k].reply)
            &&& x[1 + k].reply is Ok
            &&& OtaStatus::from_wire(x[1 + k].reply->Ok_0) == Some(OtaStatus { received })
            &&& !confirms(image, k, x[1 + k].reply)
            &&& sent == sent_after(image, k + 1)
            &&& is_abort(x[2 + k])
        },
        Err(FlashError::Finish(cause)) => {
            &&& x.len() == n + 2
            &&& image.len() > 0
            &&& image[0] == 0xE9
            &&& confirmed(image, x, n)
            &&& x[n + 1] == end_exchange(Err(cause@))
        },
        Err(FlashError::Rejected(f)) => {
            &&& x.len() == n + 2
            &&& image.len() > 0
            &&& image[0] == 0xE9
            &&& confirmed(image, x, n)
            &&& x[n + 1] == end_exchange(x[n + 1].reply)
            &&& x[n + 1].reply is Ok
            &&& ack_fault(x[n + 1].reply->Ok_0) == Some(f)
        },
        Err(FlashError::Asking(_)) => false,
        Err(FlashError::ShortInfo) => false,
    }
}

/// What was reported once `k` chunks were confirmed.
pub open spec fn reports_of(image: Seq<u8>, k: int) -> Seq<(u32, u32)> {
    Seq::new(
        k as nat,
        |i: int| (sent_after(image, i + 1) as u32, image.len() as u32),
    )
}

/// How many chunks a transfer got confirmed.
pub open spec fn confirmed_count(image: Seq<u8>, x: Seq<Exchange>, r: Result<(), FlashError>) -> int {
    match r {
        Ok(_) => chunk_count(image),
        Err(FlashError::Sending { .. }) => x.len() - 3,
        Err(FlashError::ShortStatus) => x.len() - 2,
        Err(FlashError::OutOfStep { .. }) => x.len() - 3,
        Err(FlashError::Finish(_)) => chunk_count(image),
        Err(FlashError::Rejected(_)) => chunk_count(image),
        _ => 0,
    }
}

/// Tell the dongle to forget a transfer we are abandoning, so the next attempt
/// is not refused for arriving in the middle of this one. Best effort: the
/// error being reported is the one worth keeping.
fn abort<L: Link>(link: &mut L)
    ensures
        final(link).asked().len() == old(link).asked().len() + 1,
        final(link).asked().drop_last() == old(link).asked(),
        is_abort(final(link).asked().last()),
{
    let nothing: [u8; 0] = [];
    let _ = link.request(kind::OTA_ABORT, nothing.as_slice(), kind::ACK);
    assert(nothing@ =~= Seq::empty());
    assert(link.asked().drop_last() =~= old(link).asked());
}

/// The exchange asks the dongle what it runs, and this is what comes of it.
pub open spec fn tells_info(e: Exchange, r: Result<FirmwareInfo, FlashError>) -> bool {
    &&& e == (Exchange {
        kind: kind::GET_FIRMWARE,
        payload: Seq::empty(),
        want: kind::FIRMWARE,
        reply: e.reply,
    })
    &&& match r {
        Ok(info) => e.reply is Ok && info.read_from(e.reply->Ok_0),
        Err(FlashError::Asking(cause)) => e.reply == Err::<Seq<u8>, Seq<char>>(cause@),
        Err(FlashError::ShortInfo) => e.reply is Ok && e.reply->Ok_0.len()
            < FirmwareInfo::WIRE_LEN,
        Err(_) => false,
    }
}

/// Ask the dongle what it is running.
pub fn firmware_info<L: Link>(link: &mut L) -> (r: Result<FirmwareInfo, FlashError>)
    ensures
        ({
            let x = final(link).asked();
            &&& x.len() == old(link).asked().len() + 1
            &&& x.drop_last() == old(link).asked()
            &&& tells_info(x.last(), r)
        }),
{
    let nothing: [u8; 0] = [];
    assert(nothing@ =~= Seq::empty());
    let reply: Result<Vec<u8>, String> = link.request(
        kind::GET_FIRMWARE,
        nothing.as_slice(),
        kind::FIRMWARE,
    );
    assert(link.asked().drop_last() =~= old(link).asked());
    match reply {
        Ok(payload) => match FirmwareInfo::decode(payload.as_slice()) {
            Some(info) => Ok(info),
            None => Err(FlashError::ShortInfo),
        },
        Err(e) => Err(FlashError::Asking(e)),
    }
}

/// Hold a progress reply against what was sent. The reply is the flow control:
/// only one that confirms every byte lets the next chunk out.
pub fn check_status(reply: &[u8], sent: usize) -> (r: Result<(), FlashError>)
    ensures
        match r {
            Ok(_) => has_received(reply@, sent as int),
            Err(FlashError::ShortStatus) => OtaStatus::from_wire(reply@) is None,
            Err(FlashError::OutOfStep { received, sent: s }) => {
                &&& OtaStatus::from_wire(reply@) == Some(OtaStatus { received })
                &&& !has_received(reply@, sent as int)
                &&& s == sent
            },
            Err(_) => false,
        },
{
    match OtaStatus::decode(reply) {
        Some(status) => if status.received == sent as u32 {
            Ok(())
        } else {
            Err(FlashError::OutOfStep { received: status.received, sent })
        },
        None => Err(FlashError::ShortStatus),
    }
}

/// Send a run of image bytes and wait until it is on flash.
fn send_run<L: Link>(link: &mut L, image: &[u8], from: usize, to: usize) -> (r: Result<
    (),
    FlashError,
>)
    requires
        from <= to <= image@.len(),
        to - from <= OTA_CHUNK_MAX,
    ensures
        ({
            let x = final(link).asked().skip(old(link).asked().len() as int);
            &&& final(link).asked() == old(link).asked() + x
            &&& sends_run(image@, from as int, to as int, x, r)
        }),
{
    let ghost start = link.asked();
    let data: &[u8] = vstd::slice::slice_subrange(image, from, to);
    let mut chunk: [u8; 512] = [0; 512];
    let used: usize = OtaChunk::encode_into(from as u32, data, &mut chunk);
    let body: &[u8] = vstd::slice::slice_subrange(chunk.as_slice(), 0, used);
    assert(body@ =~= OtaChunk::wire(from as u32, data@));
    let reply: Result<Vec<u8>, String> = link.request(kind::OTA_DATA, body, kind::OTA_STATUS);
    let ghost e = run_exchange(image@, from as int, to as int, outcome(reply));
    proof {
        assert(link.asked() == start.push(e));
        assert(start.push(e) =~= start + seq![e]);
        assert((start + seq![e]).skip(start.len() as int) =~= seq![e]);
    }
    match reply {
        Ok(payload) => match check_status(payload.as_slice(), to) {
            Ok(_) => Ok(()),
            Err(fault) => {
                match fault {
                    FlashError::OutOfStep { .. } => {
                        abort(link);
                        proof {
                            lemma_tail(start, seq![e], link.asked());
                        }
                    },
                    _ => {},
                }
                Err(fault)
            },
        },
        Err(cause) => {
            abort(link);
            proof {
                lemma_tail(start, seq![e], link.asked());
            }
            Err(FlashError::Sending { from, to, cause })
        },
    }
}

/// Push an image and reboot into it.
///
/// `progress` is told how many bytes were sent, out of how many, as the
/// transfer proceeds.
pub fn flash<L: Link, W: Watcher>(link: &mut L, image: &[u8], progress: &mut W) -> (r: Result<
    (),
    FlashError,
>)
    ensures
        ({
            let x = final(link).asked().skip(old(link).asked().len() as int);
            &&& final(link).asked() == old(link).asked() + x
            &&& transfers(image@, x, r)
            &&& final(progress).told() == old(progress).told() + reports_of(
                image@,
                confirmed_count(image@, x, r),
            )
        }),
{
    let ghost start = link.asked();
    let ghost told = progress.told();
    proof {
        assert(start.skip(start.len() as int) =~= Seq::empty());
        assert(start + start.skip(start.len() as int) =~= start);
        assert(told + reports_of(image@, 0) =~= told);
    }
    let len: usize = image.len();
    if len == 0 {
        return Err(FlashError::EmptyImage);
    }
    // App images start with this byte. Catching it here turns a bootloader, a
    // zip or an error page that a proxy served instead of the file into a
    // sentence, rather than a flash erase followed by a digest mismatch.
    if image[0] != 0xE9 {
        return Err(FlashError::NotAnImage(image[0]));
    }
    let total: u32 = len as u32;
    let begin = OtaBegin { len: total, sha256: sha256(image) };
    let mut buf: [u8; 36] = [0; 36];
    begin.encode_into(&mut buf);
    assert(buf@ =~= OtaBegin::wire(total, sha256_of(image@)));
    let reply: Result<Vec<u8>, String> = link.request(kind::OTA_BEGIN, buf.as_slice(), kind::ACK);
    let ghost first = begin_exchange(image@, outcome(reply));
    proof {
        assert(link.asked() == start.push(first));
        assert(start.push(first).skip(start.len() as int) =~= seq![first]);
        assert(start.push(first) =~= start + seq![first]);
    }
    match reply {
        Ok(payload) => match check_ack(payload.as_slice()) {
            Ok(_) => {},
            Err(f) => return Err(FlashError::Refused(f)),
        },
        Err(e) => return Err(FlashError::Start(e)),
    }
    let mut sent: usize = 0;
    let ghost mut k: int = 0;
    let ghost mut x: Seq<Exchange> = seq![first];
    while sent < len
        invariant
            len == image@.len(),
            len > 0,
            image@[0] == 0xE9,
            total == len as u32,
            sent <= len,
            0 <= k,
            sent == sent_after(image@, k),
            k > 0 ==> sent_after(image@, k - 1) < len,
            x.len() == 1 + k,
            link.asked() == start + x,
            confirmed(image@, x, k),
            start == old(link).asked(),
            told == old(progress).told(),
            progress.told() == told + reports_of(image@, k),
        decreases len - sent,
    {
        let n: usize = if len - sent < OTA_CHUNK_MAX {
            len - sent
        } else {
            OTA_CHUNK_MAX
        };
        assert(sent + n == sent_after(image@, k + 1));
        let done: Result<(), FlashError> = send_run(link, image, sent, sent + n);
        let ghost before = x;
        let ghost y = link.asked().skip((start + before).len() as int);
        proof {
            lemma_count(image@, k);
            assert((start + before) + y =~= start + (before + y));
            assert((start + (before + y)).skip(start.len() as int) =~= before + y);
        }
        match done {
            Ok(_) => {},
            Err(fault) => {
                proof {
                    lemma_run_fails(image@, before, k, y, done);
                }
                return Err(fault);
            },
        }
        sent = sent + n;
        proof {
            x = before + y;
            assert(x =~= before.push(y[0]));
            lemma_confirmed_more(image@, before, k, y[0]);
        }
        progress.report(sent as u32, total);
        proof {
            assert(reports_of(image@, k + 1) =~= reports_of(image@, k).push(
                (sent as u32, total),
            ));
            assert(told + reports_of(image@, k + 1) =~= (told + reports_of(image@, k)).push(
                (sent as u32, total),
            ));
            k = k + 1;
        }
    }
    let nothing: [u8; 0] = [];
    let reply: Result<Vec<u8>, String> = link.request(
        kind::OTA_END,
        nothing.as_slice(),
        kind::ACK,
    );
    proof {
        assert(nothing@ =~= Seq::empty());
        lemma_count_is(image@, k);
        let e = end_exchange(outcome(reply));
        let y = x.push(e);
        assert(link.asked() == (start + x).push(e));
        assert((start + x).push(e) =~= start + y);
        assert((start + y).skip(start.len() as int) =~= y);
        lemma_confirmed_kept(image@, x, k, e);
    }
    match reply {
        Ok(payload) => match check_ack(payload.as_slice()) {
            Ok(_) => Ok(()),
            Err(f) => Err(FlashError::Rejected(f)),
        },
        Err(e) => Err(FlashError::Finish(e)),
    }
}

proof fn lemma_confirmed_kept(image: Seq<u8>, x: Seq<Exchange>, k: int, e: Exchange)
    requires
        confirmed(image, x, k),
        0 <= k,
    ensures
        confirmed(image, x.push(e), k),
{
    let y = x.push(e);
    assert(y[0] == x[0]);
    assert forall|i: int| 0 <= i < k implies #[trigger] y[1 + i] == data_exchange(
        image,
        i,
        y[1 + i].reply,
    ) && confirms(image, i, y[1 + i].reply) by {
        assert(y[1 + i] == x[1 + i]);
    }
}

proof fn lemma_confirmed_more(image: Seq<u8>, x: Seq<Exchange>, k: int, e: Exchange)
    requires
        confirmed(image, x, k),
        0 <= k,
        x.len() == 1 + k,
        e == data_exchange(image, k, e.reply),
        confirms(image, k, e.reply),
    ensures
        confirmed(image, x.push(e), k + 1),
{
    let y = x.push(e);
    assert(y[0] == x[0]);
    assert forall|i: int| 0 <= i < k + 1 implies #[trigger] y[1 + i] == data_exchange(
        image,
        i,
        y[1 + i].reply,
    ) && confirms(image, i, y[1 + i].reply) by {
        if i < k {
            assert(y[1 + i] == x[1 + i]);
        }
    }
}

proof fn lemma_run_fails(
    image: Seq<u8>,
    x: Seq<Exchange>,
    k: int,
    y: Seq<Exchange>,
    r: Result<(), FlashError>,
)
    requires
        image.len() > 0,
        image[0] == 0xE9,
        confirmed(image, x, k),
        0 <= k < chunk_count(image),
        x.len() == 1 + k,
        r is Err,
        sends_run(image, sent_after(image, k), sent_after(image, k + 1), y, r),
    ensures
        transfers(image, x + y, r),
        confirmed_count(image, x + y, r) == k,
{
    let all = x + y;
    lemma_confirmed_kept(image, x, k, y[0]);
    if y.len() == 2 {
        lemma_confirmed_kept(image, x.push(y[0]), k, y[1]);
        assert(all =~= x.push(y[0]).push(y[1]));
    } else {
        assert(all =~= x.push(y[0]));
    }
    assert(all[1 + k] == y[0]);
}

proof fn lemma_tail(start: Seq<Exchange>, x: Seq<Exchange>, all: Seq<Exchange>)
    requires
        all.len() == start.len() + x.len() + 1,
        all.drop_last() == start + x,
    ensures
        all.skip(start.len() as int) == x.push(all.last()),
        all == start + all.skip(start.len() as int),
{
    assert(all =~= (start + x).push(all.last()));
    assert(all.skip(start.len() as int) =~= x.push(all.last()));
    assert(all =~= start + x.push(all.last()));
}

proof fn lemma_count(image: Seq<u8>, k: int)
    requires
        0 <= k,
        sent_after(image, k) < image.len(),
    ensures
        k < chunk_count(image),
{
}

proof fn lemma_count_is(image: Seq<u8>, k: int)
    requires
        0 <= k,
        image.len() > 0,
        sent_after(image, k) == image.len(),
        k > 0 ==> sent_after(image, k - 1) < image.len(),
    ensures
        k == chunk_count(image),
{
}

/// The image bytes of the first `k` chunks.
pub open spec fn bytes_of(image: Seq<u8>, k: int) -> Seq<u8>
    decreases k,
{
    if k <= 0 {
        Seq::empty()
    } else {
        bytes_of(image, k - 1) + image.subrange(sent_after(image, k - 1), sent_after(image, k))
    }
}

/// The chunks of a transfer put together are the image: every byte is sent
/// once, in order, and none is left out. Each chunk fits its message and is at
/// the place that the ones before it lead up to.
pub proof fn law_every_byte_is_sent_once(image: Seq<u8>, k: int)
    requires
        0 <= k,
    ensures
        bytes_of(image, k) == image.take(sent_after(image, k)),
        sent_after(image, chunk_count(image)) == image.len(),
        sent_after(image, 0) == 0,
        k < chunk_count(image) ==> 0 < sent_after(image, k + 1) - sent_after(image, k)
            <= OTA_CHUNK_MAX,
    decreases k,
{
    if k > 0 {
        law_every_byte_is_sent_once(image, k - 1);
        let a = sent_after(image, k - 1);
        let b = sent_after(image, k);
        assert(image.take(a) + image.subrange(a, b) =~= image.take(b));
    } else {
        assert(image.take(0) =~= Seq::empty());
    }
}

/// The image bytes that the first `k` chunks among some exchanges carried.
pub open spec fn carried(x: Seq<Exchange>, k: int) -> Seq<u8>
    decreases k,
{
    if k <= 0 {
        Seq::empty()
    } else {
        carried(x, k - 1) + x[k].payload.skip(4)
    }
}

proof fn lemma_carried(image: Seq<u8>, x: Seq<Exchange>, k: int)
    requires
        confirmed(image, x, k),
        0 <= k <= chunk_count(image),
    ensures
        carried(x, k) == image.take(sent_after(image, k)),
    decreases k,
{
    law_every_byte_is_sent_once(image, k);
    if k > 0 {
        lemma_carried(image, x, k - 1);
        law_every_byte_is_sent_once(image, k - 1);
        let (a, b) = (sent_after(image, k - 1), sent_after(image, k));
        assert(x[1 + (k - 1)] == data_exchange(image, k - 1, x[k].reply));
        assert(x[k].payload.skip(4) =~= image.subrange(a, b));
        assert(image.take(a) + image.subrange(a, b) =~= image.take(b));
    } else {
        assert(image.take(0) =~= Seq::empty());
    }
}

/// What cannot be an image is refused without asking or telling anybody
/// anything, and only that is.
pub proof fn law_only_an_image_is_sent(image: Seq<u8>, x: Seq<Exchange>, r: Result<(), FlashError>)
    requires
        transfers(image, x, r),
    ensures
        image.len() == 0 <==> r matches Err(FlashError::EmptyImage),
        image.len() > 0 && image[0] != 0xE9 <==> r matches Err(FlashError::NotAnImage(_)),
        image.len() == 0 || image[0] != 0xE9 ==> {
            &&& r is Err
            &&& x.len() == 0
            &&& reports_of(image, confirmed_count(image, x, r)) == Seq::<(u32, u32)>::empty()
        },
{
    if image.len() == 0 || image[0] != 0xE9 {
        assert(reports_of(image, confirmed_count(image, x, r)) =~= Seq::empty());
    }
}

/// An update is described before it is sent, by its length and its digest, and
/// nothing else is asked unless the dongle agrees to that. One that succeeds
/// sends the whole image, in order, a chunk at a time and each at its place,
/// then ends, and reports once a chunk, last that all of it is sent. A dongle
/// that has another number of bytes than were sent is told to forget them.
pub proof fn law_an_update_is_described_and_then_sent_whole(
    image: Seq<u8>,
    x: Seq<Exchange>,
    r: Result<(), FlashError>,
)
    requires
        transfers(image, x, r),
        0 < image.len() <= u32::MAX,
        image[0] == 0xE9,
    ensures
        ({
            let n = chunk_count(image);
            let told = reports_of(image, confirmed_count(image, x, r));
            &&& x.len() >= 1
            &&& x[0].kind == kind::OTA_BEGIN
            &&& x[0].payload == crate::bytes::le32(image.len() as int) + sha256_of(image)
            &&& !(x[0].reply is Ok && ack_fault(x[0].reply->Ok_0) is None) ==> x.len() == 1 && r
                is Err
            &&& r is Ok ==> {
                &&& n >= 1
                &&& x.len() == n + 2
                &&& carried(x, n) == image
                &&& forall|i: int|
                    #![trigger x[1 + i]]
                    0 <= i < n ==> {
                        &&& x[1 + i].kind == kind::OTA_DATA
                        &&& x[1 + i].payload.take(4) == crate::bytes::le32(sent_after(image, i))
                        &&& 0 < x[1 + i].payload.len() - 4 <= OTA_CHUNK_MAX
                    }
                &&& x[n + 1].kind == kind::OTA_END
                &&& x[n + 1].reply is Ok && ack_fault(x[n + 1].reply->Ok_0) is None
                &&& told.len() == n
                &&& told.last() == (image.len() as u32, image.len() as u32)
            }
            &&& forall|i: int|
                #![trigger x[1 + i]]
                0 <= i < x.len() - 1 && x[1 + i].kind == kind::OTA_DATA && x[1 + i].reply is Ok
                    && OtaStatus::from_wire(x[1 + i].reply->Ok_0) is Some && !confirms(
                    image,
                    i,
                    x[1 + i].reply,
                ) ==> (r matches Err(FlashError::OutOfStep { .. })) && is_abort(x.last())
        }),
{
    let n = chunk_count(image);
    let done = confirmed_count(image, x, r);
    law_every_byte_is_sent_once(image, 0);
    law_every_byte_is_sent_once(image, n);
    law_every_byte_is_sent_once(image, n - 1);
    assert forall|i: int|
        #![trigger x[1 + i]]
        0 <= i < x.len() - 1 && x[1 + i].kind == kind::OTA_DATA && x[1 + i].reply is Ok
            && OtaStatus::from_wire(x[1 + i].reply->Ok_0) is Some && !confirms(
            image,
            i,
            x[1 + i].reply,
        ) implies (r matches Err(FlashError::OutOfStep { .. })) && is_abort(x.last()) by {
        if i < done {
            assert(confirms(image, i, x[1 + i].reply));
        }
    }
    if r is Ok {
        lemma_carried(image, x, n);
        assert(image.take(image.len() as int) =~= image);
        assert forall|i: int|
            #![trigger x[1 + i]]
            0 <= i < n implies x[1 + i].kind == kind::OTA_DATA && x[1 + i].payload.take(4)
            == crate::bytes::le32(sent_after(image, i)) && 0 < x[1 + i].payload.len() - 4
            <= OTA_CHUNK_MAX by {
            law_every_byte_is_sent_once(image, i);
            assert(x[1 + i] == data_exchange(image, i, x[1 + i].reply));
            assert(x[1 + i].payload.take(4) =~= crate::bytes::le32(sent_after(image, i)));
        }
    }
}

/// An acknowledgement agrees where its first byte is zero. Four says that it is
/// not permitted, five that the update failed, one that the request was not
/// understood, and any other code is handed on; an empty one is a fault too.
pub proof fn law_what_an_acknowledgement_says(payload: Seq<u8>)
    ensures
        payload.len() == 0 ==> ack_fault(payload) == Some(AckFault::Empty),
        payload.len() > 0 ==> {
            let code = payload[0];
            &&& ack_fault(payload) is None <==> code == 0
            &&& code == 4 <==> ack_fault(payload) == Some(AckFault::NotPermitted)
            &&& code == 5 <==> ack_fault(payload) == Some(AckFault::OtaFailed)
            &&& code == 1 <==> ack_fault(payload) == Some(AckFault::BadRequest)
            &&& code == 2 || code == 3 || code > 5 ==> ack_fault(payload) == Some(
                AckFault::Other(code),
            )
        },
{
}

/// The smaller of two numbers.
pub open spec fn lesser(a: int, b: int) -> int {
    if a < b {
        a
    } else {
        b
    }
}

/// A reply says this number, in four bytes of which the first weighs least.
pub open spec fn says_number(reply: Outcome, n: int) -> bool {
    match reply {
        Ok(p) => p.len() >= 4 && p[0] + 256 * p[1] + 65536 * p[2] + 16777216 * p[3] == n,
        Err(_) => false,
    }
}

/// The exchange announces an image by its length and digest.
pub open spec fn announces(e: Exchange, image: Seq<u8>) -> bool {
    &&& e.kind == 0x1B
    &&& e.want == 0x15
    &&& e.payload.len() == 4 + sha256_of(image).len()
    &&& e.payload[0] + 256 * e.payload[1] + 65536 * e.payload[2] + 16777216 * e.payload[3]
        == image.len()
    &&& e.payload.skip(4) == sha256_of(image)
}

/// The exchange carries the `i`th run of 508 image bytes, or what is left of the
/// image there, under its place.
pub open spec fn carries(e: Exchange, image: Seq<u8>, i: int) -> bool {
    let to = lesser(508 * i + 508, image.len() as int);
    &&& e.kind == 0x1C
    &&& e.want == 0x1D
    &&& 508 * i < image.len()
    &&& e.payload.len() >= 4
    &&& e.payload[0] + 256 * e.payload[1] + 65536 * e.payload[2] + 16777216 * e.payload[3] == 508 * i
    &&& e.payload.skip(4) == image.subrange(508 * i, to)
}

proof fn lemma_announces(image: Seq<u8>, reply: Outcome)
    requires
        image.len() <= u32::MAX,
    ensures
        announces(begin_exchange(image, reply), image),
{
    let p = begin_exchange(image, reply).payload;
    crate::bytes::law_the_first_byte_weighs_least(image.len() as int);
    assert(p.skip(4) =~= sha256_of(image));
}

proof fn lemma_carries(image: Seq<u8>, k: int, reply: Outcome)
    requires
        image.len() <= u32::MAX,
        0 <= k < chunk_count(image),
    ensures
        carries(data_exchange(image, k, reply), image, k),
        sent_after(image, k + 1) == lesser(508 * k + 508, image.len() as int),
{
    law_every_byte_is_sent_once(image, k);
    let p = data_exchange(image, k, reply).payload;
    let (a, b) = (sent_after(image, k), sent_after(image, k + 1));
    crate::bytes::law_the_first_byte_weighs_least(a);
    assert(p.skip(4) =~= image.subrange(a, b));
}

/// What an update asks, step by step. First the image is announced. Where that
/// is agreed to the image goes out in runs of 508 bytes, each at its place and
/// each only once the dongle said that it has all the bytes of those before it.
/// Once it has them all the end is announced, and the update succeeds where that
/// is agreed to.
pub proof fn law_what_an_update_asks(
    image: Seq<u8>,
    x: Seq<Exchange>,
    r: Result<(), FlashError>,
    i: int,
)
    requires
        transfers(image, x, r),
        0 < image.len() <= u32::MAX,
        image[0] == 0xE9,
        0 <= i,
    ensures
        x.len() >= 1 && announces(x[0], image),
        x.len() > 1 ==> x[0].reply is Ok && x[0].reply->Ok_0.len() > 0 && x[0].reply->Ok_0[0] == 0,
        i + 1 < x.len() && x[i + 1].kind == 0x1C ==> carries(x[i + 1], image, i),
        i + 2 < x.len() && x[i + 2].kind != 0x1F ==> x[i + 1].kind == 0x1C && says_number(
            x[i + 1].reply,
            lesser(508 * i + 508, image.len() as int),
        ),
        i + 1 < x.len() && x[i + 1].kind != 0x1C ==> i + 2 == x.len() && (x[i + 1].kind == 0x1E
            || x[i + 1].kind == 0x1F) && x[i + 1].payload.len() == 0 && x[i + 1].want == 0x15,
        i + 1 < x.len() && x[i + 1].kind == 0x1E ==> 508 * i >= image.len() && 508 * (i - 1)
            < image.len(),
        r is Ok <==> x.last().kind == 0x1E && x.last().reply is Ok && x.last().reply->Ok_0.len() > 0
            && x.last().reply->Ok_0[0] == 0,
{
    let n = chunk_count(image);
    let done = confirmed_count(image, x, r);
    lemma_announces(image, x[0].reply);
    law_every_byte_is_sent_once(image, 0);
    if i + 1 < x.len() && i < n {
        lemma_carries(image, i, x[i + 1].reply);
        if i < done {
            assert(x[1 + i] == data_exchange(image, i, x[1 + i].reply));
            assert(confirms(image, i, x[1 + i].reply));
        }
    }
    if i + 2 < x.len() && i + 1 < n && i + 1 < done {
        assert(x[1 + (i + 1)] == data_exchange(image, i + 1, x[1 + (i + 1)].reply));
    }
}

/// What an update that failed says of it: what the link said where a request
/// failed, and what the dongle said where it refused. Where image bytes could
/// not be sent, or the dongle has another number of them, it is told to forget
/// the update, and nothing is asked after that.
pub proof fn law_what_a_failed_update_says(
    image: Seq<u8>,
    x: Seq<Exchange>,
    r: Result<(), FlashError>,
)
    requires
        transfers(image, x, r),
        0 < image.len() <= u32::MAX,
        image[0] == 0xE9,
    ensures
        ({
            let n = x.len() as int;
            match r {
                Ok(_) => x[n - 1].kind == 0x1E,
                Err(FlashError::Start(cause)) => n == 1 && x[0].reply == Err::<Seq<u8>, Seq<char>>(
                    cause@,
                ),
                Err(FlashError::Refused(f)) => n == 1 && x[0].reply is Ok && ack_fault(
                    x[0].reply->Ok_0,
                ) == Some(f),
                Err(FlashError::Sending { from, to, cause }) => n >= 3 && x[n - 1].kind == 0x1F
                    && x[n - 2].kind == 0x1C && x[n - 2].reply == Err::<Seq<u8>, Seq<char>>(cause@)
                    && from == 508 * (n - 3) && to == lesser(from + 508, image.len() as int),
                Err(FlashError::ShortStatus) => n >= 2 && x[n - 1].kind == 0x1C && x[n - 1].reply
                    is Ok && x[n - 1].reply->Ok_0.len() < 4,
                Err(FlashError::OutOfStep { received, sent }) => n >= 3 && x[n - 1].kind == 0x1F
                    && x[n - 2].kind == 0x1C && says_number(x[n - 2].reply, received as int) && sent
                    == lesser(508 * (n - 3) + 508, image.len() as int) && received != sent,
                Err(FlashError::Finish(cause)) => n >= 2 && x[n - 1].kind == 0x1E && x[n - 1].reply
                    == Err::<Seq<u8>, Seq<char>>(cause@),
                Err(FlashError::Rejected(f)) => n >= 2 && x[n - 1].kind == 0x1E && x[n - 1].reply
                    is Ok && ack_fault(x[n - 1].reply->Ok_0) == Some(f),
                _ => false,
            }
        }),
{
    let n = x.len() as int;
    law_every_byte_is_sent_once(image, chunk_count(image));
    if n >= 3 && n - 3 < chunk_count(image) {
        lemma_carries(image, n - 3, x[n - 2].reply);
    }
}

/// One report for each run that the dongle confirmed: how many bytes that makes
/// so far, out of the whole image.
pub proof fn law_what_is_reported(
    image: Seq<u8>,
    x: Seq<Exchange>,
    r: Result<(), FlashError>,
    i: int,
)
    requires
        transfers(image, x, r),
        0 < image.len() <= u32::MAX,
        image[0] == 0xE9,
        0 <= i,
    ensures
        ({
            let told = reports_of(image, confirmed_count(image, x, r));
            &&& i < told.len() <==> i + 1 < x.len() && x[i + 1].kind == 0x1C && says_number(
                x[i + 1].reply,
                lesser(508 * i + 508, image.len() as int),
            )
            &&& i < told.len() ==> told[i].0 == lesser(508 * i + 508, image.len() as int)
                && told[i].1 == image.len()
        }),
{
    let n = chunk_count(image);
    let done = confirmed_count(image, x, r);
    law_every_byte_is_sent_once(image, n);
    if i < n {
        lemma_carries(image, i, x[i + 1].reply);
        if i < done {
            assert(x[1 + i] == data_exchange(image, i, x[1 + i].reply));
            assert(confirms(image, i, x[1 + i].reply));
        }
    }
}

/// The dongle is asked what it runs with a message of kind 0x19 that says
/// nothing more, and a reply of kind 0x1A is waited for. Thirty-three bytes or
/// more tell it: two flags, and the version.
pub proof fn law_how_the_dongle_is_asked(e: Exchange, r: Result<FirmwareInfo, FlashError>, i: int)
    requires
        tells_info(e, r),
        0 <= i < 32,
    ensures
        e.kind == 0x19 && e.want == 0x1A && e.payload.len() == 0,
        r is Ok <==> e.reply is Ok && e.reply->Ok_0.len() >= 33,
        r matches Ok(info) ==> info.version@[i] == e.reply->Ok_0[1 + i] && (info.pending_verify
            <==> e.reply->Ok_0[0] % 2 == 1) && (info.ota_capable <==> e.reply->Ok_0[0] / 2 % 2 == 1),
        r matches Err(FlashError::Asking(cause)) ==> e.reply == Err::<Seq<u8>, Seq<char>>(cause@),
        e.reply is Err ==> r matches Err(FlashError::Asking(_)),
{
    if let Ok(info) = r {
        crate::proto::ota::law_what_the_dongle_runs(info, e.reply->Ok_0, i);
    }
}

} // verus!
