//! Local control socket.
//!
//! The daemon holds the dongle's serial port exclusively, so nothing else can
//! open it. Instead the daemon exposes a socket and proxies requests through to
//! the dongle, which keeps one owner of the port and gives every other process
//! a way in.
//!
//! The framing is the same header used on the wire, so a request that is really
//! destined for the dongle can be forwarded verbatim rather than translated
//! into a second protocol that could drift.

use vstd::prelude::*;
use vstd::string::StringSliceAdditionalSpecFns;
use vstd::utf8::{encode_utf8, is_char_boundary, valid_utf8};

pub mod local;
pub mod state;

pub use crate::ipc::state::DaemonState;
pub use crate::ipc::state::Pending;

use crate::bytes::u16_at;
use crate::proto::ack;
use crate::proto::header::Header;
use crate::proto::kind;
use crate::proto::{MAGIC, MAX_PAYLOAD, VERSION};
use crate::text::{chars_of, decimal, hex_byte, lossy, readable, push_decimal, push_hex_byte};

verus! {

/// A directory and a file in it.
pub open spec fn path_in(dir: Seq<char>, file: Seq<char>) -> Seq<char> {
    if dir.len() == 0 || dir.last() == '/' {
        dir + file
    } else {
        dir + "/"@ + file
    }
}

/// Where the socket lives.
///
/// The runtime directory when the session provides one (it is cleaned up on
/// logout and is not world-readable); otherwise a dotfile in the home
/// directory, which is the only portable fallback on macOS, where no such
/// directory exists.
pub fn socket_path(runtime_dir: Option<&str>, home: Option<&str>) -> (r: String)
    ensures
        r@ == match runtime_dir {
            Some(dir) => path_in(dir@, "scurry.sock"@),
            None => match home {
                Some(dir) => path_in(dir@, ".scurry.sock"@),
                None => ".scurry.sock"@,
            },
        },
{
    match runtime_dir {
        Some(dir) => path_to(dir, "scurry.sock"),
        None => match home {
            Some(dir) => path_to(dir, ".scurry.sock"),
            None => String::from_str(".scurry.sock"),
        },
    }
}

/// The path of a file in a directory.
pub fn path_to(dir: &str, file: &str) -> (r: String)
    ensures
        r@ == path_in(dir@, file@),
{
    let chars: Vec<char> = chars_of(dir);
    let mut s = String::from_str(dir);
    if chars.len() > 0 && chars[chars.len() - 1] != '/' {
        s.append("/");
    }
    s.append(file);
    s
}

/// A request kind in words.
pub open spec fn kind_text(kind: u8) -> Seq<char> {
    if kind == kind::GET_CONFIG {
        "a request for the layout"@
    } else if kind == kind::SET_CONFIG {
        "a layout write"@
    } else if kind == kind::GET_STATUS {
        "a status request"@
    } else if kind == kind::PING {
        "a ping"@
    } else {
        "a 0x"@ + hex_byte(kind) + " request"@
    }
}

/// A request kind in words, for messages a user reads.
pub fn kind_name(kind: u8) -> (r: String)
    ensures
        r@ == kind_text(kind),
{
    if kind == kind::GET_CONFIG {
        String::from_str("a request for the layout")
    } else if kind == kind::SET_CONFIG {
        String::from_str("a layout write")
    } else if kind == kind::GET_STATUS {
        String::from_str("a status request")
    } else if kind == kind::PING {
        String::from_str("a ping")
    } else {
        let mut s = String::from_str("a 0x");
        push_hex_byte(&mut s, kind);
        s.append(" request");
        s
    }
}

/// What a requester is told when no answer came within the given time.
pub fn no_answer(kind: u8, within: &str) -> (r: String)
    ensures
        r@ == "the dongle did not answer "@ + kind_text(kind) + " within "@ + within@,
{
    let mut s = String::from_str("the dongle did not answer ");
    s.append(kind_name(kind).as_str());
    s.append(" within ");
    s.append(within);
    s
}

/// The kind of reply that a request is answered with.
pub open spec fn reply_kind(kind: u8) -> u8 {
    if kind == kind::GET_CONFIG {
        kind::CONFIG
    } else if kind == kind::GET_STATUS {
        kind::STATUS
    } else if kind == kind::GET_WIRELESS {
        kind::WIRELESS
    } else if kind == kind::GET_FIRMWARE {
        kind::FIRMWARE
    } else if kind == kind::OTA_DATA {
        kind::OTA_STATUS
    } else if kind == kind::PING {
        kind::PONG
    } else {
        kind::ACK
    }
}

/// What becomes of a request on the control socket.
#[derive(Debug, Clone, Copy, PartialEq, Eq, Structural)]
pub enum Dispatch {
    /// The daemon answers itself: the node that holds the pointer, and that the
    /// link is up.
    Answer { kind: u8, focus: u8, link_ok: u8 },
    /// It is for the dongle; forward it and relay the answer.
    Forward { want: u8 },
}

/// What becomes of a request of this kind, while this node holds the pointer.
pub open spec fn dispatched(kind: u8, focus: u8) -> Dispatch {
    if kind == local::GET_DAEMON_STATUS {
        Dispatch::Answer { kind: local::DAEMON_STATUS, focus, link_ok: 1 }
    } else {
        Dispatch::Forward { want: reply_kind(kind) }
    }
}

/// Decide what becomes of a request.
pub fn dispatch(kind: u8, focus: u8) -> (r: Dispatch)
    ensures
        r == dispatched(kind, focus),
{
    if kind == local::GET_DAEMON_STATUS {
        return Dispatch::Answer { kind: local::DAEMON_STATUS, focus, link_ok: 1 };
    }
    let want: u8 = if kind == kind::GET_CONFIG {
        kind::CONFIG
    } else if kind == kind::GET_STATUS {
        kind::STATUS
    } else if kind == kind::GET_WIRELESS {
        kind::WIRELESS
    } else if kind == kind::GET_FIRMWARE {
        kind::FIRMWARE
    } else if kind == kind::OTA_DATA {
        kind::OTA_STATUS
    } else if kind == kind::PING {
        kind::PONG
    } else {
        kind::ACK
    };
    Dispatch::Forward { want }
}

/// The last character boundary at or before `n`.
pub open spec fn boundary_before(b: Seq<u8>, n: int) -> int
    decreases n,
{
    if n <= 0 {
        0
    } else if n >= b.len() {
        b.len() as int
    } else if is_char_boundary(b, n) {
        n
    } else {
        boundary_before(b, n - 1)
    }
}

/// What is refused, in bytes: the code, then as much of the reason as fits
/// without splitting a character.
pub open spec fn refused(reason: Seq<char>) -> Seq<u8> {
    let b = encode_utf8(reason);
    seq![ack::BAD_REQUEST] + b.take(boundary_before(b, MAX_PAYLOAD - 1))
}

/// An ACK the daemon itself produces, with the reason spelled out after the
/// code.
///
/// The dongle's own ACKs are one byte, and a bare code would not tell whether
/// the dongle had refused the request or nothing had answered at all. Readers
/// that only look at the code are unaffected.
pub fn refusal(reason: &str) -> (r: Vec<u8>)
    ensures
        r@ == refused(reason@),
{
    let bytes: &[u8] = reason.as_bytes();
    let ghost b = encode_utf8(reason@);
    let n: usize = bytes.len();
    let mut cut: usize = if n < MAX_PAYLOAD - 1 {
        n
    } else {
        MAX_PAYLOAD - 1
    };
    while cut > 0 && cut < n && !reason.is_char_boundary(cut)
        invariant
            cut <= n == b.len(),
            cut <= MAX_PAYLOAD - 1,
            b == reason.spec_bytes(),
            boundary_before(b, MAX_PAYLOAD - 1) == boundary_before(b, cut as int),
        decreases cut,
    {
        cut = cut - 1;
    }
    let mut out: Vec<u8> = Vec::new();
    out.push(ack::BAD_REQUEST);
    let head: &[u8] = vstd::slice::slice_subrange(bytes, 0, cut);
    assert(head@ =~= b.take(cut as int));
    out.extend_from_slice(head);
    assert(out@ =~= refused(reason@));
    out
}

/// An ack code in words.
pub open spec fn ack_text(code: u8) -> Seq<char> {
    if code == ack::OK {
        "ok"@
    } else if code == ack::BAD_REQUEST {
        "bad request"@
    } else if code == ack::INVALID_LAYOUT {
        "invalid layout"@
    } else if code == ack::STORAGE_FAILED {
        "storage failed"@
    } else {
        "unknown error"@
    }
}

/// What an ACK payload means: the reason that the daemon attached, where there
/// is one, and otherwise the code.
pub open spec fn ack_meaning(payload: Seq<u8>) -> Seq<char> {
    if payload.len() == 0 {
        ack_text(ack::BAD_REQUEST)
    } else if payload.len() == 1 {
        ack_text(payload[0])
    } else {
        readable(payload.skip(1))
    }
}

/// What an ACK payload means, in words.
pub fn ack_message(payload: &[u8]) -> (r: String)
    ensures
        r@ == ack_meaning(payload@),
{
    if payload.len() == 0 {
        return String::from_str(ack_name(ack::BAD_REQUEST));
    }
    if payload.len() == 1 {
        return String::from_str(ack_name(payload[0]));
    }
    let rest: &[u8] = vstd::slice::slice_subrange(payload, 1, payload.len());
    assert(rest@ =~= payload@.skip(1));
    lossy(rest)
}

/// An ack code in words.
pub fn ack_name(code: u8) -> (r: &'static str)
    ensures
        r@ == ack_text(code),
{
    if code == ack::OK {
        "ok"
    } else if code == ack::BAD_REQUEST {
        "bad request"
    } else if code == ack::INVALID_LAYOUT {
        "invalid layout"
    } else if code == ack::STORAGE_FAILED {
        "storage failed"
    } else {
        "unknown error"
    }
}

/// What is wrong with the header of a reply.
#[derive(Debug, Clone, Copy, PartialEq, Eq, Structural)]
pub enum ReplyError {
    NotScurry,
    Implausible(usize),
}

impl ReplyError {
    /// What the error says.
    pub open spec fn text(self) -> Seq<char> {
        match self {
            ReplyError::NotScurry => "reply is not a scurry message"@,
            ReplyError::Implausible(n) => "reply payload of "@ + decimal(n as int)
                + " bytes is implausible"@,
        }
    }

    /// The error in words.
    pub fn message(&self) -> (r: String)
        ensures
            r@ == self.text(),
    {
        match self {
            ReplyError::NotScurry => String::from_str("reply is not a scurry message"),
            ReplyError::Implausible(n) => {
                let mut s = String::from_str("reply payload of ");
                push_decimal(&mut s, *n as u64);
                s.append(" bytes is implausible");
                s
            },
        }
    }
}

/// What the header of a reply says: its kind and how many bytes follow.
pub open spec fn reply_of(head: Seq<u8>) -> Result<(u8, usize), ReplyError> {
    if head[0] != MAGIC || head[1] != VERSION {
        Err(ReplyError::NotScurry)
    } else if u16_at(head, 6) > MAX_PAYLOAD {
        Err(ReplyError::Implausible(u16_at(head, 6) as usize))
    } else {
        Ok((head[2], u16_at(head, 6) as usize))
    }
}

/// Read the header of a reply.
pub fn read_reply_header(head: &[u8; 8]) -> (r: Result<(u8, usize), ReplyError>)
    ensures
        r == reply_of(head@),
{
    if head[0] != MAGIC || head[1] != VERSION {
        return Err(ReplyError::NotScurry);
    }
    let len: usize = crate::bytes::read_u16(head.as_slice(), 6) as usize;
    if len > MAX_PAYLOAD {
        return Err(ReplyError::Implausible(len));
    }
    Ok((head[2], len))
}

proof fn lemma_boundary_before(b: Seq<u8>, n: int)
    requires
        valid_utf8(b),
        n >= 0,
    ensures
        0 <= boundary_before(b, n) <= b.len(),
        boundary_before(b, n) <= n,
        is_char_boundary(b, boundary_before(b, n)),
        b.len() <= n ==> boundary_before(b, n) == b.len(),
        forall|k: int|
            boundary_before(b, n) < k <= n && k <= b.len() ==> !(#[trigger] is_char_boundary(b, k)),
    decreases n,
{
    vstd::utf8::is_char_boundary_start_end_of_seq(b);
    if 0 < n < b.len() && !is_char_boundary(b, n) {
        lemma_boundary_before(b, n - 1);
    }
}

/// A refusal always fits the wire, carries the code for readers that look no
/// further, and what follows is whole characters: the reason, or as many of its
/// first characters as fit. A reason that is short enough is read back as it was
/// given.
pub proof fn law_a_refusal_carries_its_reason(reason: Seq<char>)
    ensures
        0 < refused(reason).len() <= MAX_PAYLOAD,
        refused(reason)[0] == ack::BAD_REQUEST,
        valid_utf8(refused(reason).skip(1)),
        refused(reason).skip(1) == encode_utf8(reason).take(refused(reason).len() - 1),
        forall|k: int|
            refused(reason).len() <= k < MAX_PAYLOAD && k <= encode_utf8(reason).len() ==> !(
            #[trigger] is_char_boundary(encode_utf8(reason), k)),
        0 < encode_utf8(reason).len() < MAX_PAYLOAD ==> ack_meaning(refused(reason)) == reason,
{
    let b = encode_utf8(reason);
    vstd::utf8::encode_utf8_valid_utf8(reason);
    lemma_boundary_before(b, MAX_PAYLOAD - 1);
    let cut = boundary_before(b, MAX_PAYLOAD - 1);
    vstd::utf8::valid_utf8_split(b, cut);
    assert(refused(reason).skip(1) =~= b.take(cut));
    assert(b.take(cut) =~= b.subrange(0, cut));
    vstd::utf8::encode_utf8_decode_utf8(reason);
    if b.len() < MAX_PAYLOAD {
        assert(b.take(cut) =~= b);
    }
}

/// The dongle's own one-byte ACKs read as their code, and the kinds that the
/// daemon answers itself lie above those that it forwards.
pub proof fn law_one_byte_acks_read_as_their_code(code: u8)
    ensures
        ack_meaning(seq![code]) == ack_text(code),
        local::GET_DAEMON_STATUS > kind::OTA_ABORT,
        local::DAEMON_STATUS > kind::OTA_ABORT,
{
}

/// A reply that the daemon frames is read by a client as it was meant.
pub proof fn law_reply_header_roundtrips(kind: u8, len: u16)
    requires
        len <= MAX_PAYLOAD,
    ensures
        reply_of(Header::wire(kind, 0, len)) == Ok::<(u8, usize), ReplyError>(
            (kind, len as usize),
        ),
{
    Header::law_roundtrip(kind, 0, len, Seq::empty());
    let h = Header::wire(kind, 0, len);
    assert(h + Seq::<u8>::empty() =~= h);
}

/// The daemon answers one kind itself, 0x40, with where the pointer is. Every
/// other request is the dongle's. A question is answered by the kind after it,
/// the reply to image bytes is how far they got, a ping is answered by a pong,
/// and everything else by an acknowledgement.
pub proof fn law_what_answers_a_request(kind: u8, focus: u8)
    ensures
        kind == 0x40 ==> dispatched(kind, focus) == (Dispatch::Answer {
            kind: 0x41,
            focus,
            link_ok: 1,
        }),
        kind != 0x40 ==> dispatched(kind, focus) is Forward,
        dispatched(kind, focus) matches Dispatch::Forward { want } ==> {
            &&& kind == 0x10 || kind == 0x13 || kind == 0x16 || kind == 0x19 || kind == 4 || kind
                == 0x1C ==> want == kind + 1
            &&& !(kind == 0x10 || kind == 0x13 || kind == 0x16 || kind == 0x19 || kind == 4 || kind
                == 0x1C) ==> want == 0x15
        },
{
}

/// The header of a reply is read off its bytes: 0x53, the version, the kind, and
/// the length in the last two, of which the first weighs less. It is refused
/// where the first two are others, or where more than 512 bytes would follow.
pub proof fn law_what_a_reply_header_says(head: Seq<u8>)
    ensures
        ({
            let len = head[6] + 256 * head[7];
            match reply_of(head) {
                Ok((kind, n)) => head[0] == 0x53 && head[1] == 3 && len <= 512 && kind == head[2]
                    && n == len,
                Err(ReplyError::NotScurry) => head[0] != 0x53 || head[1] != 3,
                Err(ReplyError::Implausible(n)) => head[0] == 0x53 && head[1] == 3 && len > 512 && n
                    == len,
            }
        }),
{
}

/// A path is a directory and a file with one slash between them, and none where
/// the directory ends with one already or is not named.
pub proof fn law_one_slash_between(dir: Seq<char>, file: Seq<char>)
    ensures
        path_in(Seq::empty(), file) == file,
        dir.len() > 0 && dir.last() == '/' ==> path_in(dir, file) == dir + file,
        dir.len() > 0 && dir.last() != '/' ==> path_in(dir, file) == dir + seq!['/'] + file,
{
    reveal_strlit("/");
    assert("/"@ =~= seq!['/']);
    assert(Seq::<char>::empty() + file =~= file);
}

/// An acknowledgement without a reason is read by its code, an empty one as a
/// bad request, and one with a reason as the reason.
pub proof fn law_what_an_acknowledgement_means(code: u8, reason: Seq<char>)
    requires
        reason.len() > 0,
    ensures
        ack_meaning(Seq::empty()) == ack_text(1),
        ack_meaning(seq![code]) == ack_text(code),
        ack_meaning(seq![code] + encode_utf8(reason)) == reason,
        ack_text(0) != ack_text(1) && ack_text(1) != ack_text(2) && ack_text(2) != ack_text(3),
{
    vstd::utf8::encode_utf8_valid_utf8(reason);
    vstd::utf8::encode_utf8_decode_utf8(reason);
    let p = seq![code] + encode_utf8(reason);
    assert(p.skip(1) =~= encode_utf8(reason));
    assert(encode_utf8(reason).len() > 0) by {
        if encode_utf8(reason).len() == 0 {
            assert(encode_utf8(reason) =~= Seq::empty());
            assert(encode_utf8(Seq::<char>::empty()) =~= Seq::empty());
            vstd::utf8::encode_utf8_decode_utf8(Seq::empty());
        }
    }
    reveal_strlit("ok");
    reveal_strlit("bad request");
    reveal_strlit("invalid layout");
    reveal_strlit("storage failed");
    assert(ack_text(0).len() == 2 && ack_text(1).len() == 11);
    assert(ack_text(2)[0] == 'i' && ack_text(3)[0] == 's');
}

} // verus!
