//! Frames out of a byte stream.

use vstd::prelude::*;

use crate::bytes::copy_range;
use crate::proto::header::Header;
use crate::proto::{HEADER_LEN, MAX_PAYLOAD};
use crate::text::{chars_of, lossy, readable};
use crate::transport::log::{lines_of, partial_of, split_lines, views};

verus! {

/// One decoded message from the dongle.
#[derive(Debug, Clone)]
pub struct Message {
    pub kind: u8,
    pub payload: Vec<u8>,
}

/// What a message says.
pub struct Note {
    pub kind: u8,
    pub payload: Seq<u8>,
}

impl View for Message {
    type V = Note;

    open spec fn view(&self) -> Note {
        Note { kind: self.kind, payload: self.payload@ }
    }
}

/// A frame: a header, then the payload.
pub open spec fn frame(kind: u8, seq: u16, payload: Seq<u8>) -> Seq<u8> {
    Header::wire(kind, seq, payload.len() as u16) + payload
}

/// Build a frame. Shared so the two transports cannot drift in how they encode
/// one, which would show up only as garbage on the far side.
pub fn encode(kind: u8, seq: u16, payload: &[u8]) -> (r: Vec<u8>)
    ensures
        r@ == frame(kind, seq, payload@),
{
    let header: [u8; HEADER_LEN] = Header::encode(kind, seq, payload.len() as u16);
    let mut out: Vec<u8> = Vec::new();
    out.extend_from_slice(header.as_slice());
    out.extend_from_slice(payload);
    assert(out@ =~= frame(kind, seq, payload@));
    out
}

/// The first place from `s` on where a header stands, or where too few bytes
/// are left for one.
pub open spec fn header_from(b: Seq<u8>, s: int) -> int
    decreases b.len() - s,
{
    if b.len() - s < HEADER_LEN || Header::from_wire(b.skip(s)) is Ok {
        s
    } else {
        header_from(b, s + 1)
    }
}

/// A whole message stands at `s`.
pub open spec fn complete_at(b: Seq<u8>, s: int) -> bool {
    &&& b.len() - s >= HEADER_LEN
    &&& Header::from_wire(b.skip(s)) is Ok
    &&& b.len() - s >= HEADER_LEN + Header::from_wire(b.skip(s)).unwrap().len
}

/// The message that stands at `s`.
pub open spec fn note_at(b: Seq<u8>, s: int) -> Note {
    let h = Header::from_wire(b.skip(s)).unwrap();
    Note { kind: h.kind, payload: b.subrange(s + HEADER_LEN, s + HEADER_LEN + h.len) }
}

/// The bytes that the message at `s` ends before.
pub open spec fn end_at(b: Seq<u8>, s: int) -> int {
    s + HEADER_LEN + Header::from_wire(b.skip(s)).unwrap().len
}

/// Every message of a byte stream that has arrived whole, in order.
pub open spec fn notes_of(b: Seq<u8>) -> Seq<Note>
    decreases b.len(),
{
    let s = header_from(b, 0);
    if 0 <= s && complete_at(b, s) {
        seq![note_at(b, s)] + notes_of(b.skip(end_at(b, s)))
    } else {
        Seq::empty()
    }
}

/// What is left of a byte stream once those messages are out.
pub open spec fn left_of(b: Seq<u8>) -> Seq<u8>
    decreases b.len(),
{
    let s = header_from(b, 0);
    if 0 <= s && complete_at(b, s) {
        left_of(b.skip(end_at(b, s)))
    } else {
        b.skip(s)
    }
}

/// The bytes of a stream that belong to no message and are not left over.
pub open spec fn passed_of(b: Seq<u8>) -> Seq<u8>
    decreases b.len(),
{
    let s = header_from(b, 0);
    if 0 <= s && complete_at(b, s) {
        b.take(s) + passed_of(b.skip(end_at(b, s)))
    } else {
        b.take(s)
    }
}

/// The log lines that go out while every whole message is pulled out.
pub open spec fn lines_in(p: Pending) -> Seq<Seq<char>>
    decreases p.buf.len(),
{
    let b = p.buf;
    let s = header_from(b, 0);
    if 0 <= s && complete_at(b, s) {
        p.lines(b.take(s)) + lines_in(
            Pending { buf: b.skip(end_at(b, s)), log: p.logged(b.take(s)) },
        )
    } else {
        p.lines(b.take(s))
    }
}

/// The log text that is kept once every whole message is out.
pub open spec fn log_left(p: Pending) -> Seq<char>
    decreases p.buf.len(),
{
    let b = p.buf;
    let s = header_from(b, 0);
    if 0 <= s && complete_at(b, s) {
        log_left(Pending { buf: b.skip(end_at(b, s)), log: p.logged(b.take(s)) })
    } else {
        p.logged(b.take(s))
    }
}

/// Reassembles frames out of a byte stream.
///
/// Neither transport delivers messages. The cable interleaves the firmware's
/// log output with the protocol and lands in whatever chunks the USB reads
/// happen to be; a BLE notification is bounded by the negotiated MTU, which no
/// config payload fits inside. So both sides of the wire run this same
/// resync-on-magic loop.
#[derive(Debug)]
pub struct Framer {
    /// Bytes read but not yet consumed, so a partial message survives a read.
    buf: Vec<u8>,
    /// Log text seen so far without a terminating newline. The dongle's output
    /// arrives in whatever chunks the reads land in, so a line routinely
    /// straddles two of them and would otherwise be printed in fragments.
    log_partial: String,
}

/// What a framer holds.
pub struct Pending {
    /// Bytes not yet consumed.
    pub buf: Seq<u8>,
    /// Log text without a newline yet.
    pub log: Seq<char>,
}

impl Pending {
    /// Log bytes taken in: complete lines go out, the rest is kept.
    pub open spec fn logged(self, bytes: Seq<u8>) -> Seq<char> {
        if bytes.len() == 0 {
            self.log
        } else {
            partial_of(self.log + readable(bytes))
        }
    }

    /// The lines that go out when log bytes are taken in.
    pub open spec fn lines(self, bytes: Seq<u8>) -> Seq<Seq<char>> {
        if bytes.len() == 0 {
            Seq::empty()
        } else {
            lines_of(self.log + readable(bytes))
        }
    }
}

impl View for Framer {
    type V = Pending;

    closed spec fn view(&self) -> Pending {
        Pending { buf: self.buf@, log: self.log_partial@ }
    }
}

impl Default for Framer {
    fn default() -> (r: Self)
        ensures
            r@ == (Pending { buf: Seq::empty(), log: Seq::empty() }),
    {
        Framer { buf: Vec::new(), log_partial: String::new() }
    }
}

impl Framer {
    /// An empty framer with room for `n` bytes.
    pub fn with_capacity(n: usize) -> (r: Self)
        ensures
            r@ == (Pending { buf: Seq::empty(), log: Seq::empty() }),
    {
        Framer { buf: Vec::with_capacity(n), log_partial: String::new() }
    }

    /// Take in bytes that were read.
    pub fn push(&mut self, data: &[u8])
        ensures
            final(self)@ == (Pending { buf: old(self)@.buf + data@, ..old(self)@ }),
    {
        let ghost before = self.buf@;
        self.buf.extend_from_slice(data);
        assert(self.buf@ =~= before + data@);
    }

    /// Pull the next complete message out, handing anything that is not one to
    /// `on_log` rather than dropping it silently: on the cable that text is
    /// the only window into the firmware while the port is held open.
    ///
    /// What stands before the message goes with it, or the stream would stay
    /// misaligned from the first message that follows log output. Where there
    /// is no whole message yet, the last few bytes are kept: a header may be
    /// split across reads.
    pub fn take(&mut self, on_log: &mut Vec<String>) -> (r: Option<Message>)
        ensures
            ({
                let b = old(self)@.buf;
                let s = header_from(b, 0);
                &&& 0 <= s <= b.len()
                &&& views(final(on_log)@) == views(old(on_log)@) + old(self)@.lines(b.take(s))
                &&& final(self)@.log == old(self)@.logged(b.take(s))
                &&& match r {
                    Some(m) => {
                        &&& complete_at(b, s)
                        &&& m@ == note_at(b, s)
                        &&& final(self)@.buf == b.skip(end_at(b, s))
                        &&& notes_of(b) == seq![m@] + notes_of(final(self)@.buf)
                        &&& left_of(b) == left_of(final(self)@.buf)
                        &&& lines_in(old(self)@) == old(self)@.lines(b.take(s)) + lines_in(
                            final(self)@,
                        )
                        &&& log_left(old(self)@) == log_left(final(self)@)
                    },
                    None => {
                        &&& !complete_at(b, s)
                        &&& final(self)@.buf == b.skip(s)
                        &&& notes_of(b) == Seq::<Note>::empty()
                        &&& left_of(b) == final(self)@.buf
                        &&& lines_in(old(self)@) == old(self)@.lines(b.take(s))
                        &&& log_left(old(self)@) == final(self)@.log
                    },
                }
            }),
    {
        let ghost b = self.buf@;
        let n: usize = self.buf.len();
        let mut skipped: usize = 0;
        while n - skipped >= HEADER_LEN && Header::decode(
            vstd::slice::slice_subrange(self.buf.as_slice(), skipped, n),
        ).is_err()
            invariant
                skipped <= n == b.len(),
                b == self.buf@,
                self@ == old(self)@,
                header_from(b, 0) == header_from(b, skipped as int),
            decreases n - skipped,
        {
            assert(b.subrange(skipped as int, n as int) =~= b.skip(skipped as int));
            skipped = skipped + 1;
        }
        let ghost s = skipped as int;
        proof {
            if n - skipped >= HEADER_LEN {
                assert(b.subrange(s, n as int) =~= b.skip(s));
            }
        }
        self.flush_log(skipped, on_log);
        if n - skipped >= HEADER_LEN {
            match Header::decode(vstd::slice::slice_subrange(self.buf.as_slice(), skipped, n)) {
                Ok(h) => {
                    let total: usize = HEADER_LEN + h.len as usize;
                    if n - skipped >= total {
                        let start: usize = skipped + HEADER_LEN;
                        let payload: Vec<u8> = copy_range(
                            self.buf.as_slice(),
                            start,
                            start + h.len as usize,
                        );
                        self.buf = copy_range(self.buf.as_slice(), skipped + total, n);
                        assert(self.buf@ =~= b.skip(end_at(b, s)));
                        return Some(Message { kind: h.kind, payload });
                    }
                },
                Err(_) => {},
            }
        }
        self.buf = copy_range(self.buf.as_slice(), skipped, n);
        assert(self.buf@ =~= b.skip(s));
        None
    }

    fn flush_log(&mut self, upto: usize, on_log: &mut Vec<String>)
        requires
            upto <= old(self)@.buf.len(),
        ensures
            final(self)@.buf == old(self)@.buf,
            final(self)@.log == old(self)@.logged(old(self)@.buf.take(upto as int)),
            views(final(on_log)@) == views(old(on_log)@) + old(self)@.lines(
                old(self)@.buf.take(upto as int),
            ),
    {
        if upto == 0 {
            assert(views(on_log@) =~= views(on_log@) + Seq::<Seq<char>>::empty());
            return;
        }
        let skipped: &[u8] = vstd::slice::slice_subrange(self.buf.as_slice(), 0, upto);
        assert(skipped@ =~= self.buf@.take(upto as int));
        let mut text: String = self.log_partial.clone();
        text.append(lossy(skipped).as_str());
        // Emit only complete lines; hold anything after the last newline until
        // the rest of it arrives.
        self.log_partial = split_lines(chars_of(text.as_str()), on_log);
    }
}

/// A header is read off its own bytes, whatever follows them.
proof fn lemma_header_is_local(a: Seq<u8>, b: Seq<u8>)
    requires
        a.len() >= HEADER_LEN,
        b.len() >= HEADER_LEN,
        forall|i: int| 0 <= i < HEADER_LEN ==> a[i] == b[i],
    ensures
        Header::from_wire(a) == Header::from_wire(b),
{
}

/// Where the search for a header stops, and what it passes.
proof fn lemma_header_from(b: Seq<u8>, s: int)
    requires
        0 <= s <= b.len(),
    ensures
        s <= header_from(b, s) <= b.len(),
        forall|k: int|
            s <= k < header_from(b, s) ==> b.len() - k >= HEADER_LEN && Header::from_wire(
                #[trigger] b.skip(k),
            ) is Err,
        b.len() - header_from(b, s) < HEADER_LEN || Header::from_wire(
            b.skip(header_from(b, s)),
        ) is Ok,
    decreases b.len() - s,
{
    if b.len() - s >= HEADER_LEN && Header::from_wire(b.skip(s)) is Err {
        lemma_header_from(b, s + 1);
    }
}

/// A search that may pass `s..n` goes on from `n`.
proof fn lemma_header_from_passes(b: Seq<u8>, s: int, n: int)
    requires
        0 <= s <= n <= b.len(),
        forall|k: int|
            s <= k < n ==> b.len() - k >= HEADER_LEN && Header::from_wire(#[trigger] b.skip(k)) is Err,
    ensures
        header_from(b, s) == header_from(b, n),
    decreases n - s,
{
    if s < n {
        assert(Header::from_wire(b.skip(s)) is Err);
        lemma_header_from_passes(b, s + 1, n);
    }
}

/// A search does not depend on what lies before its start.
proof fn lemma_header_from_shift(b: Seq<u8>, s: int, t: int)
    requires
        0 <= s,
        0 <= t,
        s + t <= b.len(),
    ensures
        header_from(b, s + t) == s + header_from(b.skip(s), t),
    decreases b.len() - s - t,
{
    assert(b.skip(s).skip(t) =~= b.skip(s + t));
    if b.len() - s - t >= HEADER_LEN && Header::from_wire(b.skip(s + t)) is Err {
        lemma_header_from_shift(b, s, t + 1);
    }
}

/// Bytes that hold no header are passed without a trace on the messages.
proof fn lemma_passed_bytes(b: Seq<u8>, n: int)
    requires
        0 <= n <= b.len(),
        forall|k: int|
            0 <= k < n ==> b.len() - k >= HEADER_LEN && Header::from_wire(#[trigger] b.skip(k)) is Err,
    ensures
        notes_of(b) == notes_of(b.skip(n)),
        left_of(b) == left_of(b.skip(n)),
        passed_of(b) == b.take(n) + passed_of(b.skip(n)),
{
    let rest = b.skip(n);
    lemma_header_from_passes(b, 0, n);
    lemma_header_from_shift(b, n, 0);
    let t = header_from(rest, 0);
    lemma_header_from(rest, 0);
    assert(rest.skip(t) =~= b.skip(n + t));
    if complete_at(rest, t) {
        let e = end_at(rest, t);
        assert(note_at(rest, t).payload =~= note_at(b, n + t).payload);
        assert(b.skip(n + e) =~= rest.skip(e));
        assert(passed_of(b) =~= b.take(n) + passed_of(rest));
    } else {
        assert(passed_of(b) =~= b.take(n) + passed_of(rest));
    }
}

/// However a byte stream is cut into reads, the same messages come out of it:
/// those of the first part, then those of what it left over together with the
/// second. So do the bytes that belong to none.
pub proof fn law_messages_do_not_depend_on_the_cut(a: Seq<u8>, b: Seq<u8>)
    ensures
        notes_of(a + b) == notes_of(a) + notes_of(left_of(a) + b),
        left_of(a + b) == left_of(left_of(a) + b),
        passed_of(a + b) == passed_of(a) + passed_of(left_of(a) + b),
    decreases a.len(),
{
    let s = header_from(a, 0);
    let ab = a + b;
    lemma_header_from(a, 0);
    assert forall|k: int| 0 <= k < s implies ab.len() - k >= HEADER_LEN && Header::from_wire(
        #[trigger] ab.skip(k),
    ) is Err by {
        assert(Header::from_wire(a.skip(k)) is Err);
        lemma_header_is_local(a.skip(k), ab.skip(k));
    }
    if complete_at(a, s) {
        lemma_header_is_local(a.skip(s), ab.skip(s));
        lemma_header_from_passes(ab, 0, s);
        let e = end_at(a, s);
        assert(header_from(ab, 0) == s);
        assert(note_at(ab, s).payload =~= note_at(a, s).payload);
        assert(ab.skip(e) =~= a.skip(e) + b);
        law_messages_do_not_depend_on_the_cut(a.skip(e), b);
        assert(notes_of(ab) =~= notes_of(a) + notes_of(left_of(a) + b));
        assert(ab.take(s) =~= a.take(s));
        assert(passed_of(ab) =~= passed_of(a) + passed_of(left_of(a) + b));
    } else {
        lemma_passed_bytes(ab, s);
        assert(ab.skip(s) =~= a.skip(s) + b);
        assert(notes_of(ab) =~= notes_of(a) + notes_of(left_of(a) + b));
        assert(ab.take(s) =~= a.take(s));
    }
}

/// A frame with a payload that is not too long is read as the message it was
/// built from, and what follows it is read as if it were not there.
pub proof fn law_a_frame_is_read_back(kind: u8, seq: u16, payload: Seq<u8>, rest: Seq<u8>)
    requires
        payload.len() <= MAX_PAYLOAD,
    ensures
        notes_of(frame(kind, seq, payload) + rest) == seq![Note { kind, payload }] + notes_of(rest),
        left_of(frame(kind, seq, payload) + rest) == left_of(rest),
        passed_of(frame(kind, seq, payload) + rest) == passed_of(rest),
{
    let b = frame(kind, seq, payload) + rest;
    Header::law_roundtrip(kind, seq, payload.len() as u16, payload + rest);
    assert(b =~= Header::wire(kind, seq, payload.len() as u16) + (payload + rest));
    assert(b.skip(0) =~= b);
    assert(header_from(b, 0) == 0);
    assert(note_at(b, 0).payload =~= payload);
    assert(b.skip(end_at(b, 0)) =~= rest);
    assert(passed_of(b) =~= passed_of(rest));
}

/// Log text before a frame does not cost the message, as long as no header
/// stands in it.
pub proof fn law_log_text_is_passed(
    text: Seq<u8>,
    kind: u8,
    seq: u16,
    payload: Seq<u8>,
    rest: Seq<u8>,
)
    requires
        payload.len() <= MAX_PAYLOAD,
        forall|k: int|
            0 <= k < text.len() ==> Header::from_wire(
                #[trigger] (text + frame(kind, seq, payload) + rest).skip(k),
            ) is Err,
    ensures
        notes_of(text + frame(kind, seq, payload) + rest) == seq![Note { kind, payload }]
            + notes_of(rest),
        left_of(text + frame(kind, seq, payload) + rest) == left_of(rest),
        passed_of(text + frame(kind, seq, payload) + rest) == text + passed_of(rest),
{
    let f = frame(kind, seq, payload);
    let b = text + f + rest;
    Header::law_roundtrip(kind, seq, payload.len() as u16, Seq::empty());
    lemma_passed_bytes(b, text.len() as int);
    assert(b.skip(text.len() as int) =~= f + rest);
    assert(b.take(text.len() as int) =~= text);
    law_a_frame_is_read_back(kind, seq, payload, rest);
}

/// No header stands in log text in which no two bytes look like the start of
/// one, whatever frame follows it.
pub proof fn law_plain_text_holds_no_header(
    text: Seq<u8>,
    kind: u8,
    seq: u16,
    payload: Seq<u8>,
    rest: Seq<u8>,
    k: int,
)
    requires
        0 <= k < text.len(),
        k + 1 < text.len() ==> !(text[k] == crate::proto::MAGIC && text[k + 1]
            == crate::proto::VERSION),
    ensures
        Header::from_wire((text + frame(kind, seq, payload) + rest).skip(k)) is Err,
{
    let f = frame(kind, seq, payload);
    let b = text + f + rest;
    Header::law_roundtrip(kind, seq, payload.len() as u16, Seq::empty());
    assert(b.skip(k)[0] == text[k]);
    if k + 1 < text.len() {
        assert(b.skip(k)[1] == text[k + 1]);
    } else {
        assert(b.skip(k)[1] == f[0]);
    }
}

/// No two bytes of a text look like the start of a header.
pub open spec fn is_plain(text: Seq<u8>) -> bool {
    forall|k: int|
        0 <= k && k + 1 < text.len() ==> !(#[trigger] text[k] == crate::proto::MAGIC && text[k + 1]
            == crate::proto::VERSION)
}

/// Log text that nothing follows holds no message. It goes out as far as no
/// header can start in it any more: the last bytes are kept.
pub proof fn law_log_text_alone_is_passed(text: Seq<u8>)
    requires
        is_plain(text),
    ensures
        notes_of(text) == Seq::<Note>::empty(),
        text.len() < HEADER_LEN ==> passed_of(text) == Seq::<u8>::empty() && left_of(text) == text,
        text.len() >= HEADER_LEN ==> {
            let n = text.len() - (HEADER_LEN - 1);
            passed_of(text) == text.take(n) && left_of(text) == text.skip(n)
        },
{
    if text.len() < HEADER_LEN {
        assert(header_from(text, 0) == 0);
        assert(text.skip(0) =~= text);
        assert(passed_of(text) =~= Seq::<u8>::empty());
    } else {
        let n = text.len() - (HEADER_LEN - 1);
        assert forall|k: int| 0 <= k < n implies text.len() - k >= HEADER_LEN && Header::from_wire(
            #[trigger] text.skip(k),
        ) is Err by {
            assert(text.skip(k)[0] == text[k]);
            assert(text.skip(k)[1] == text[k + 1]);
        }
        lemma_header_from_passes(text, 0, n);
        assert(header_from(text, n) == n);
    }
}

/// A frame is eight bytes of header, which name its kind, its number and the
/// length of its payload, and then the payload.
pub proof fn law_what_each_byte_of_a_frame_is_for(kind: u8, seq: u16, payload: Seq<u8>, i: int)
    requires
        payload.len() <= MAX_PAYLOAD,
        0 <= i < payload.len(),
    ensures
        ({
            let f = frame(kind, seq, payload);
            &&& f.len() == 8 + payload.len()
            &&& f[0] == 0x53 && f[1] == 3 && f[2] == kind && f[3] == 0
            &&& f[4] + 256 * f[5] == seq
            &&& f[6] + 256 * f[7] == payload.len()
            &&& f[8 + i] == payload[i]
        }),
{
    Header::law_what_each_byte_is_for(kind, seq, payload.len() as u16);
}

} // verus!
