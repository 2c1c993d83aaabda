//! A whole stream, in whatever reads it arrives.

use vstd::prelude::*;

use crate::proto::{HEADER_LEN, MAX_PAYLOAD};
use crate::text::{ascii, is_ascii, law_ascii_is_read_as_it_stands};
use crate::transport::frame::{
    complete_at, end_at, frame, header_from, is_plain, law_log_text_alone_is_passed,
    law_log_text_is_passed, law_messages_do_not_depend_on_the_cut, law_plain_text_holds_no_header,
    left_of, lines_in, log_left, notes_of, passed_of, Note, Pending,
};
use crate::transport::log::{
    law_lines_do_not_depend_on_the_cut, lemma_partial_has_no_newline, lines_of, newline_from,
    partial_of,
};

verus! {

impl Pending {
    /// What a new framer holds: nothing.
    pub open spec fn none() -> Pending {
        Pending { buf: Seq::empty(), log: Seq::empty() }
    }

    /// After bytes were pushed.
    pub open spec fn pushed(self, data: Seq<u8>) -> Pending {
        Pending { buf: self.buf + data, log: self.log }
    }

    /// After every whole message was pulled out.
    pub open spec fn drained(self) -> Pending {
        Pending { buf: left_of(self.buf), log: log_left(self) }
    }

    /// After reads that were pushed one by one, with every whole message pulled
    /// out after each.
    pub open spec fn fed(self, reads: Seq<Seq<u8>>) -> Pending
        decreases reads.len(),
    {
        if reads.len() == 0 {
            self
        } else {
            self.fed(reads.drop_last()).pushed(reads.last()).drained()
        }
    }

    /// The messages that come out on the way.
    pub open spec fn notes_fed(self, reads: Seq<Seq<u8>>) -> Seq<Note>
        decreases reads.len(),
    {
        if reads.len() == 0 {
            Seq::empty()
        } else {
            self.notes_fed(reads.drop_last()) + notes_of(
                self.fed(reads.drop_last()).pushed(reads.last()).buf,
            )
        }
    }

    /// The log lines that go out on the way.
    pub open spec fn lines_fed(self, reads: Seq<Seq<u8>>) -> Seq<Seq<char>>
        decreases reads.len(),
    {
        if reads.len() == 0 {
            Seq::empty()
        } else {
            self.lines_fed(reads.drop_last()) + lines_in(
                self.fed(reads.drop_last()).pushed(reads.last()),
            )
        }
    }
}

/// The bytes of all reads, in order.
pub open spec fn joined(reads: Seq<Seq<u8>>) -> Seq<u8>
    decreases reads.len(),
{
    if reads.len() == 0 {
        Seq::empty()
    } else {
        joined(reads.drop_last()) + reads.last()
    }
}

/// Log text, then a frame.
pub struct Piece {
    pub text: Seq<u8>,
    pub kind: u8,
    pub seq: u16,
    pub payload: Seq<u8>,
}

impl Piece {
    /// The text holds no start of a header and the payload is not too long.
    pub open spec fn is_valid(self) -> bool {
        is_plain(self.text) && self.payload.len() <= MAX_PAYLOAD
    }

    /// The message of the frame.
    pub open spec fn note(self) -> Note {
        Note { kind: self.kind, payload: self.payload }
    }
}

/// The pieces one after the other, and then log text.
pub open spec fn stream_of(pieces: Seq<Piece>, tail: Seq<u8>) -> Seq<u8>
    decreases pieces.len(),
{
    if pieces.len() == 0 {
        tail
    } else {
        pieces[0].text + frame(pieces[0].kind, pieces[0].seq, pieces[0].payload) + stream_of(
            pieces.skip(1),
            tail,
        )
    }
}

/// The messages of the pieces, in order.
pub open spec fn notes_in(pieces: Seq<Piece>) -> Seq<Note> {
    Seq::new(pieces.len(), |i: int| pieces[i].note())
}

/// The log text of such a stream without its last bytes, in which a header may
/// yet start.
pub open spec fn text_in(pieces: Seq<Piece>, tail: Seq<u8>) -> Seq<u8>
    decreases pieces.len(),
{
    if pieces.len() > 0 {
        pieces[0].text + text_in(pieces.skip(1), tail)
    } else if tail.len() < HEADER_LEN {
        Seq::empty()
    } else {
        tail.take(tail.len() - (HEADER_LEN - 1))
    }
}

/// ASCII log bytes, taken in after text that holds no newline.
proof fn lemma_ascii_logged(p: Pending, bytes: Seq<u8>)
    requires
        is_ascii(bytes),
        newline_from(p.log, 0) == p.log.len(),
    ensures
        p.lines(bytes) == lines_of(p.log + ascii(bytes)),
        p.logged(bytes) == partial_of(p.log + ascii(bytes)),
{
    law_ascii_is_read_as_it_stands(bytes);
    if bytes.len() == 0 {
        assert(p.log + ascii(bytes) =~= p.log);
    }
}

/// Where the bytes that belong to no message are ASCII, the log lines that go
/// out while the messages are pulled out are those of these bytes together,
/// whatever stands between them.
pub proof fn law_messages_do_not_break_lines(p: Pending)
    requires
        is_ascii(passed_of(p.buf)),
        newline_from(p.log, 0) == p.log.len(),
    ensures
        lines_in(p) == lines_of(p.log + ascii(passed_of(p.buf))),
        log_left(p) == partial_of(p.log + ascii(passed_of(p.buf))),
    decreases p.buf.len(),
{
    let b = p.buf;
    let s = header_from(b, 0);
    let here = b.take(s);
    if 0 <= s && complete_at(b, s) {
        let rest = passed_of(b.skip(end_at(b, s)));
        let all = passed_of(b);
        assert(all == here + rest);
        assert forall|i: int| 0 <= i < here.len() implies #[trigger] here[i] < 128 by {
            assert(here[i] == all[i]);
        }
        assert forall|i: int| 0 <= i < rest.len() implies #[trigger] rest[i] < 128 by {
            assert(rest[i] == all[here.len() + i]);
        }
        lemma_ascii_logged(p, here);
        let q = Pending { buf: b.skip(end_at(b, s)), log: p.logged(here) };
        lemma_partial_has_no_newline(p.log + ascii(here));
        law_messages_do_not_break_lines(q);
        law_lines_do_not_depend_on_the_cut(p.log + ascii(here), ascii(rest));
        assert(p.log + ascii(all) =~= (p.log + ascii(here)) + ascii(rest));
    } else {
        lemma_ascii_logged(p, here);
    }
}

/// However a stream is cut into reads, the same messages come out of it, each
/// once and in order, and the same bytes are left over.
pub proof fn law_messages_do_not_depend_on_the_reads(reads: Seq<Seq<u8>>)
    ensures
        Pending::none().notes_fed(reads) == notes_of(joined(reads)),
        Pending::none().fed(reads).buf == left_of(joined(reads)),
    decreases reads.len(),
{
    if reads.len() > 0 {
        let before = reads.drop_last();
        law_messages_do_not_depend_on_the_reads(before);
        law_messages_do_not_depend_on_the_cut(joined(before), reads.last());
    } else {
        assert(left_of(joined(reads)) =~= Seq::<u8>::empty());
    }
}

/// However a stream is cut into reads, the same log lines come out of it, as
/// long as the bytes that belong to no message are ASCII: the lines of these
/// bytes together. What follows the last newline is kept.
pub proof fn law_lines_do_not_depend_on_the_reads(reads: Seq<Seq<u8>>)
    requires
        is_ascii(passed_of(joined(reads))),
    ensures
        Pending::none().lines_fed(reads) == lines_of(ascii(passed_of(joined(reads)))),
        Pending::none().fed(reads).log == partial_of(ascii(passed_of(joined(reads)))),
    decreases reads.len(),
{
    let all = passed_of(joined(reads));
    if reads.len() > 0 {
        let before = reads.drop_last();
        let held = Pending::none().fed(before);
        law_messages_do_not_depend_on_the_reads(before);
        law_messages_do_not_depend_on_the_cut(joined(before), reads.last());
        let first = passed_of(joined(before));
        let rest = passed_of(left_of(joined(before)) + reads.last());
        assert(all == first + rest);
        assert forall|i: int| 0 <= i < first.len() implies #[trigger] first[i] < 128 by {
            assert(first[i] == all[i]);
        }
        assert forall|i: int| 0 <= i < rest.len() implies #[trigger] rest[i] < 128 by {
            assert(rest[i] == all[first.len() + i]);
        }
        law_lines_do_not_depend_on_the_reads(before);
        lemma_partial_has_no_newline(ascii(first));
        law_messages_do_not_break_lines(held.pushed(reads.last()));
        law_lines_do_not_depend_on_the_cut(ascii(first), ascii(rest));
        assert(ascii(all) =~= ascii(first) + ascii(rest));
    } else {
        assert(all =~= Seq::<u8>::empty());
        assert(ascii(all) =~= Seq::<char>::empty());
    }
}

/// A stream of frames with log text between them holds the frames' messages,
/// each once and in order, and what passes is the log text.
pub proof fn law_a_stream_is_read_back(pieces: Seq<Piece>, tail: Seq<u8>)
    requires
        forall|i: int| 0 <= i < pieces.len() ==> (#[trigger] pieces[i]).is_valid(),
        is_plain(tail),
    ensures
        notes_of(stream_of(pieces, tail)) == notes_in(pieces),
        passed_of(stream_of(pieces, tail)) == text_in(pieces, tail),
    decreases pieces.len(),
{
    if pieces.len() == 0 {
        law_log_text_alone_is_passed(tail);
        assert(notes_in(pieces) =~= Seq::<Note>::empty());
    } else {
        let p = pieces[0];
        let after = pieces.skip(1);
        let rest = stream_of(after, tail);
        assert(p.is_valid());
        assert forall|i: int| 0 <= i < after.len() implies (#[trigger] after[i]).is_valid() by {
            assert(after[i] == pieces[i + 1]);
        }
        law_a_stream_is_read_back(after, tail);
        assert forall|k: int| 0 <= k < p.text.len() implies crate::proto::header::Header::from_wire(
            #[trigger] (p.text + frame(p.kind, p.seq, p.payload) + rest).skip(k),
        ) is Err by {
            law_plain_text_holds_no_header(p.text, p.kind, p.seq, p.payload, rest, k);
        }
        law_log_text_is_passed(p.text, p.kind, p.seq, p.payload, rest);
        assert(notes_in(pieces) =~= seq![p.note()] + notes_in(after));
    }
}

/// A stream of frames with plain ASCII text between them, in whatever reads it
/// arrives: exactly the frames' messages come out, each once and in order, and
/// the log lines are those of the text, whatever frames stand in it.
pub proof fn law_a_stream_comes_out_whole(
    reads: Seq<Seq<u8>>,
    pieces: Seq<Piece>,
    tail: Seq<u8>,
)
    requires
        joined(reads) == stream_of(pieces, tail),
        forall|i: int|
            0 <= i < pieces.len() ==> (#[trigger] pieces[i]).is_valid() && is_ascii(pieces[i].text),
        is_plain(tail) && is_ascii(tail),
    ensures
        Pending::none().notes_fed(reads) == notes_in(pieces),
        Pending::none().lines_fed(reads) == lines_of(ascii(text_in(pieces, tail))),
        Pending::none().fed(reads).log == partial_of(ascii(text_in(pieces, tail))),
{
    law_a_stream_is_read_back(pieces, tail);
    law_messages_do_not_depend_on_the_reads(reads);
    lemma_text_in_is_ascii(pieces, tail);
    law_lines_do_not_depend_on_the_reads(reads);
}

proof fn lemma_text_in_is_ascii(pieces: Seq<Piece>, tail: Seq<u8>)
    requires
        forall|i: int| 0 <= i < pieces.len() ==> is_ascii((#[trigger] pieces[i]).text),
        is_ascii(tail),
    ensures
        is_ascii(text_in(pieces, tail)),
    decreases pieces.len(),
{
    if pieces.len() > 0 {
        let after = pieces.skip(1);
        assert(is_ascii(pieces[0].text));
        assert forall|i: int| 0 <= i < after.len() implies is_ascii((#[trigger] after[i]).text) by {
            assert(after[i] == pieces[i + 1]);
        }
        lemma_text_in_is_ascii(after, tail);
    }
}

} // verus!
