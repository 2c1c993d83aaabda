//! Keeping a slow radio up with a fast pointer.

use vstd::prelude::*;

use crate::proto::header::Header;
use crate::proto::kind;
use crate::proto::mouse::MouseState;
use crate::proto::profile::clamp16;
use crate::proto::HEADER_LEN;
use crate::transport::frame::{encode, frame};

verus! {

/// How much of a frame goes in one GATT write.
///
/// Deliberately small. A write cannot exceed the negotiated MTU less three, the
/// MTU is decided by the host, and what was agreed is not exposed, so the only
/// number guaranteed to work is the one that fits the smallest MTU the spec
/// allows. The hot path is unaffected either way, because a mouse or key frame
/// is sixteen bytes and fits in one write regardless; only a config push is
/// split, and that happens once when somebody presses Save.
pub const WRITE_CHUNK: usize = 20;

/// The sequence number and the update of a mouse frame; none for any other.
pub open spec fn mouse_of(f: Seq<u8>) -> Option<(u16, MouseState)> {
    match Header::from_wire(f) {
        Ok(h) => if h.kind == kind::MOUSE {
            match MouseState::from_wire(f.skip(HEADER_LEN as int)) {
                Some(m) => Some((h.seq, m)),
                None => None,
            }
        } else {
            None
        },
        Err(_) => None,
    }
}

/// `v`, held within the range of a byte.
pub open spec fn clamp8(v: int) -> i8 {
    if v < -128 {
        -128i8
    } else if v > 127 {
        127i8
    } else {
        v as i8
    }
}

/// Two updates in one: motion adds up, saturating rather than wrapping, and
/// buttons are absolute, so the later ones are the truth.
pub open spec fn merged(prev: MouseState, next: MouseState) -> MouseState {
    MouseState {
        buttons: next.buttons,
        dx: clamp16(prev.dx + next.dx),
        dy: clamp16(prev.dy + next.dy),
        wheel: clamp8(prev.wheel + next.wheel),
        pan: clamp8(prev.pan + next.pan),
    }
}

/// A frame put behind those already collapsed: merged into the last one where
/// both are mouse frames. The merged frame carries the later sequence number,
/// or the next frame would look like a straggler.
pub open spec fn put_behind(out: Seq<Seq<u8>>, f: Seq<u8>) -> Seq<Seq<u8>> {
    match mouse_of(f) {
        Some((seq, next)) => if out.len() > 0 && mouse_of(out.last()) is Some {
            out.drop_last().push(
                frame(kind::MOUSE, seq, merged(mouse_of(out.last()).unwrap().1, next).wire()),
            )
        } else {
            out.push(f)
        },
        None => out.push(f),
    }
}

/// A burst of frames, collapsed.
pub open spec fn collapsed(frames: Seq<Seq<u8>>) -> Seq<Seq<u8>>
    decreases frames.len(),
{
    if frames.len() == 0 {
        Seq::empty()
    } else {
        put_behind(collapsed(frames.drop_last()), frames.last())
    }
}

/// What a list of byte vectors holds.
pub open spec fn rows(v: Seq<Vec<u8>>) -> Seq<Seq<u8>> {
    Seq::new(v.len(), |i: int| v[i]@)
}

fn sum16(a: i16, b: i16) -> (r: i16)
    ensures
        r == clamp16(a + b),
{
    let s: i32 = a as i32 + b as i32;
    if s < -32768 {
        -32768
    } else if s > 32767 {
        32767
    } else {
        s as i16
    }
}

fn sum8(a: i8, b: i8) -> (r: i8)
    ensures
        r == clamp8(a + b),
{
    let s: i32 = a as i32 + b as i32;
    if s < -128 {
        -128
    } else if s > 127 {
        127
    } else {
        s as i8
    }
}

fn parse_mouse(f: &[u8]) -> (r: Option<(u16, MouseState)>)
    ensures
        r == mouse_of(f@),
{
    match Header::decode(f) {
        Ok(h) => {
            if h.kind != kind::MOUSE {
                return None;
            }
            let rest: &[u8] = vstd::slice::slice_subrange(f, HEADER_LEN, f.len());
            assert(rest@ =~= f@.skip(HEADER_LEN as int));
            match MouseState::decode(rest) {
                Some(m) => Some((h.seq, m)),
                None => None,
            }
        },
        Err(_) => None,
    }
}

/// Collapse a burst of queued frames into the fewest that mean the same thing.
///
/// Only runs of consecutive mouse updates are merged, and only with each other.
/// The protocol is what makes that lossless: motion is a delta, so summing a
/// run lands the pointer in the same place, and buttons are absolute state, so
/// the last one in the run is the truth. Everything else passes through
/// untouched and in order, because merging a run of mouse frames across a key
/// frame would reorder a click against a keystroke.
pub fn coalesce(frames: Vec<Vec<u8>>) -> (out: Vec<Vec<u8>>)
    ensures
        rows(out@) == collapsed(rows(frames@)),
{
    let mut out: Vec<Vec<u8>> = Vec::new();
    let n: usize = frames.len();
    let mut i: usize = 0;
    assert(rows(out@) =~= collapsed(rows(frames@).take(0)));
    while i < n
        invariant
            i <= n == frames@.len(),
            rows(out@) == collapsed(rows(frames@).take(i as int)),
        decreases n - i,
    {
        let ghost before = rows(out@);
        let f: &Vec<u8> = &frames[i];
        assert(rows(frames@).take(i + 1).drop_last() =~= rows(frames@).take(i as int));
        assert(rows(frames@).take(i + 1).last() == f@);
        let prev: Option<(u16, MouseState)> = if out.len() > 0 {
            let last: &Vec<u8> = &out[out.len() - 1];
            assert(before.last() == last@);
            parse_mouse(last.as_slice())
        } else {
            None
        };
        match parse_mouse(f.as_slice()) {
            Some((seq, next)) => match prev {
                Some((_, p)) => {
                    let m = MouseState {
                        buttons: next.buttons,
                        dx: sum16(p.dx, next.dx),
                        dy: sum16(p.dy, next.dy),
                        wheel: sum8(p.wheel, next.wheel),
                        pan: sum8(p.pan, next.pan),
                    };
                    out.pop();
                    out.push(encode(kind::MOUSE, seq, m.encode().as_slice()));
                },
                None => out.push(f.clone()),
            },
            None => out.push(f.clone()),
        }
        assert(rows(out@) =~= put_behind(before, f@));
        i = i + 1;
    }
    assert(rows(frames@).take(n as int) =~= rows(frames@));
    out
}

/// The whole motion of a run of frames: along both axes, then both wheels.
pub open spec fn travel(frames: Seq<Seq<u8>>) -> (int, int, int, int)
    decreases frames.len(),
{
    if frames.len() == 0 {
        (0, 0, 0, 0)
    } else {
        let (x, y, w, p) = travel(frames.drop_last());
        match mouse_of(frames.last()) {
            Some((_, m)) => (x + m.dx, y + m.dy, w + m.wheel, p + m.pan),
            None => (x, y, w, p),
        }
    }
}

/// The frames that are not mouse frames, in order.
pub open spec fn others(frames: Seq<Seq<u8>>) -> Seq<Seq<u8>>
    decreases frames.len(),
{
    if frames.len() == 0 {
        Seq::empty()
    } else if mouse_of(frames.last()) is Some {
        others(frames.drop_last())
    } else {
        others(frames.drop_last()).push(frames.last())
    }
}

/// Nothing is cut off when `f` is merged into the last of `out`.
pub open spec fn merges_exactly(out: Seq<Seq<u8>>, f: Seq<u8>) -> bool {
    out.len() > 0 && mouse_of(out.last()) is Some && mouse_of(f) is Some ==> {
        let p = mouse_of(out.last()).unwrap().1;
        let m = mouse_of(f).unwrap().1;
        &&& -32768 <= p.dx + m.dx <= 32767
        &&& -32768 <= p.dy + m.dy <= 32767
        &&& -128 <= p.wheel + m.wheel <= 127
        &&& -128 <= p.pan + m.pan <= 127
    }
}

/// No run of mouse frames adds up to more than one frame can carry.
pub open spec fn collapses_exactly(frames: Seq<Seq<u8>>) -> bool
    decreases frames.len(),
{
    frames.len() > 0 ==> collapses_exactly(frames.drop_last()) && merges_exactly(
        collapsed(frames.drop_last()),
        frames.last(),
    )
}

/// A mouse frame is read as it was built.
pub proof fn law_mouse_frame_is_read_back(seq: u16, m: MouseState)
    ensures
        mouse_of(frame(kind::MOUSE, seq, m.wire())) == Some((seq, m)),
{
    m.law_roundtrip(Seq::empty());
    Header::law_roundtrip(kind::MOUSE, seq, 8, m.wire());
    let f = frame(kind::MOUSE, seq, m.wire());
    assert(f.skip(HEADER_LEN as int) =~= m.wire() + Seq::<u8>::empty());
}

/// Collapsing a burst lands the pointer in the same place and scrolls as far,
/// where no run adds up to more than one frame can carry.
pub proof fn law_motion_is_kept(frames: Seq<Seq<u8>>)
    requires
        collapses_exactly(frames),
    ensures
        travel(collapsed(frames)) == travel(frames),
    decreases frames.len(),
{
    if frames.len() > 0 {
        let out = collapsed(frames.drop_last());
        let f = frames.last();
        law_motion_is_kept(frames.drop_last());
        if out.len() > 0 && mouse_of(out.last()) is Some && mouse_of(f) is Some {
            let m = merged(mouse_of(out.last()).unwrap().1, mouse_of(f).unwrap().1);
            let g = frame(kind::MOUSE, mouse_of(f).unwrap().0, m.wire());
            law_mouse_frame_is_read_back(mouse_of(f).unwrap().0, m);
            assert(out.drop_last().push(g).drop_last() =~= out.drop_last());
        } else {
            assert(out.push(f).drop_last() =~= out);
        }
    }
}

/// Everything that is not a mouse frame passes through untouched and in order.
pub proof fn law_other_frames_pass_through(frames: Seq<Seq<u8>>)
    ensures
        others(collapsed(frames)) == others(frames),
    decreases frames.len(),
{
    if frames.len() > 0 {
        let out = collapsed(frames.drop_last());
        let f = frames.last();
        law_other_frames_pass_through(frames.drop_last());
        if out.len() > 0 && mouse_of(out.last()) is Some && mouse_of(f) is Some {
            let m = merged(mouse_of(out.last()).unwrap().1, mouse_of(f).unwrap().1);
            let g = frame(kind::MOUSE, mouse_of(f).unwrap().0, m.wire());
            law_mouse_frame_is_read_back(mouse_of(f).unwrap().0, m);
            assert(out.drop_last().push(g).drop_last() =~= out.drop_last());
        } else {
            assert(out.push(f).drop_last() =~= out);
        }
    }
}

/// The burst ends as it ended before: with the same frame where that is not a
/// mouse frame, and otherwise with a mouse frame of the same buttons and
/// sequence number.
pub proof fn law_the_last_frame_is_the_truth(frames: Seq<Seq<u8>>)
    requires
        frames.len() > 0,
    ensures
        collapsed(frames).len() > 0,
        match mouse_of(frames.last()) {
            None => collapsed(frames).last() == frames.last(),
            Some((seq, m)) => {
                &&& mouse_of(collapsed(frames).last()) is Some
                &&& mouse_of(collapsed(frames).last()).unwrap().0 == seq
                &&& mouse_of(collapsed(frames).last()).unwrap().1.buttons == m.buttons
            },
        },
{
    let out = collapsed(frames.drop_last());
    let f = frames.last();
    if out.len() > 0 && mouse_of(out.last()) is Some && mouse_of(f) is Some {
        let m = merged(mouse_of(out.last()).unwrap().1, mouse_of(f).unwrap().1);
        law_mouse_frame_is_read_back(mouse_of(f).unwrap().0, m);
    }
}

/// No two mouse frames follow each other: a burst collapses as far as it can.
pub proof fn law_no_two_mouse_frames_in_a_row(frames: Seq<Seq<u8>>)
    ensures
        forall|i: int|
            0 <= i < collapsed(frames).len() - 1 ==> !(mouse_of(
                #[trigger] collapsed(frames)[i],
            ) is Some && mouse_of(collapsed(frames)[i + 1]) is Some),
    decreases frames.len(),
{
    if frames.len() > 0 {
        law_no_two_mouse_frames_in_a_row(frames.drop_last());
        let out = collapsed(frames.drop_last());
        let f = frames.last();
        let now = collapsed(frames);
        if out.len() > 0 && mouse_of(out.last()) is Some && mouse_of(f) is Some {
            assert forall|i: int| 0 <= i < now.len() - 1 implies !(mouse_of(
                #[trigger] now[i],
            ) is Some && mouse_of(now[i + 1]) is Some) by {
                assert(now[i] == out[i]);
                if i + 1 == now.len() - 1 {
                    assert(out[i + 1] == out.last());
                }
            }
        } else {
            assert forall|i: int| 0 <= i < now.len() - 1 implies !(mouse_of(
                #[trigger] now[i],
            ) is Some && mouse_of(now[i + 1]) is Some) by {
                assert(now[i] == out[i]);
                if i + 1 == now.len() - 1 {
                    assert(out[i] == out.last());
                    assert(now[i + 1] == f);
                }
            }
        }
    }
}

/// Frames of which no two in a row are mouse frames are left as they are.
proof fn lemma_nothing_to_collapse(frames: Seq<Seq<u8>>)
    requires
        forall|i: int|
            0 <= i < frames.len() - 1 ==> !(mouse_of(#[trigger] frames[i]) is Some && mouse_of(
                frames[i + 1],
            ) is Some),
    ensures
        collapsed(frames) == frames,
    decreases frames.len(),
{
    if frames.len() > 0 {
        let before = frames.drop_last();
        assert forall|i: int| 0 <= i < before.len() - 1 implies !(mouse_of(
            #[trigger] before[i],
        ) is Some && mouse_of(before[i + 1]) is Some) by {
            assert(before[i] == frames[i] && before[i + 1] == frames[i + 1]);
        }
        lemma_nothing_to_collapse(before);
        if before.len() > 0 {
            assert(before.last() == frames[frames.len() - 2]);
            assert(frames.last() == frames[frames.len() - 2 + 1]);
        }
        assert(before.push(frames.last()) =~= frames);
    } else {
        assert(collapsed(frames) =~= frames);
    }
}

/// Collapsing a burst again changes nothing more.
pub proof fn law_collapsing_twice_changes_nothing(frames: Seq<Seq<u8>>)
    ensures
        collapsed(collapsed(frames)) == collapsed(frames),
{
    law_no_two_mouse_frames_in_a_row(frames);
    lemma_nothing_to_collapse(collapsed(frames));
}

/// One write to the radio.
#[derive(Debug)]
pub struct RadioWrite {
    pub data: Vec<u8>,
    /// Wait until the other side confirms it.
    pub confirmed: bool,
}

/// What a radio write says.
pub struct Chunk {
    pub data: Seq<u8>,
    pub confirmed: bool,
}

impl View for RadioWrite {
    type V = Chunk;

    open spec fn view(&self) -> Chunk {
        Chunk { data: self.data@, confirmed: self.confirmed }
    }
}

/// Whether a frame is confirmed. Pointer and key traffic is not: a
/// confirmation per mouse report would double the radio events for no benefit,
/// since a dropped report is repaired by the next one.
pub open spec fn is_confirmed(f: Seq<u8>) -> bool {
    !(f.len() > 2 && f[2] < 0x10)
}

/// A frame from `at` on, in pieces that each fit a write.
pub open spec fn chunks_of(f: Seq<u8>, at: int) -> Seq<Chunk>
    decreases f.len() - at,
{
    if at >= f.len() {
        Seq::empty()
    } else if f.len() - at <= WRITE_CHUNK {
        seq![Chunk { data: f.skip(at), confirmed: is_confirmed(f) }]
    } else {
        seq![Chunk { data: f.subrange(at, at + WRITE_CHUNK), confirmed: is_confirmed(f) }]
            + chunks_of(f, at + WRITE_CHUNK)
    }
}

/// The first `n` frames, in pieces.
pub open spec fn all_chunks(frames: Seq<Seq<u8>>, n: int) -> Seq<Chunk>
    decreases n,
{
    if n <= 0 {
        Seq::empty()
    } else {
        all_chunks(frames, n - 1) + chunks_of(frames[n - 1], 0)
    }
}

/// What a list of radio writes says.
pub open spec fn chunk_views(v: Seq<RadioWrite>) -> Seq<Chunk> {
    Seq::new(v.len(), |i: int| v[i]@)
}

/// What goes to the radio for a burst of queued frames.
pub fn radio_writes(batch: Vec<Vec<u8>>) -> (out: Vec<RadioWrite>)
    ensures
        chunk_views(out@) == all_chunks(
            collapsed(rows(batch@)),
            collapsed(rows(batch@)).len() as int,
        ),
{
    let frames: Vec<Vec<u8>> = coalesce(batch);
    let mut out: Vec<RadioWrite> = Vec::new();
    let mut i: usize = 0;
    assert(chunk_views(out@) =~= all_chunks(rows(frames@), 0));
    while i < frames.len()
        invariant
            i <= frames@.len(),
            chunk_views(out@) == all_chunks(rows(frames@), i as int),
        decreases frames.len() - i,
    {
        let f: &Vec<u8> = &frames[i];
        assert(rows(frames@)[i as int] == f@);
        let n: usize = f.len();
        let confirmed: bool = !(n > 2 && f[2] < 0x10);
        let ghost before = chunk_views(out@);
        let ghost whole = chunks_of(f@, 0);
        let mut at: usize = 0;
        assert(before + chunks_of(f@, 0) =~= chunk_views(out@) + chunks_of(f@, at as int));
        while at < n
            invariant
                at <= n == f@.len(),
                confirmed == is_confirmed(f@),
                before + whole == chunk_views(out@) + chunks_of(f@, at as int),
            decreases n - at,
        {
            let end: usize = if n - at <= WRITE_CHUNK {
                n
            } else {
                at + WRITE_CHUNK
            };
            let ghost held = chunk_views(out@);
            out.push(
                RadioWrite { data: crate::bytes::copy_range(f.as_slice(), at, end), confirmed },
            );
            proof {
                assert(f@.subrange(at as int, n as int) =~= f@.skip(at as int));
                let c = Chunk { data: f@.subrange(at as int, end as int), confirmed };
                assert(chunk_views(out@) =~= held.push(c));
                assert(chunks_of(f@, at as int) =~= seq![c] + chunks_of(f@, end as int));
                assert(held + (seq![c] + chunks_of(f@, end as int)) =~= chunk_views(out@)
                    + chunks_of(f@, end as int));
            }
            at = end;
        }
        assert(chunk_views(out@) =~= before + whole);
        i = i + 1;
    }
    out
}

/// The bytes of some pieces, put together again.
pub open spec fn joined(c: Seq<Chunk>) -> Seq<u8>
    decreases c.len(),
{
    if c.len() == 0 {
        Seq::empty()
    } else {
        c[0].data + joined(c.skip(1))
    }
}

/// The pieces of a frame put together are the frame, each of them fits a
/// write, and a frame that fits one write is not split.
pub proof fn law_pieces_make_the_frame(f: Seq<u8>, at: int)
    requires
        0 <= at <= f.len(),
    ensures
        joined(chunks_of(f, at)) == f.skip(at),
        forall|i: int|
            0 <= i < chunks_of(f, at).len() ==> 0 < (#[trigger] chunks_of(f, at)[i]).data.len()
                <= WRITE_CHUNK && chunks_of(f, at)[i].confirmed == is_confirmed(f),
        0 < f.len() - at <= WRITE_CHUNK ==> chunks_of(f, at).len() == 1,
    decreases f.len() - at,
{
    let all = chunks_of(f, at);
    if at < f.len() {
        if f.len() - at > WRITE_CHUNK {
            law_pieces_make_the_frame(f, at + WRITE_CHUNK);
            let rest = chunks_of(f, at + WRITE_CHUNK);
            assert(all.skip(1) =~= rest);
            assert(f.skip(at) =~= f.subrange(at, at + WRITE_CHUNK) + f.skip(at + WRITE_CHUNK));
            assert forall|i: int| 0 <= i < all.len() implies 0 < (#[trigger] all[i]).data.len()
                <= WRITE_CHUNK && all[i].confirmed == is_confirmed(f) by {
                if i > 0 {
                    assert(all[i] == rest[i - 1]);
                }
            }
        } else {
            assert(all.skip(1) =~= Seq::empty());
            assert(joined(all.skip(1)) =~= Seq::empty());
            assert(joined(all) =~= f.skip(at));
        }
    } else {
        assert(f.skip(at) =~= Seq::empty());
    }
}

/// Two updates in one go as far as both together, as far as the numbers hold it,
/// and have the buttons of the later one.
pub proof fn law_what_merging_gives(prev: MouseState, next: MouseState)
    ensures
        ({
            let m = merged(prev, next);
            &&& m.buttons == next.buttons
            &&& -32768 <= prev.dx + next.dx <= 32767 ==> m.dx == prev.dx + next.dx
            &&& prev.dx + next.dx > 32767 ==> m.dx == 32767
            &&& prev.dx + next.dx < -32768 ==> m.dx == -32768
            &&& -32768 <= prev.dy + next.dy <= 32767 ==> m.dy == prev.dy + next.dy
            &&& prev.dy + next.dy > 32767 ==> m.dy == 32767
            &&& prev.dy + next.dy < -32768 ==> m.dy == -32768
            &&& -128 <= prev.wheel + next.wheel <= 127 ==> m.wheel == prev.wheel + next.wheel
            &&& prev.wheel + next.wheel > 127 ==> m.wheel == 127
            &&& prev.wheel + next.wheel < -128 ==> m.wheel == -128
            &&& -128 <= prev.pan + next.pan <= 127 ==> m.pan == prev.pan + next.pan
            &&& prev.pan + next.pan > 127 ==> m.pan == 127
            &&& prev.pan + next.pan < -128 ==> m.pan == -128
        }),
{
}

/// A frame is a mouse frame where its header is whole and right, names the kind
/// 1, and eight bytes or more follow it.
pub proof fn law_what_makes_a_mouse_frame(f: Seq<u8>)
    ensures
        mouse_of(f) is Some <==> f.len() >= 16 && f[0] == 0x53 && f[1] == 3 && f[2] == 1 && f[6]
            + 256 * f[7] <= 512,
        mouse_of(f) matches Some((seq, m)) ==> seq == f[4] + 256 * f[5] && m.buttons == f[8] && (
        f[9] + 256 * f[10] - m.dx) % 65536 == 0 && (f[11] + 256 * f[12] - m.dy) % 65536 == 0 && (
        f[13] - m.wheel) % 256 == 0 && (f[14] - m.pan) % 256 == 0,
{
    Header::law_what_makes_a_header(f);
    if f.len() >= 8 {
        let b = f.skip(8);
        MouseState::law_what_is_read_of_each_byte(b);
        if b.len() >= 8 {
            assert(b[0] == f[8] && b[1] == f[9] && b[2] == f[10] && b[3] == f[11] && b[4] == f[12]
                && b[5] == f[13] && b[6] == f[14]);
        }
    }
}

/// Pieces of twenty bytes or less, put together in order, are the frames of the
/// burst in order. Only frames of the control kinds, which start at 16, wait for
/// a confirmation; so does what is too short to name a kind.
pub proof fn law_the_radio_is_given_every_frame(frames: Seq<Seq<u8>>, n: int, f: Seq<u8>, i: int)
    requires
        0 <= n <= frames.len(),
        0 <= i < chunks_of(f, 0).len(),
    ensures
        joined(all_chunks(frames, n)) == laid_out(frames, n),
        joined(chunks_of(f, 0)) == f,
        0 < chunks_of(f, 0)[i].data.len() <= 20,
        chunks_of(f, 0)[i].confirmed <==> f.len() <= 2 || f[2] >= 16,
        i < chunks_of(f, 0).len() - 1 ==> chunks_of(f, 0)[i].data.len() == 20,
    decreases n,
{
    law_pieces_make_the_frame(f, 0);
    assert(f.skip(0) =~= f);
    if i < chunks_of(f, 0).len() - 1 {
        lemma_full_pieces(f, 0, i);
    }
    if n > 0 {
        law_the_radio_is_given_every_frame(frames, n - 1, f, i);
        law_pieces_make_the_frame(frames[n - 1], 0);
        assert(frames[n - 1].skip(0) =~= frames[n - 1]);
        lemma_joined_concat(all_chunks(frames, n - 1), chunks_of(frames[n - 1], 0));
    }
}

/// The first `n` frames, one after the other.
pub open spec fn laid_out(frames: Seq<Seq<u8>>, n: int) -> Seq<u8>
    decreases n,
{
    if n <= 0 {
        Seq::empty()
    } else {
        laid_out(frames, n - 1) + frames[n - 1]
    }
}

proof fn lemma_full_pieces(f: Seq<u8>, at: int, i: int)
    requires
        0 <= at <= f.len(),
        0 <= i < chunks_of(f, at).len() - 1,
    ensures
        chunks_of(f, at)[i].data.len() == 20,
    decreases f.len() - at,
{
    if f.len() - at > WRITE_CHUNK && i > 0 {
        lemma_full_pieces(f, at + WRITE_CHUNK, i - 1);
        assert(chunks_of(f, at)[i] == chunks_of(f, at + WRITE_CHUNK)[i - 1]);
    }
}

proof fn lemma_joined_concat(a: Seq<Chunk>, b: Seq<Chunk>)
    ensures
        joined(a + b) == joined(a) + joined(b),
    decreases a.len(),
{
    if a.len() > 0 {
        lemma_joined_concat(a.skip(1), b);
        assert((a + b).skip(1) =~= a.skip(1) + b);
        assert(joined(a + b) =~= joined(a) + joined(b));
    } else {
        assert(a + b =~= b);
        assert(joined(a) + joined(b) =~= joined(b));
    }
}

} // verus!
