//! A whole layout on the wire: a count byte, then that many screens of 51 bytes.

use vstd::prelude::*;
use vstd::utf8::encode_utf8;

use crate::bytes::sixteen_at;
use crate::proto::screen::ScreenWire;
use crate::proto::NAME_LEN;
use crate::text::{padded, padded_text};

verus! {

/// The first `n` screens, one after the other.
pub open spec fn flat_screens(ws: Seq<ScreenWire>, n: int) -> Seq<u8>
    decreases n,
{
    if n <= 0 {
        Seq::empty()
    } else {
        flat_screens(ws, n - 1) + ws[n - 1].wire()
    }
}

/// The payload that carries these screens.
pub open spec fn config_wire(ws: Seq<ScreenWire>) -> Seq<u8> {
    seq![ws.len() as u8] + flat_screens(ws, ws.len() as int)
}

/// The screens of a payload that is long enough for the count it starts with.
pub open spec fn screens_in(b: Seq<u8>) -> Seq<ScreenWire> {
    Seq::new(b[0] as nat, |i: int| screen_in(b, i))
}

/// The `i`th screen of a payload.
pub open spec fn screen_in(b: Seq<u8>, i: int) -> ScreenWire {
    ScreenWire::from_wire(b.skip(1 + 51 * i)).unwrap()
}

/// `n` screens take so many bytes.
pub proof fn lemma_flat_len(ws: Seq<ScreenWire>, n: int)
    requires
        0 <= n,
    ensures
        flat_screens(ws, n).len() == 51 * n,
    decreases n,
{
    if n > 0 {
        lemma_flat_len(ws, n - 1);
        ws[n - 1].law_roundtrip(Seq::empty());
    }
}

/// Each screen lies at its place.
proof fn lemma_flat_split(ws: Seq<ScreenWire>, n: int, i: int)
    requires
        0 <= i < n,
    ensures
        flat_screens(ws, n).len() == 51 * n,
        flat_screens(ws, n).subrange(51 * i, 51 * i + 51)
            == ws[i].wire(),
    decreases n,
{
    lemma_flat_len(ws, n);
    lemma_flat_len(ws, n - 1);
    ws[n - 1].law_roundtrip(Seq::empty());
    let all = flat_screens(ws, n);
    if i == n - 1 {
        assert(all.subrange(51 * i, 51 * i + 51) =~= ws[i].wire());
    } else {
        lemma_flat_split(ws, n - 1, i);
        assert(all.subrange(51 * i, 51 * i + 51) =~= flat_screens(
            ws,
            n - 1,
        ).subrange(51 * i, 51 * i + 51));
    }
}

/// The screens of an encoded layout are the ones that were encoded, whatever
/// follows them. A zero pointer speed comes back as unchanged, as it does for
/// one screen, so it is left out here.
pub proof fn law_roundtrip(ws: Seq<ScreenWire>, rest: Seq<u8>)
    requires
        ws.len() <= 255,
        forall|i: int| 0 <= i < ws.len() ==> (#[trigger] ws[i]).profile.mouse_scale_pct != 0,
    ensures
        config_wire(ws).len() == 1 + 51 * ws.len(),
        screens_in(config_wire(ws) + rest) == ws,
{
    let n = ws.len() as int;
    lemma_flat_len(ws, n);
    let b = config_wire(ws) + rest;
    assert(b[0] == n);
    assert forall|i: int| 0 <= i < n implies screen_in(b, i) == ws[i] by {
        lemma_flat_split(ws, n, i);
        ws[i].law_roundtrip(Seq::empty());
        let at = 1 + 51 * i;
        let part = flat_screens(ws, n).subrange(51 * i, 51 * i + 51);
        let tail = b.skip(at + 51);
        assert(b.subrange(at, at + 51) =~= part);
        assert(b.skip(at) =~= b.subrange(at, at + 51) + tail);
        ws[i].law_roundtrip(tail);
        assert(ws[i].profile == crate::proto::profile::InputProfile {
            mouse_scale_pct: ws[i].profile.mouse_scale_pct,
            ..ws[i].profile
        });
    }
    assert(screens_in(b) =~= ws);
}

/// A payload whose screens are all as they are written, with nothing after the
/// last.
pub open spec fn is_canonical(b: Seq<u8>) -> bool {
    &&& b.len() >= 1
    &&& b.len() == 1 + 51 * b[0]
    &&& forall|i: int|
        0 <= i < b[0] ==> ScreenWire::is_canonical(
            #[trigger] b.subrange(1 + 51 * i, 1 + 51 * i + 51),
        )
}

/// Such a payload is the one that carries its screens.
pub proof fn law_canonical_bytes_are_written_back(b: Seq<u8>)
    requires
        is_canonical(b),
    ensures
        config_wire(screens_in(b)) == b,
{
    lemma_canonical_prefix(b, b[0] as int);
    assert(config_wire(screens_in(b)) =~= b);
}

/// Each screen of such a payload is written as the bytes at its place, and its
/// name as the bytes of its field.
pub proof fn lemma_canonical_screen(b: Seq<u8>, i: int)
    requires
        is_canonical(b),
        0 <= i < b[0],
    ensures
        screens_in(b)[i].wire() == b.subrange(1 + 51 * i, 1 + 51 * i + 51),
        sixteen_at(
            padded(encode_utf8(padded_text(screens_in(b)[i].name@)), NAME_LEN as int),
            0,
        ) == screens_in(b)[i].name,
{
    let at = 1 + 51 * i;
    let part = b.subrange(at, at + 51);
    assert(ScreenWire::is_canonical(part));
    ScreenWire::law_canonical_bytes_are_written_back(part);
    ScreenWire::lemma_is_local(b.skip(at));
    assert(b.skip(at).take(51) =~= part);
}

proof fn lemma_canonical_prefix(b: Seq<u8>, n: int)
    requires
        is_canonical(b),
        0 <= n <= b[0],
    ensures
        flat_screens(screens_in(b), n) == b.subrange(1, 1 + 51 * n),
    decreases n,
{
    if n > 0 {
        lemma_canonical_prefix(b, n - 1);
        lemma_canonical_screen(b, n - 1);
        assert(flat_screens(screens_in(b), n) =~= b.subrange(1, 1 + 51 * n));
    } else {
        assert(flat_screens(screens_in(b), n) =~= b.subrange(1, 1 + 51 * n));
    }
}

/// Read the screens of a payload that is long enough for its count.
pub fn read_screens(data: &[u8], count: usize) -> (r: Vec<ScreenWire>)
    requires
        data@.len() >= 1,
        count == data@[0],
        data@.len() >= 1 + 51 * count,
    ensures
        r@ == screens_in(data@),
{
    let mut ws: Vec<ScreenWire> = Vec::new();
    let mut i: usize = 0;
    while i < count
        invariant
            i <= count <= 255,
            count == data@[0],
            data@.len() >= 1 + 51 * count,
            ws@.len() == i,
            forall|k: int| 0 <= k < i ==> ws@[k] == screen_in(data@, k),
        decreases count - i,
    {
        let at: usize = 1 + 51 * i;
        let rest: &[u8] = vstd::slice::slice_subrange(data, at, data.len());
        assert(rest@ =~= data@.skip(1 + 51 * i));
        match ScreenWire::decode(rest) {
            Some(w) => ws.push(w),
            None => {
                assert(false);
            },
        }
        i = i + 1;
    }
    assert(ws@ =~= screens_in(data@));
    ws
}

/// Write a screen at the end of `out`.
pub fn append_screen(out: &mut Vec<u8>, w: &ScreenWire)
    ensures
        final(out)@ == old(out)@ + w.wire(),
{
    let mut buf: [u8; 51] = [0; 51];
    w.encode_into(&mut buf);
    proof {
        w.law_roundtrip(Seq::empty());
    }
    assert(buf@ =~= w.wire());
    out.extend_from_slice(buf.as_slice());
}

/// A payload is a byte that counts its screens, and behind it the screens one
/// after the other, each in fifty-one bytes.
pub proof fn law_where_each_screen_stands(ws: Seq<ScreenWire>, i: int, k: int)
    requires
        ws.len() <= 255,
        0 <= i < ws.len(),
        0 <= k < 51,
    ensures
        config_wire(ws).len() == 1 + 51 * ws.len(),
        config_wire(ws)[0] == ws.len(),
        config_wire(ws)[1 + 51 * i + k] == ws[i].wire()[k],
{
    lemma_flat_len(ws, ws.len() as int);
    lemma_flat_split(ws, ws.len() as int, i);
    let part = flat_screens(ws, ws.len() as int).subrange(51 * i, 51 * i + 51);
    assert(part[k] == flat_screens(ws, ws.len() as int)[51 * i + k]);
}

/// The screens of a payload are as many as its first byte says, and each is read
/// off the fifty-one bytes at its place, whatever stands elsewhere.
pub proof fn law_where_each_screen_is_read(b: Seq<u8>, i: int)
    requires
        b.len() >= 1 + 51 * b[0],
        0 <= i < b[0],
    ensures
        screens_in(b).len() == b[0],
        Some(screens_in(b)[i]) == ScreenWire::from_wire(b.subrange(1 + 51 * i, 52 + 51 * i)),
{
    ScreenWire::lemma_is_local(b.skip(1 + 51 * i));
    assert(b.skip(1 + 51 * i).take(51) =~= b.subrange(1 + 51 * i, 52 + 51 * i));
}

} // verus!
