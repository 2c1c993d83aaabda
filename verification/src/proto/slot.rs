//! Bonded targets.

use vstd::prelude::*;

use crate::bytes::{put, six_at, splice};

verus! {

/// One bonded target, as it appears inside a STATUS payload.
#[derive(Debug, Clone, Copy, PartialEq, Eq)]
pub struct SlotStatus {
    /// Connection slot, 0-based. Node ids are `slot + 1`.
    pub slot: u8,
    pub connected: bool,
    /// Peer Bluetooth address, all zero when never bonded.
    pub bda: [u8; 6],
}

impl SlotStatus {
    pub const WIRE_LEN: usize = 8;

    /// The bytes of this slot on the wire.
    pub open spec fn wire(self) -> Seq<u8> {
        seq![
            self.slot,
            if self.connected {
                1u8
            } else {
                0u8
            },
        ] + self.bda@
    }

    /// The slot that `b` starts with.
    pub open spec fn from_wire(b: Seq<u8>) -> Option<SlotStatus> {
        if b.len() < 8 {
            None
        } else {
            Some(SlotStatus { slot: b[0], connected: b[1] != 0, bda: six_at(b, 2) })
        }
    }

    /// Write the slot at the start of `out`.
    pub fn encode_into(&self, out: &mut [u8])
        requires
            old(out)@.len() >= Self::WIRE_LEN,
        ensures
            final(out)@ == splice(old(out)@, 0, self.wire()),
    {
        let connected: u8 = if self.connected {
            1
        } else {
            0
        };
        let b: [u8; 8] = [
            self.slot,
            connected,
            self.bda[0],
            self.bda[1],
            self.bda[2],
            self.bda[3],
            self.bda[4],
            self.bda[5],
        ];
        assert(b@ =~= self.wire());
        put(out, 0, b.as_slice());
    }

    /// Anything after the first eight bytes is ignored.
    pub fn decode(b: &[u8]) -> (r: Option<Self>)
        ensures
            r == Self::from_wire(b@),
    {
        if b.len() < 8 {
            return None;
        }
        let bda: [u8; 6] = [b[2], b[3], b[4], b[5], b[6], b[7]];
        assert(bda =~= six_at(b@, 2));
        Some(SlotStatus { slot: b[0], connected: b[1] != 0, bda })
    }

    /// Decoding an encoded slot gives it back, whatever follows it.
    pub proof fn law_roundtrip(self, rest: Seq<u8>)
        ensures
            self.wire().len() == Self::WIRE_LEN,
            Self::from_wire(self.wire() + rest) == Some(self),
    {
        let b = self.wire() + rest;
        assert(six_at(b, 2) =~= self.bda);
    }
}

/// The slots of a STATUS payload: as many as its count says and as arrived
/// whole.
pub open spec fn slots_in(p: Seq<u8>) -> Seq<SlotStatus> {
    if p.len() == 0 {
        Seq::empty()
    } else {
        let whole = (p.len() - 1) / 8;
        let n = if p[0] < whole {
            p[0] as int
        } else {
            whole
        };
        Seq::new(n as nat, |i: int| SlotStatus::from_wire(p.skip(1 + 8 * i)).unwrap())
    }
}

/// Read the slots of a STATUS payload.
pub fn read_slots(p: &[u8]) -> (r: Vec<SlotStatus>)
    ensures
        r@ == slots_in(p@),
{
    let mut out: Vec<SlotStatus> = Vec::new();
    if p.len() == 0 {
        assert(out@ =~= slots_in(p@));
        return out;
    }
    let count: usize = p[0] as usize;
    let total: usize = p.len();
    let mut i: usize = 0;
    while i < count && 1 + 8 * (i + 1) <= total
        invariant
            i <= count <= 255,
            count == p@[0],
            total == p@.len(),
            1 + 8 * i <= total,
            out@.len() == i,
            i <= (total - 1) / 8,
            forall|k: int|
                0 <= k < i ==> out@[k] == SlotStatus::from_wire(#[trigger] p@.skip(1 + 8 * k)).unwrap(),
        decreases count - i,
    {
        let rest: &[u8] = vstd::slice::slice_subrange(p, 1 + 8 * i, total);
        assert(rest@ =~= p@.skip(1 + 8 * i));
        match SlotStatus::decode(rest) {
            Some(s) => out.push(s),
            None => {
                assert(false);
            },
        }
        i = i + 1;
    }
    assert(out@ =~= slots_in(p@));
    out
}

impl SlotStatus {
    /// What each byte of a slot is for: its number, whether it is connected and
    /// the six bytes of the address; and a slot is read off the same bytes.
    pub proof fn law_what_each_byte_is_for(self, b: Seq<u8>, i: int)
        requires
            0 <= i < 6,
        ensures
            self.wire().len() == 8,
            self.wire()[0] == self.slot,
            self.connected ==> self.wire()[1] == 1,
            !self.connected ==> self.wire()[1] == 0,
            self.wire()[2 + i] == self.bda@[i],
            Self::from_wire(b) is None <==> b.len() < 8,
            Self::from_wire(b) matches Some(s) ==> s.slot == b[0] && (s.connected <==> b[1] != 0)
                && s.bda@[i] == b[2 + i],
    {
    }
}

/// A STATUS payload lists a slot in every eight bytes behind its count, as many
/// as the count says and no more than arrived.
pub proof fn law_slots_stand_behind_their_count(p: Seq<u8>, i: int)
    ensures
        p.len() == 0 ==> slots_in(p).len() == 0,
        p.len() > 0 ==> slots_in(p).len() <= p[0] && 1 + 8 * slots_in(p).len() <= p.len(),
        p.len() > 0 ==> slots_in(p).len() == p[0] || 1 + 8 * (slots_in(p).len() + 1) > p.len(),
        0 <= i < slots_in(p).len() ==> {
            let s = slots_in(p)[i];
            &&& s.slot == p[1 + 8 * i]
            &&& s.connected <==> p[2 + 8 * i] != 0
            &&& s.bda@ == p.subrange(3 + 8 * i, 9 + 8 * i)
        },
{
    if 0 <= i < slots_in(p).len() {
        let rest = p.skip(1 + 8 * i);
        assert(rest.len() >= 8);
        assert(six_at(rest, 2)@ =~= p.subrange(3 + 8 * i, 9 + 8 * i));
    }
}

} // verus!
