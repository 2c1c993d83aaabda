//! Keyboard state.

use vstd::prelude::*;

use crate::bytes::six_at;

verus! {

/// Keyboard state: which modifiers and which keys are held, right now.
///
/// Absolute rather than press/release events, for the same reason mouse buttons
/// are: BLE does not retransmit, and a lost release would strand a key held
/// down on a machine the user is not looking at. Six keycodes is what the boot
/// protocol report carries.
#[derive(Debug, Clone, Copy, PartialEq, Eq)]
pub struct KeyState {
    pub modifiers: u8,
    pub keys: [u8; 6],
}

impl Default for KeyState {
    /// Nothing held.
    fn default() -> (r: Self)
        ensures
            r == (KeyState { modifiers: 0, keys: [0u8, 0, 0, 0, 0, 0] }),
    {
        KeyState { modifiers: 0, keys: [0, 0, 0, 0, 0, 0] }
    }
}

impl KeyState {
    pub const WIRE_LEN: usize = 8;

    /// The bytes of this state on the wire. The second one is the boot
    /// protocol's reserved field and stays zero.
    pub open spec fn wire(self) -> Seq<u8> {
        seq![self.modifiers, 0u8] + self.keys@
    }

    /// The state that `b` starts with.
    pub open spec fn from_wire(b: Seq<u8>) -> Option<KeyState> {
        if b.len() < 8 {
            None
        } else {
            Some(KeyState { modifiers: b[0], keys: six_at(b, 2) })
        }
    }

    pub fn encode(&self) -> (r: [u8; Self::WIRE_LEN])
        ensures
            r@ == self.wire(),
    {
        let r: [u8; Self::WIRE_LEN] = [
            self.modifiers,
            0,
            self.keys[0],
            self.keys[1],
            self.keys[2],
            self.keys[3],
            self.keys[4],
            self.keys[5],
        ];
        assert(r@ =~= self.wire());
        r
    }

    /// Anything after the first eight bytes is ignored.
    pub fn decode(b: &[u8]) -> (r: Option<Self>)
        ensures
            r == Self::from_wire(b@),
    {
        if b.len() < 8 {
            return None;
        }
        let keys: [u8; 6] = [b[2], b[3], b[4], b[5], b[6], b[7]];
        assert(keys =~= six_at(b@, 2));
        Some(KeyState { modifiers: b[0], keys })
    }

    /// Decoding an encoded state gives it back, whatever follows it.
    pub proof fn law_roundtrip(self, rest: Seq<u8>)
        ensures
            self.wire().len() == Self::WIRE_LEN,
            Self::from_wire(self.wire() + rest) == Some(self),
    {
        let b = self.wire() + rest;
        assert(six_at(b, 2) =~= self.keys);
    }
}

impl KeyState {
    /// What each byte of a state is for: the modifiers, a byte that stays zero,
    /// and the six keys in order; and a state is read off the same bytes.
    pub proof fn law_what_each_byte_is_for(self, b: Seq<u8>, i: int)
        requires
            0 <= i < 6,
        ensures
            self.wire().len() == 8,
            self.wire()[0] == self.modifiers,
            self.wire()[1] == 0,
            self.wire()[2 + i] == self.keys@[i],
            Self::from_wire(b) is None <==> b.len() < 8,
            Self::from_wire(b) matches Some(k) ==> k.modifiers == b[0] && k.keys@[i] == b[2 + i],
    {
    }
}

} // verus!
