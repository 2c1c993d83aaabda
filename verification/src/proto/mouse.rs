//! Pointer updates.

use vstd::prelude::*;

use crate::bytes::{as_i16, as_i8, byte_to_i8, i16_bytes, i8_byte, i8_to_byte, le16, read_i16, u16_at};

verus! {

/// A relative pointer update. Buttons are absolute state; motion is a delta.
#[derive(Debug, Clone, Copy, PartialEq, Eq, Structural)]
pub struct MouseState {
    pub buttons: u8,
    pub dx: i16,
    pub dy: i16,
    pub wheel: i8,
    pub pan: i8,
}

impl Default for MouseState {
    /// No buttons, no motion.
    fn default() -> (r: Self)
        ensures
            r == (MouseState { buttons: 0, dx: 0, dy: 0, wheel: 0, pan: 0 }),
    {
        MouseState { buttons: 0, dx: 0, dy: 0, wheel: 0, pan: 0 }
    }
}

impl MouseState {
    pub const WIRE_LEN: usize = 8;

    /// The bytes of this update on the wire. The last one is padding.
    pub open spec fn wire(self) -> Seq<u8> {
        seq![self.buttons] + le16(self.dx as int) + le16(self.dy as int) + seq![
            i8_byte(self.wheel),
            i8_byte(self.pan),
            0u8,
        ]
    }

    /// The update that `b` starts with.
    pub open spec fn from_wire(b: Seq<u8>) -> Option<MouseState> {
        if b.len() < 8 {
            None
        } else {
            Some(
                MouseState {
                    buttons: b[0],
                    dx: as_i16(u16_at(b, 1)),
                    dy: as_i16(u16_at(b, 3)),
                    wheel: as_i8(b[5]),
                    pan: as_i8(b[6]),
                },
            )
        }
    }

    pub fn encode(&self) -> (r: [u8; Self::WIRE_LEN])
        ensures
            r@ == self.wire(),
    {
        let dx: [u8; 2] = i16_bytes(self.dx);
        let dy: [u8; 2] = i16_bytes(self.dy);
        let r: [u8; Self::WIRE_LEN] = [
            self.buttons,
            dx[0],
            dx[1],
            dy[0],
            dy[1],
            i8_to_byte(self.wheel),
            i8_to_byte(self.pan),
            0,
        ];
        assert(r@ =~= self.wire());
        r
    }

    /// Anything after the first eight bytes is ignored.
    pub fn decode(b: &[u8]) -> (r: Option<Self>)
        ensures
            r == Self::from_wire(b@),
    {
        if b.len() < 8 {
            return None;
        }
        Some(
            MouseState {
                buttons: b[0],
                dx: read_i16(b, 1),
                dy: read_i16(b, 3),
                wheel: byte_to_i8(b[5]),
                pan: byte_to_i8(b[6]),
            },
        )
    }

    /// Decoding an encoded update gives it back, whatever follows it.
    pub proof fn law_roundtrip(self, rest: Seq<u8>)
        ensures
            self.wire().len() == Self::WIRE_LEN,
            Self::from_wire(self.wire() + rest) == Some(self),
    {
        let b = self.wire() + rest;
        assert(b.subrange(1, 3) =~= le16(self.dx as int));
        assert(b.subrange(3, 5) =~= le16(self.dy as int));
        crate::bytes::lemma_i16_roundtrip(self.dx, b, 1);
        crate::bytes::lemma_i16_roundtrip(self.dy, b, 3);
    }
}

impl MouseState {
    /// What each byte of an update is for: the buttons, the motion along both
    /// axes, the wheel and the pan, and a byte of padding.
    pub proof fn law_what_each_byte_is_for(self)
        ensures
            ({
                let w = self.wire();
                &&& w.len() == 8
                &&& w[0] == self.buttons
                &&& (w[1] + 256 * w[2] - self.dx) % 65536 == 0
                &&& (w[3] + 256 * w[4] - self.dy) % 65536 == 0
                &&& (w[5] - self.wheel) % 256 == 0
                &&& (w[6] - self.pan) % 256 == 0
                &&& w[7] == 0
            }),
    {
    }

    /// An update is read off those bytes, and off any eight of them.
    pub proof fn law_what_is_read_of_each_byte(b: Seq<u8>)
        ensures
            Self::from_wire(b) is None <==> b.len() < 8,
            Self::from_wire(b) matches Some(m) ==> {
                &&& m.buttons == b[0]
                &&& (b[1] + 256 * b[2] - m.dx) % 65536 == 0
                &&& (b[3] + 256 * b[4] - m.dy) % 65536 == 0
                &&& (b[5] - m.wheel) % 256 == 0
                &&& (b[6] - m.pan) % 256 == 0
            },
    {
    }
}

} // verus!
