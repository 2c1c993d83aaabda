//! Screens on the wire.

use vstd::prelude::*;
use vstd::utf8::{decode_utf8_encode_utf8, encode_utf8, valid_utf8};

use crate::bytes::{
    as_i32, eight_at, i32_bytes, law_the_first_byte_weighs_least, le32, lemma_i32_roundtrip, lemma_i32_written_back, lemma_u16_written_back,
    put, read_i32, same_six, six_at, sixteen_at, splice, u16_at, u32_at,
};
use crate::proto::profile::InputProfile;
use crate::proto::{NAME_LEN, SCREEN_WIRE_LEN};
use crate::text::{
    lemma_padded_text, lemma_until_nul_shape, padded, padded_text, read_padded, until_nul,
};

verus! {

/// One screen, as it appears inside a CONFIG payload.
#[derive(Debug, Clone, Copy, PartialEq, Eq)]
pub struct ScreenWire {
    pub node: u8,
    pub name: [u8; 16],
    pub x: i32,
    pub y: i32,
    pub width: i32,
    pub height: i32,
    /// How input is translated for this target.
    pub profile: InputProfile,
    /// Bluetooth address of the machine this screen belongs to; all zero when
    /// unpinned.
    ///
    /// Slots are filled in whatever order machines happen to connect. Pinning
    /// to the peer address makes the layout mean the same thing every time.
    pub bda: [u8; 6],
}

/// The address that pins nothing.
pub open spec fn no_address() -> [u8; 6] {
    [0u8, 0, 0, 0, 0, 0]
}

impl ScreenWire {
    /// The bytes of this screen on the wire.
    pub open spec fn wire(self) -> Seq<u8> {
        seq![self.node] + self.name@ + le32(self.x as int) + le32(self.y as int) + le32(
            self.width as int,
        ) + le32(self.height as int) + self.bda@ + self.profile.wire()
    }

    /// The screen that `b` starts with.
    pub open spec fn from_wire(b: Seq<u8>) -> Option<ScreenWire> {
        if b.len() < SCREEN_WIRE_LEN {
            None
        } else {
            Some(
                ScreenWire {
                    node: b[0],
                    name: sixteen_at(b, 1),
                    x: as_i32(u32_at(b, 17)),
                    y: as_i32(u32_at(b, 21)),
                    width: as_i32(u32_at(b, 25)),
                    height: as_i32(u32_at(b, 29)),
                    bda: six_at(b, 33),
                    profile: InputProfile::from_wire(b.skip(39)).unwrap(),
                },
            )
        }
    }

    /// Write the screen at the start of `out`.
    pub fn encode_into(&self, out: &mut [u8])
        requires
            old(out)@.len() >= SCREEN_WIRE_LEN,
        ensures
            final(out)@ == splice(old(out)@, 0, self.wire()),
    {
        let ghost before = out@;
        let node: [u8; 1] = [self.node];
        put(out, 0, node.as_slice());
        put(out, 1, self.name.as_slice());
        put(out, 17, i32_bytes(self.x).as_slice());
        put(out, 21, i32_bytes(self.y).as_slice());
        put(out, 25, i32_bytes(self.width).as_slice());
        put(out, 29, i32_bytes(self.height).as_slice());
        put(out, 33, self.bda.as_slice());
        let mut profile: [u8; 12] = [0; 12];
        self.profile.encode_into(&mut profile);
        assert(profile@ =~= self.profile.wire());
        put(out, 39, profile.as_slice());
        assert(out@ =~= splice(before, 0, self.wire()));
    }

    /// Anything after the screen's bytes is ignored.
    pub fn decode(b: &[u8]) -> (r: Option<Self>)
        ensures
            r == Self::from_wire(b@),
    {
        if b.len() < SCREEN_WIRE_LEN {
            return None;
        }
        let mut name: [u8; 16] = [0; 16];
        let mut i: usize = 0;
        while i < 16
            invariant
                i <= 16,
                b@.len() >= SCREEN_WIRE_LEN,
                forall|j: int| 0 <= j < i ==> name@[j] == b@[1 + j],
            decreases 16 - i,
        {
            name[i] = b[1 + i];
            i = i + 1;
        }
        assert(name =~= sixteen_at(b@, 1));
        let bda: [u8; 6] = [b[33], b[34], b[35], b[36], b[37], b[38]];
        assert(bda =~= six_at(b@, 33));
        let rest: &[u8] = vstd::slice::slice_subrange(b, 39, b.len());
        assert(rest@ =~= b@.skip(39));
        match InputProfile::decode(rest) {
            Some(profile) => Some(
                ScreenWire {
                    node: b[0],
                    name,
                    x: read_i32(b, 17),
                    y: read_i32(b, 21),
                    width: read_i32(b, 25),
                    height: read_i32(b, 29),
                    bda,
                    profile,
                },
            ),
            None => None,
        }
    }

    /// The name up to its padding; empty where the bytes are not text.
    pub fn name_str(&self) -> (r: &str)
        ensures
            r@ == padded_text(self.name@),
    {
        read_padded(self.name.as_slice())
    }

    /// An unpinned screen.
    pub fn with_name(node: u8, name: &str, x: i32, y: i32, width: i32, height: i32) -> (r: Self)
        ensures
            r == (ScreenWire {
                node,
                name: sixteen_at(padded(encode_utf8(name@), NAME_LEN as int), 0),
                x,
                y,
                width,
                height,
                bda: no_address(),
                profile: InputProfile::identity_profile(),
            }),
    {
        let bda: [u8; 6] = [0; 6];
        assert(bda =~= no_address());
        Self::pinned(node, name, x, y, width, height, bda)
    }

    /// A screen that names a specific machine. A name longer than its field is
    /// cut.
    pub fn pinned(
        node: u8,
        name: &str,
        x: i32,
        y: i32,
        width: i32,
        height: i32,
        bda: [u8; 6],
    ) -> (r: Self)
        ensures
            r == (ScreenWire {
                node,
                name: sixteen_at(padded(encode_utf8(name@), NAME_LEN as int), 0),
                x,
                y,
                width,
                height,
                bda,
                profile: InputProfile::identity_profile(),
            }),
    {
        let mut buf: [u8; 16] = [0; 16];
        let src: &[u8] = name.as_bytes();
        let mut i: usize = 0;
        while i < src.len() && i < NAME_LEN
            invariant
                i <= NAME_LEN,
                i <= src@.len(),
                forall|j: int| 0 <= j < i ==> buf@[j] == src@[j],
                forall|j: int| i <= j < 16 ==> buf@[j] == 0,
            decreases NAME_LEN - i,
        {
            buf[i] = src[i];
            i = i + 1;
        }
        assert(buf =~= sixteen_at(padded(encode_utf8(name@), NAME_LEN as int), 0));
        ScreenWire {
            node,
            name: buf,
            x,
            y,
            width,
            height,
            bda,
            profile: InputProfile::identity(),
        }
    }

    /// True when this screen names a specific machine rather than whichever
    /// one happens to connect first.
    pub fn is_pinned(&self) -> (r: bool)
        ensures
            r == (self.bda != no_address()),
    {
        let none: [u8; 6] = [0; 6];
        assert(none =~= no_address());
        !same_six(&self.bda, &none)
    }

    /// Decoding an encoded screen gives it back, whatever follows it. A profile
    /// with a zero scale, which would freeze the pointer, comes back as
    /// unchanged speed.
    pub proof fn law_roundtrip(self, rest: Seq<u8>)
        ensures
            self.wire().len() == SCREEN_WIRE_LEN,
            Self::from_wire(self.wire() + rest) == Some(
                ScreenWire {
                    profile: InputProfile {
                        mouse_scale_pct: if self.profile.mouse_scale_pct == 0 {
                            100
                        } else {
                            self.profile.mouse_scale_pct
                        },
                        ..self.profile
                    },
                    ..self
                },
            ),
    {
        let b = self.wire() + rest;
        assert(b.subrange(17, 21) =~= le32(self.x as int));
        assert(b.subrange(21, 25) =~= le32(self.y as int));
        assert(b.subrange(25, 29) =~= le32(self.width as int));
        assert(b.subrange(29, 33) =~= le32(self.height as int));
        lemma_i32_roundtrip(self.x, b, 17);
        lemma_i32_roundtrip(self.y, b, 21);
        lemma_i32_roundtrip(self.width, b, 25);
        lemma_i32_roundtrip(self.height, b, 29);
        assert(six_at(b, 33) =~= self.bda);
        assert(sixteen_at(b, 1) =~= self.name);
        self.profile.law_roundtrip(rest);
        assert(b.skip(39) =~= self.profile.wire() + rest);
    }

    /// A screen is read off its own bytes, whatever follows them.
    pub proof fn lemma_is_local(b: Seq<u8>)
        requires
            b.len() >= SCREEN_WIRE_LEN,
        ensures
            Self::from_wire(b) == Self::from_wire(b.take(SCREEN_WIRE_LEN as int)),
    {
        let a = b.take(SCREEN_WIRE_LEN as int);
        assert(sixteen_at(a, 1) == sixteen_at(b, 1));
        assert(six_at(a, 33) == six_at(b, 33));
        let (p, q) = (a.skip(39), b.skip(39));
        assert(eight_at(p, 4) == eight_at(q, 4));
    }

    /// The bytes of a screen as it is written: its pointer speed is not zero,
    /// the byte that stands for nothing is zero, and its name is text with
    /// nothing but NULs after the first.
    pub open spec fn is_canonical(b: Seq<u8>) -> bool {
        &&& b.len() == SCREEN_WIRE_LEN
        &&& u16_at(b, 39) != 0
        &&& b[42] == 0
        &&& valid_utf8(until_nul(b.subrange(1, 17)))
        &&& forall|i: int|
            until_nul(b.subrange(1, 17)).len() <= i < NAME_LEN ==> #[trigger] b.subrange(1, 17)[i]
                == 0
    }

    /// Such bytes are the ones that the screen read from them is written as.
    pub proof fn law_canonical_bytes_are_written_back(b: Seq<u8>)
        requires
            Self::is_canonical(b),
        ensures
            Self::from_wire(b) matches Some(w) && w.wire() == b && sixteen_at(
                padded(encode_utf8(padded_text(w.name@)), NAME_LEN as int),
                0,
            ) == w.name,
    {
        let w = Self::from_wire(b)->Some_0;
        lemma_i32_written_back(b, 17);
        lemma_i32_written_back(b, 21);
        lemma_i32_written_back(b, 25);
        lemma_i32_written_back(b, 29);
        lemma_u16_written_back(b.skip(39), 0);
        assert(u16_at(b.skip(39), 0) == u16_at(b, 39));
        assert(w.profile.wire() =~= b.skip(39));
        assert(w.wire() =~= b);
        let name = b.subrange(1, 17);
        assert(w.name@ =~= name);
        lemma_until_nul_shape(name);
        decode_utf8_encode_utf8(until_nul(name));
        let again = padded(encode_utf8(padded_text(name)), NAME_LEN as int);
        assert forall|i: int| 0 <= i < NAME_LEN implies again[i] == #[trigger] name[i] by {
            if i < until_nul(name).len() {
                assert(until_nul(name)[i] == name[i]);
            }
        }
        assert(sixteen_at(again, 0) =~= w.name);
    }

    /// A name that fits its field and holds no NUL is read back as written.
    pub proof fn law_name_is_kept(name: Seq<char>)
        requires
            encode_utf8(name).len() <= NAME_LEN,
            forall|i: int| 0 <= i < encode_utf8(name).len() ==> encode_utf8(name)[i] != 0,
        ensures
            padded_text(sixteen_at(padded(encode_utf8(name), NAME_LEN as int), 0)@) == name,
    {
        let p = padded(encode_utf8(name), NAME_LEN as int);
        assert(sixteen_at(p, 0)@ =~= p);
        lemma_padded_text(name, NAME_LEN as int);
    }
}

impl ScreenWire {
    /// What each byte of a screen is for: the node, sixteen bytes of name, its
    /// place and its size as numbers of four bytes, the first of which weighs
    /// least, six bytes of address and twelve of profile.
    pub proof fn law_what_each_byte_is_for(self, i: int)
        requires
            0 <= i,
        ensures
            ({
                let w = self.wire();
                &&& w.len() == 51
                &&& w[0] == self.node
                &&& i < 16 ==> w[1 + i] == self.name@[i]
                &&& (w[17] + 256 * w[18] + 65536 * w[19] + 16777216 * w[20] - self.x) % 4294967296
                    == 0
                &&& (w[21] + 256 * w[22] + 65536 * w[23] + 16777216 * w[24] - self.y) % 4294967296
                    == 0
                &&& (w[25] + 256 * w[26] + 65536 * w[27] + 16777216 * w[28] - self.width)
                    % 4294967296 == 0
                &&& (w[29] + 256 * w[30] + 65536 * w[31] + 16777216 * w[32] - self.height)
                    % 4294967296 == 0
                &&& i < 6 ==> w[33 + i] == self.bda@[i]
                &&& w[39] + 256 * w[40] == self.profile.mouse_scale_pct
                &&& w[41] == self.profile.mouse_flags
                &&& w[42] == 0
                &&& i < 8 ==> w[43 + i] == self.profile.mod_map@[i]
            }),
    {
        self.lemma_places();
        let w = self.wire();
        assert(w.subrange(1, 17)[i] == w[1 + i] || i >= 16);
        lemma_four_at(w, 17, self.x);
        lemma_four_at(w, 21, self.y);
        lemma_four_at(w, 25, self.width);
        lemma_four_at(w, 29, self.height);
        assert(w.subrange(33, 39)[i] == w[33 + i] || i >= 6);
        let p = self.profile.wire();
        assert(w.skip(39)[0] == w[39] && w.skip(39)[1] == w[40] && w.skip(39)[2] == w[41]
            && w.skip(39)[3] == w[42]);
        if i < 8 {
            self.profile.law_what_each_byte_is_for(i);
            assert(w.skip(39)[4 + i] == w[43 + i]);
        } else {
            self.profile.law_what_each_byte_is_for(0);
        }
    }

    proof fn lemma_places(self)
        ensures
            ({
                let w = self.wire();
                &&& w.len() == 51
                &&& w[0] == self.node
                &&& w.subrange(1, 17) == self.name@
                &&& w.subrange(17, 21) == le32(self.x as int)
                &&& w.subrange(21, 25) == le32(self.y as int)
                &&& w.subrange(25, 29) == le32(self.width as int)
                &&& w.subrange(29, 33) == le32(self.height as int)
                &&& w.subrange(33, 39) == self.bda@
                &&& w.skip(39) == self.profile.wire()
            }),
    {
        let w = self.wire();
        assert(w.subrange(1, 17) =~= self.name@);
        assert(w.subrange(17, 21) =~= le32(self.x as int));
        assert(w.subrange(21, 25) =~= le32(self.y as int));
        assert(w.subrange(25, 29) =~= le32(self.width as int));
        assert(w.subrange(29, 33) =~= le32(self.height as int));
        assert(w.subrange(33, 39) =~= self.bda@);
        assert(w.skip(39) =~= self.profile.wire());
    }

    /// A screen is read off the same bytes.
    pub proof fn law_what_is_read_of_each_byte(b: Seq<u8>, i: int)
        requires
            0 <= i,
        ensures
            Self::from_wire(b) is None <==> b.len() < 51,
            Self::from_wire(b) matches Some(s) ==> {
                &&& s.node == b[0]
                &&& i < 16 ==> s.name@[i] == b[1 + i]
                &&& (b[17] + 256 * b[18] + 65536 * b[19] + 16777216 * b[20] - s.x) % 4294967296 == 0
                &&& (b[21] + 256 * b[22] + 65536 * b[23] + 16777216 * b[24] - s.y) % 4294967296 == 0
                &&& (b[25] + 256 * b[26] + 65536 * b[27] + 16777216 * b[28] - s.width) % 4294967296
                    == 0
                &&& (b[29] + 256 * b[30] + 65536 * b[31] + 16777216 * b[32] - s.height) % 4294967296
                    == 0
                &&& i < 6 ==> s.bda@[i] == b[33 + i]
                &&& b[39] + 256 * b[40] > 0 ==> s.profile.mouse_scale_pct == b[39] + 256 * b[40]
                &&& b[39] + 256 * b[40] == 0 ==> s.profile.mouse_scale_pct == 100
                &&& s.profile.mouse_flags == b[41]
                &&& i < 8 ==> s.profile.mod_map@[i] == b[43 + i]
            },
    {
        if b.len() >= 51 {
            let p = b.skip(39);
            assert(p[0] == b[39] && p[1] == b[40] && p[2] == b[41]);
            if i < 8 {
                assert(eight_at(p, 4)@[i] == p[4 + i]);
            }
        }
    }
}

proof fn lemma_four_at(w: Seq<u8>, at: int, v: i32)
    requires
        0 <= at,
        at + 4 <= w.len(),
        w.subrange(at, at + 4) == le32(v as int),
    ensures
        (w[at] + 256 * w[at + 1] + 65536 * w[at + 2] + 16777216 * w[at + 3] - v) % 4294967296 == 0,
{
    let part = w.subrange(at, at + 4);
    assert(part[0] == w[at] && part[1] == w[at + 1] && part[2] == w[at + 2] && part[3] == w[at
        + 3]);
    law_the_first_byte_weighs_least(v as int);
    let sum = w[at] + 256 * w[at + 1] + 65536 * w[at + 2] + 16777216 * w[at + 3];
    assert(sum == v as int % 4294967296);
}

/// The address that pins nothing is six zeros.
pub proof fn law_no_address_is_all_zero(i: int)
    requires
        0 <= i < 6,
    ensures
        no_address()@.len() == 6,
        no_address()@[i] == 0,
{
}

} // verus!
