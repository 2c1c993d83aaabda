//! Per-target input translation.

use vstd::prelude::*;

use crate::bytes::{eight_at, le16, lemma_u16_roundtrip, put, read_u16, splice, u16_at, u16_bytes};
use crate::proto::modifier;
use crate::proto::mouse_flag;

verus! {

/// How input is translated on its way to one target.
///
/// The dongle applies this, not the controller: it already owns routing and
/// knows which machine a report is bound for, so the controller stays a dumb
/// forwarder and the settings travel with the layout.
///
/// Defaults are the identity, so a layout that says nothing changes nothing.
#[derive(Debug, Clone, Copy, PartialEq, Eq)]
pub struct InputProfile {
    /// Pointer speed as a percentage; 100 is unchanged.
    pub mouse_scale_pct: u16,
    /// See the mouse flags.
    pub mouse_flags: u8,
    /// Indexed by host modifier bit, holding the target modifier mask to send
    /// in its place.
    ///
    /// This is what makes a Mac usable against anything else: the host sends
    /// Cmd (LGui) for copy and paste, while Linux and ChromeOS want Ctrl.
    /// Expressed as a full map rather than a swap flag because the useful cases
    /// are not symmetric.
    pub mod_map: [u8; 8],
}

/// The mask of one bit of a byte.
pub open spec fn bit_mask(bit: int) -> u8 {
    if bit == 0 {
        1
    } else if bit == 1 {
        2
    } else if bit == 2 {
        4
    } else if bit == 3 {
        8
    } else if bit == 4 {
        16
    } else if bit == 5 {
        32
    } else if bit == 6 {
        64
    } else {
        128
    }
}

/// The union of the masks that `map` gives for the first `n` bits of `host`
/// that are set.
pub open spec fn mapped_bits(map: Seq<u8>, host: u8, n: int) -> u8
    decreases n,
{
    if n <= 0 {
        0
    } else if host & bit_mask(n - 1) != 0 {
        mapped_bits(map, host, n - 1) | map[n - 1]
    } else {
        mapped_bits(map, host, n - 1)
    }
}

/// Division that rounds towards zero.
pub open spec fn trunc_div(a: int, b: int) -> int {
    if a >= 0 {
        a / b
    } else {
        -((-a) / b)
    }
}

/// `v`, held within the range of a 16-bit number.
pub open spec fn clamp16(v: int) -> i16 {
    if v < -32768 {
        -32768i16
    } else if v > 32767 {
        32767i16
    } else {
        v as i16
    }
}

/// `v` scaled by a percentage, towards zero and held within range.
pub open spec fn scaled(v: i16, pct: u16) -> i16 {
    clamp16(trunc_div(v * pct, 100))
}

/// `v` with its sign turned, held within range.
pub open spec fn flipped(v: i16) -> i16 {
    clamp16(-v)
}

fn scale(v: i16, pct: u16) -> (r: i16)
    ensures
        r == scaled(v, pct),
{
    assert(-2147450880 <= v * pct <= 2147450880) by (nonlinear_arith)
        requires
            -32768 <= v <= 32767,
            0 <= pct <= 65535,
    ;
    let s: i32 = (v as i32 * pct as i32) / 100;
    if s < -32768 {
        -32768
    } else if s > 32767 {
        32767
    } else {
        s as i16
    }
}

fn flip(v: i16) -> (r: i16)
    ensures
        r == flipped(v),
{
    if v == -32768 {
        32767
    } else {
        -v
    }
}

impl InputProfile {
    pub const WIRE_LEN: usize = 12;

    /// The profile that changes nothing.
    pub open spec fn identity_profile() -> InputProfile {
        InputProfile {
            mouse_scale_pct: 100,
            mouse_flags: 0,
            mod_map: [1u8, 2, 4, 8, 16, 32, 64, 128],
        }
    }

    /// The bytes of this profile on the wire. The fourth one is reserved.
    pub open spec fn wire(self) -> Seq<u8> {
        le16(self.mouse_scale_pct as int) + seq![self.mouse_flags, 0u8] + self.mod_map@
    }

    /// The profile that `b` starts with. A zero scale would freeze the pointer
    /// with no way to tell why, so it reads as unchanged.
    pub open spec fn from_wire(b: Seq<u8>) -> Option<InputProfile> {
        if b.len() < 12 {
            None
        } else {
            Some(
                InputProfile {
                    mouse_scale_pct: if u16_at(b, 0) == 0 {
                        100
                    } else {
                        u16_at(b, 0)
                    },
                    mouse_flags: b[2],
                    mod_map: eight_at(b, 4),
                },
            )
        }
    }

    /// What a motion becomes on its way to this target.
    pub open spec fn motion(self, dx: i16, dy: i16) -> (i16, i16) {
        let x = scaled(dx, self.mouse_scale_pct);
        let y = scaled(dy, self.mouse_scale_pct);
        (
            if self.mouse_flags & mouse_flag::INVERT_X != 0 {
                flipped(x)
            } else {
                x
            },
            if self.mouse_flags & mouse_flag::INVERT_Y != 0 {
                flipped(y)
            } else {
                y
            },
        )
    }

    /// Pass everything through unchanged.
    pub fn identity() -> (r: Self)
        ensures
            r == Self::identity_profile(),
    {
        let mod_map: [u8; 8] = [
            modifier::LCTRL,
            modifier::LSHIFT,
            modifier::LALT,
            modifier::LGUI,
            modifier::RCTRL,
            modifier::RSHIFT,
            modifier::RALT,
            modifier::RGUI,
        ];
        assert(mod_map =~= [1u8, 2, 4, 8, 16, 32, 64, 128]);
        InputProfile { mouse_scale_pct: 100, mouse_flags: 0, mod_map }
    }

    /// The profile that swaps Command and Control and leaves the rest alone.
    pub open spec fn swapped_profile() -> InputProfile {
        InputProfile {
            mouse_scale_pct: 100,
            mouse_flags: 0,
            mod_map: [
                modifier::LGUI,
                modifier::LSHIFT,
                modifier::LALT,
                modifier::LCTRL,
                modifier::RGUI,
                modifier::RSHIFT,
                modifier::RALT,
                modifier::RCTRL,
            ],
        }
    }

    /// Swap Command and Control, for driving a PC-style target from a Mac.
    pub fn swap_gui_ctrl() -> (r: Self)
        ensures
            r == Self::swapped_profile(),
    {
        let mut p = Self::identity();
        // Host LGui becomes target LCtrl, host LCtrl becomes target LGui.
        p.mod_map[3] = modifier::LCTRL;
        p.mod_map[0] = modifier::LGUI;
        p.mod_map[7] = modifier::RCTRL;
        p.mod_map[4] = modifier::RGUI;
        assert(p.mod_map =~= Self::swapped_profile().mod_map);
        p
    }

    pub fn is_identity(&self) -> (r: bool)
        ensures
            r == (*self == Self::identity_profile()),
    {
        let id = Self::identity();
        let mut i: usize = 0;
        while i < 8
            invariant
                i <= 8,
                id == Self::identity_profile(),
                forall|j: int| 0 <= j < i ==> self.mod_map@[j] == id.mod_map@[j],
            decreases 8 - i,
        {
            if self.mod_map[i] != id.mod_map[i] {
                assert(self.mod_map@[i as int] != id.mod_map@[i as int]);
                return false;
            }
            i = i + 1;
        }
        assert(self.mod_map =~= id.mod_map);
        self.mouse_scale_pct == 100 && self.mouse_flags == 0
    }

    /// Translate a host modifier byte into the target's.
    pub fn map_modifiers(&self, host: u8) -> (r: u8)
        ensures
            r == mapped_bits(self.mod_map@, host, 8),
    {
        let masks: [u8; 8] = [1, 2, 4, 8, 16, 32, 64, 128];
        let mut out: u8 = 0;
        let mut bit: usize = 0;
        while bit < 8
            invariant
                bit <= 8,
                forall|j: int| 0 <= j < 8 ==> masks@[j] == bit_mask(j),
                out == mapped_bits(self.mod_map@, host, bit as int),
            decreases 8 - bit,
        {
            if host & masks[bit] != 0 {
                out = out | self.mod_map[bit];
            }
            bit = bit + 1;
        }
        out
    }

    /// Apply pointer scaling and axis flips. A flip saturates: the largest
    /// negative delta turns into the largest positive one.
    pub fn map_motion(&self, dx: i16, dy: i16) -> (r: (i16, i16))
        ensures
            r == self.motion(dx, dy),
    {
        let mut x: i16 = scale(dx, self.mouse_scale_pct);
        let mut y: i16 = scale(dy, self.mouse_scale_pct);
        if self.mouse_flags & mouse_flag::INVERT_X != 0 {
            x = flip(x);
        }
        if self.mouse_flags & mouse_flag::INVERT_Y != 0 {
            y = flip(y);
        }
        (x, y)
    }

    /// Write the profile at the start of `out`.
    pub fn encode_into(&self, out: &mut [u8])
        requires
            old(out)@.len() >= Self::WIRE_LEN,
        ensures
            final(out)@ == splice(old(out)@, 0, self.wire()),
    {
        let s: [u8; 2] = u16_bytes(self.mouse_scale_pct);
        let b: [u8; 12] = [
            s[0],
            s[1],
            self.mouse_flags,
            0,
            self.mod_map[0],
            self.mod_map[1],
            self.mod_map[2],
            self.mod_map[3],
            self.mod_map[4],
            self.mod_map[5],
            self.mod_map[6],
            self.mod_map[7],
        ];
        assert(b@ =~= self.wire());
        put(out, 0, b.as_slice());
    }

    /// Anything after the first twelve bytes is ignored.
    pub fn decode(b: &[u8]) -> (r: Option<Self>)
        ensures
            r == Self::from_wire(b@),
    {
        if b.len() < 12 {
            return None;
        }
        let mod_map: [u8; 8] = [b[4], b[5], b[6], b[7], b[8], b[9], b[10], b[11]];
        assert(mod_map =~= eight_at(b@, 4));
        let pct: u16 = read_u16(b, 0);
        Some(
            InputProfile {
                mouse_scale_pct: if pct == 0 {
                    100
                } else {
                    pct
                },
                mouse_flags: b[2],
                mod_map,
            },
        )
    }

    /// Decoding an encoded profile gives it back, whatever follows it; a zero
    /// scale comes back as unchanged speed.
    pub proof fn law_roundtrip(self, rest: Seq<u8>)
        ensures
            self.wire().len() == Self::WIRE_LEN,
            Self::from_wire(self.wire() + rest) == Some(
                InputProfile {
                    mouse_scale_pct: if self.mouse_scale_pct == 0 {
                        100
                    } else {
                        self.mouse_scale_pct
                    },
                    ..self
                },
            ),
    {
        let b = self.wire() + rest;
        assert(b.subrange(0, 2) =~= le16(self.mouse_scale_pct as int));
        lemma_u16_roundtrip(self.mouse_scale_pct, b, 0);
        assert(eight_at(b, 4) =~= self.mod_map);
    }

    /// The identity profile changes no modifier and no motion.
    pub proof fn law_identity_changes_nothing(host: u8, dx: i16, dy: i16)
        ensures
            mapped_bits(Self::identity_profile().mod_map@, host, 8) == host,
            Self::identity_profile().motion(dx, dy) == (dx, dy),
    {
        let map = Self::identity_profile().mod_map@;
        lemma_mapped_bits(map, host);
        assert(held(host, 1, 1) | held(host, 2, 2) | held(host, 4, 4) | held(host, 8, 8) | held(
            host,
            16,
            16,
        ) | held(host, 32, 32) | held(host, 64, 64) | held(host, 128, 128) == host) by {
            lemma_identity_bits(host);
        }
        assert(0u8 & 1 == 0 && 0u8 & 2 == 0) by (bit_vector);
        assert(scaled(dx, 100) == dx);
        assert(scaled(dy, 100) == dy);
    }

    /// Swapping Command and Control is two-way, side by side and bit by bit:
    /// swapping what was swapped gives the host's modifiers back.
    pub proof fn law_swap_is_two_way(host: u8)
        ensures
            ({
                let map = Self::swapped_profile().mod_map@;
                let there = mapped_bits(map, host, 8);
                &&& mapped_bits(map, there, 8) == host
                &&& (there & modifier::LCTRL != 0 <==> host & modifier::LGUI != 0)
                &&& (there & modifier::LGUI != 0 <==> host & modifier::LCTRL != 0)
                &&& (there & modifier::RCTRL != 0 <==> host & modifier::RGUI != 0)
                &&& (there & modifier::RGUI != 0 <==> host & modifier::RCTRL != 0)
                &&& there & 0x66 == host & 0x66
            }),
    {
        let map = Self::swapped_profile().mod_map@;
        let there = mapped_bits(map, host, 8);
        lemma_mapped_bits(map, host);
        lemma_mapped_bits(map, there);
        lemma_swapped_bits(host);
        lemma_swapped_bits(there);
        assert(swap_bits(swap_bits(host)) == host && (swap_bits(host) & 1 != 0 <==> host & 8 != 0)
            && (swap_bits(host) & 8 != 0 <==> host & 1 != 0) && (swap_bits(host) & 16 != 0 <==> host
            & 128 != 0) && (swap_bits(host) & 128 != 0 <==> host & 16 != 0) && swap_bits(host)
            & 0x66 == host & 0x66) by {
            lemma_swap_bits(host);
        }
    }

    /// Turning an axis always changes the sign of a motion that is not zero.
    pub proof fn law_inversion_changes_sign(v: i16)
        ensures
            v < 0 ==> flipped(v) > 0,
            v > 0 ==> flipped(v) < 0,
            v == 0 ==> flipped(v) == 0,
    {
    }
}

spec fn held(host: u8, bit: u8, mask: u8) -> u8 {
    if host & bit != 0 {
        mask
    } else {
        0
    }
}

spec fn swap_bits(h: u8) -> u8 {
    (h & 0x66) | ((h & 0x11) << 3) | ((h & 0x88) >> 3)
}

proof fn lemma_swap_bits(h: u8)
    ensures
        swap_bits(swap_bits(h)) == h,
        swap_bits(h) & 1 != 0 <==> h & 8 != 0,
        swap_bits(h) & 8 != 0 <==> h & 1 != 0,
        swap_bits(h) & 16 != 0 <==> h & 128 != 0,
        swap_bits(h) & 128 != 0 <==> h & 16 != 0,
        swap_bits(h) & 0x66 == h & 0x66,
{
    assert({
        let s = (h & 0x66) | ((h & 0x11) << 3) | ((h & 0x88) >> 3);
        &&& (s & 0x66) | ((s & 0x11) << 3) | ((s & 0x88) >> 3) == h
        &&& (s & 1 != 0 <==> h & 8 != 0)
        &&& (s & 8 != 0 <==> h & 1 != 0)
        &&& (s & 16 != 0 <==> h & 128 != 0)
        &&& (s & 128 != 0 <==> h & 16 != 0)
        &&& s & 0x66 == h & 0x66
    }) by (bit_vector);
}

proof fn lemma_identity_bits(h: u8)
    ensures
        held(h, 1, 1) | held(h, 2, 2) | held(h, 4, 4) | held(h, 8, 8) | held(h, 16, 16) | held(
            h,
            32,
            32,
        ) | held(h, 64, 64) | held(h, 128, 128) == h,
{
    assert((if h & 1 != 0 { 1u8 } else { 0 }) | (if h & 2 != 0 { 2u8 } else { 0 }) | (if h & 4
        != 0 { 4u8 } else { 0 }) | (if h & 8 != 0 { 8u8 } else { 0 }) | (if h & 16 != 0 { 16u8 }
        else { 0 }) | (if h & 32 != 0 { 32u8 } else { 0 }) | (if h & 64 != 0 { 64u8 } else { 0 })
        | (if h & 128 != 0 { 128u8 } else { 0 }) == h) by (bit_vector);
}

proof fn lemma_swapped_bits(h: u8)
    ensures
        held(h, 1, 8) | held(h, 2, 2) | held(h, 4, 4) | held(h, 8, 1) | held(h, 16, 128) | held(
            h,
            32,
            32,
        ) | held(h, 64, 64) | held(h, 128, 16) == swap_bits(h),
{
    assert((if h & 1 != 0 { 8u8 } else { 0 }) | (if h & 2 != 0 { 2u8 } else { 0 }) | (if h & 4
        != 0 { 4u8 } else { 0 }) | (if h & 8 != 0 { 1u8 } else { 0 }) | (if h & 16 != 0 { 128u8 }
        else { 0 }) | (if h & 32 != 0 { 32u8 } else { 0 }) | (if h & 64 != 0 { 64u8 } else { 0 })
        | (if h & 128 != 0 { 16u8 } else { 0 }) == (h & 0x66) | ((h & 0x11) << 3) | ((h & 0x88)
        >> 3)) by (bit_vector);
}

/// The union written out bit by bit.
proof fn lemma_mapped_bits(map: Seq<u8>, h: u8)
    requires
        map.len() == 8,
    ensures
        mapped_bits(map, h, 8) == held(h, 1, map[0]) | held(h, 2, map[1]) | held(h, 4, map[2])
            | held(h, 8, map[3]) | held(h, 16, map[4]) | held(h, 32, map[5]) | held(h, 64, map[6])
            | held(h, 128, map[7]),
{
    reveal_with_fuel(mapped_bits, 9);
    assert forall|a: u8| #![trigger a | 0] a | 0 == a by {
        assert(a | 0 == a) by (bit_vector);
    }
    assert forall|a: u8| #![trigger 0u8 | a] 0u8 | a == a by {
        assert(0u8 | a == a) by (bit_vector);
    }
}

/// Modifiers that are held together map to what each maps to, together.
pub proof fn law_modifiers_map_one_by_one(map: Seq<u8>, a: u8, b: u8, n: int)
    ensures
        mapped_bits(map, a | b, n) == mapped_bits(map, a, n) | mapped_bits(map, b, n),
    decreases n,
{
    if n > 0 {
        law_modifiers_map_one_by_one(map, a, b, n - 1);
        let mask = bit_mask(n - 1);
        assert(((a | b) & mask != 0) == (a & mask != 0 || b & mask != 0)) by (bit_vector);
        let p = mapped_bits(map, a, n - 1);
        let q = mapped_bits(map, b, n - 1);
        let m = map[n - 1];
        assert((p | q) | m == (p | m) | (q | m) && (p | q) | m == (p | m) | q && (p | q) | m == p
            | (q | m)) by (bit_vector);
    } else {
        assert(0u8 | 0u8 == 0u8) by (bit_vector);
    }
}

impl Default for InputProfile {
    fn default() -> (r: Self)
        ensures
            r == InputProfile::identity_profile(),
    {
        Self::identity()
    }
}

impl InputProfile {
    /// What each byte of a profile is for: the speed, the mouse flags, a byte
    /// that stays zero, and the eight masks in order.
    pub proof fn law_what_each_byte_is_for(self, i: int)
        requires
            0 <= i < 8,
        ensures
            self.wire().len() == 12,
            self.wire()[0] + 256 * self.wire()[1] == self.mouse_scale_pct,
            self.wire()[2] == self.mouse_flags,
            self.wire()[3] == 0,
            self.wire()[4 + i] == self.mod_map@[i],
    {
    }

    /// A profile is read off the same bytes. No speed at all is read as the
    /// ordinary one.
    pub proof fn law_what_is_read_of_each_byte(b: Seq<u8>, i: int)
        requires
            0 <= i < 8,
        ensures
            Self::from_wire(b) is None <==> b.len() < 12,
            Self::from_wire(b) matches Some(p) ==> {
                &&& b[0] + 256 * b[1] > 0 ==> p.mouse_scale_pct == b[0] + 256 * b[1]
                &&& b[0] + 256 * b[1] == 0 ==> p.mouse_scale_pct == 100
                &&& p.mouse_flags == b[2]
                &&& p.mod_map@[i] == b[4 + i]
            },
    {
    }

    /// A motion is scaled by the speed as a percentage, towards zero. It is held
    /// at the largest or smallest number where it would leave the range.
    pub proof fn law_motion_is_scaled_by_the_speed(self, dx: i16, dy: i16)
        requires
            self.mouse_flags & 1 == 0,
            self.mouse_flags & 2 == 0,
        ensures
            is_scaled(dx, self.mouse_scale_pct, self.motion(dx, dy).0),
            is_scaled(dy, self.mouse_scale_pct, self.motion(dx, dy).1),
    {
        lemma_is_scaled(dx, self.mouse_scale_pct);
        lemma_is_scaled(dy, self.mouse_scale_pct);
    }

    /// The lowest flag turns the horizontal motion around and the next one the
    /// vertical motion, each by itself. Only the smallest number has no
    /// opposite: it becomes the largest.
    pub proof fn law_flags_turn_their_axis(self, dx: i16, dy: i16)
        ensures
            ({
                let plain = InputProfile { mouse_flags: 0, ..self }.motion(dx, dy);
                let (x, y) = self.motion(dx, dy);
                &&& self.mouse_flags & 1 == 0 ==> x == plain.0
                &&& self.mouse_flags & 1 != 0 && plain.0 > -32768 ==> x == -plain.0
                &&& self.mouse_flags & 1 != 0 && plain.0 == -32768 ==> x == 32767
                &&& self.mouse_flags & 2 == 0 ==> y == plain.1
                &&& self.mouse_flags & 2 != 0 && plain.1 > -32768 ==> y == -plain.1
                &&& self.mouse_flags & 2 != 0 && plain.1 == -32768 ==> y == 32767
            }),
    {
        assert(0u8 & 1 == 0 && 0u8 & 2 == 0) by (bit_vector);
    }

    /// The profile that changes nothing has the ordinary speed, no flags, and
    /// maps every modifier to itself. The one for PC-style targets differs from
    /// it in that it exchanges Control and Command, on either side.
    pub proof fn law_the_two_ready_profiles(i: int)
        requires
            0 <= i < 8,
        ensures
            ({
                let id = Self::identity_profile();
                let pc = Self::swapped_profile();
                &&& id.mouse_scale_pct == 100 && pc.mouse_scale_pct == 100
                &&& id.mouse_flags == 0 && pc.mouse_flags == 0
                &&& id.mod_map@[0] == 1
                &&& i > 0 ==> id.mod_map@[i] == 2 * id.mod_map@[i - 1]
                &&& pc.mod_map@[i] == if i == 0 || i == 4 {
                    id.mod_map@[i + 3]
                } else if i == 3 || i == 7 {
                    id.mod_map@[i - 3]
                } else {
                    id.mod_map@[i]
                }
            }),
    {
    }
}

/// `r` is `v` times the percentage, without what lies behind the point, as far
/// as sixteen bits hold it.
pub open spec fn is_scaled(v: i16, pct: u16, r: i16) -> bool {
    let exact = v * pct;
    &&& 0 <= exact < 3276800 ==> 100 * r <= exact && exact < 100 * r + 100
    &&& -3276900 < exact <= 0 ==> 100 * r >= exact && exact > 100 * r - 100
    &&& exact >= 3276800 ==> r == 32767
    &&& exact <= -3276900 ==> r == -32768
}

proof fn lemma_is_scaled(v: i16, pct: u16)
    ensures
        is_scaled(v, pct, scaled(v, pct)),
{
    let exact = v * pct;
    assert(trunc_div(exact, 100) == if exact >= 0 {
        exact / 100
    } else {
        -((-exact) / 100)
    });
}

/// A modifier of the target is sent exactly where one that the host holds maps
/// to it: `mask` is held where a host bit is that has it in its mask.
pub proof fn law_a_modifier_is_sent_where_one_maps_to_it(map: Seq<u8>, host: u8, mask: u8)
    requires
        map.len() == 8,
    ensures
        mapped_bits(map, host, 8) & mask != 0 <==> {
            ||| host & 1 != 0 && map[0] & mask != 0
            ||| host & 2 != 0 && map[1] & mask != 0
            ||| host & 4 != 0 && map[2] & mask != 0
            ||| host & 8 != 0 && map[3] & mask != 0
            ||| host & 16 != 0 && map[4] & mask != 0
            ||| host & 32 != 0 && map[5] & mask != 0
            ||| host & 64 != 0 && map[6] & mask != 0
            ||| host & 128 != 0 && map[7] & mask != 0
        },
{
    reveal_with_fuel(mapped_bits, 9);
    assert(0u8 & mask == 0) by (bit_vector);
    assert forall|a: u8, b: u8| #[trigger] (a | b) & mask != 0 <==> a & mask != 0 || b & mask
        != 0 by {
        assert((a | b) & mask != 0 <==> a & mask != 0 || b & mask != 0) by (bit_vector);
    }
}

} // verus!
