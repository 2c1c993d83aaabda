//! The wireless control link.

use vstd::prelude::*;

use crate::bytes::{put, same_six, six_at, splice};
use crate::proto::screen::no_address;
use crate::proto::MAX_CONTROLLERS;

verus! {

/// The wireless control link's state, as it appears inside a WIRELESS payload.
#[derive(Debug, Clone, Copy, PartialEq, Eq)]
pub struct WirelessState {
    /// A wireless controller currently has the wheel.
    pub wireless_driving: bool,
    /// The cable has it. Both false means nobody has sent input yet.
    ///
    /// Two flags rather than one, because "no wireless controller is driving"
    /// and "the cable is driving" are different states and the difference is
    /// what a person wants to see.
    pub cable_driving: bool,
    /// Which one is driving; all zero when none is.
    pub active: [u8; 6],
    /// Seconds left in the pairing window, 0 when closed.
    pub window_secs: u8,
    /// How many entries of `controllers` are meaningful.
    pub count: u8,
    /// Every authorised controller, driving or not.
    pub controllers: [[u8; 6]; 4],
}

impl Default for WirelessState {
    /// Nobody driving, nobody authorised, no window.
    fn default() -> (r: Self)
        ensures
            r == (WirelessState {
                wireless_driving: false,
                cable_driving: false,
                active: no_address(),
                window_secs: 0,
                count: 0,
                controllers: [no_address(), no_address(), no_address(), no_address()],
            }),
    {
        let none: [u8; 6] = [0; 6];
        assert(none =~= no_address());
        WirelessState {
            wireless_driving: false,
            cable_driving: false,
            active: none,
            window_secs: 0,
            count: 0,
            controllers: [none, none, none, none],
        }
    }
}

/// The first `n` addresses, one after the other.
pub open spec fn flat_addresses(list: Seq<[u8; 6]>, n: int) -> Seq<u8>
    decreases n,
{
    if n <= 0 {
        Seq::empty()
    } else {
        flat_addresses(list, n - 1) + list[n - 1]@
    }
}

proof fn lemma_flat_len(list: Seq<[u8; 6]>, n: int)
    requires
        0 <= n,
    ensures
        flat_addresses(list, n).len() == 6 * n,
    decreases n,
{
    if n > 0 {
        lemma_flat_len(list, n - 1);
    }
}

proof fn lemma_flat_entry(list: Seq<[u8; 6]>, n: int, k: int)
    requires
        0 <= k < n,
    ensures
        flat_addresses(list, n).len() == 6 * n,
        flat_addresses(list, n).subrange(6 * k, 6 * k + 6) == list[k]@,
    decreases n,
{
    lemma_flat_len(list, n);
    lemma_flat_len(list, n - 1);
    if k == n - 1 {
        assert(flat_addresses(list, n).subrange(6 * k, 6 * k + 6) =~= list[k]@);
    } else {
        lemma_flat_entry(list, n - 1, k);
        assert(flat_addresses(list, n).subrange(6 * k, 6 * k + 6) =~= flat_addresses(
            list,
            n - 1,
        ).subrange(6 * k, 6 * k + 6));
    }
}

impl WirelessState {
    /// Bytes before the list of authorised controllers.
    pub const HEADER_LEN: usize = 9;

    /// How many controllers are listed: never more than the list holds.
    pub open spec fn listed(self) -> int {
        if self.count < MAX_CONTROLLERS {
            self.count as int
        } else {
            MAX_CONTROLLERS as int
        }
    }

    /// The bytes of this state on the wire.
    pub open spec fn wire(self) -> Seq<u8> {
        let flags: u8 = if self.wireless_driving && self.cable_driving {
            3
        } else if self.cable_driving {
            2
        } else if self.wireless_driving {
            1
        } else {
            0
        };
        seq![flags] + self.active@ + seq![self.window_secs, self.listed() as u8] + flat_addresses(
            self.controllers@,
            self.listed(),
        )
    }

    /// How many controllers `b` really lists: a count that promises more than
    /// fits or than arrived is cut.
    pub open spec fn arrived(b: Seq<u8>) -> int {
        let claimed = if b[8] < MAX_CONTROLLERS {
            b[8] as int
        } else {
            MAX_CONTROLLERS as int
        };
        if claimed < (b.len() - 9) / 6 {
            claimed
        } else {
            (b.len() - 9) / 6
        }
    }

    /// The `i`th controller that `b` lists; all zero past the last.
    pub open spec fn entry(b: Seq<u8>, i: int) -> [u8; 6] {
        if i < Self::arrived(b) {
            six_at(b, 9 + 6 * i)
        } else {
            no_address()
        }
    }

    /// The state that `b` holds.
    pub open spec fn from_wire(b: Seq<u8>) -> Option<WirelessState> {
        if b.len() < 9 {
            None
        } else {
            Some(
                WirelessState {
                    wireless_driving: b[0] & 0x01 != 0,
                    cable_driving: b[0] & 0x02 != 0,
                    active: six_at(b, 1),
                    window_secs: b[7],
                    count: Self::arrived(b) as u8,
                    controllers: [
                        Self::entry(b, 0),
                        Self::entry(b, 1),
                        Self::entry(b, 2),
                        Self::entry(b, 3),
                    ],
                },
            )
        }
    }

    pub fn count(&self) -> (r: usize)
        ensures
            r == self.listed(),
    {
        if (self.count as usize) < MAX_CONTROLLERS {
            self.count as usize
        } else {
            MAX_CONTROLLERS
        }
    }

    /// Every authorised controller, without the padding.
    pub fn controllers(&self) -> (r: &[[u8; 6]])
        ensures
            r@ == self.controllers@.take(self.listed()),
    {
        let r: &[[u8; 6]] = vstd::slice::slice_subrange(
            self.controllers.as_slice(),
            0,
            self.count(),
        );
        assert(r@ =~= self.controllers@.take(self.listed()));
        r
    }

    /// True when this address is the one currently driving.
    pub fn is_active(&self, bda: &[u8; 6]) -> (r: bool)
        ensures
            r == (self.active != no_address() && self.active == *bda),
    {
        let none: [u8; 6] = [0; 6];
        assert(none =~= no_address());
        !same_six(&self.active, &none) && same_six(&self.active, bda)
    }

    /// Returns how many bytes were written, or None if `out` is too small, and
    /// then leaves it alone.
    pub fn encode_into(&self, out: &mut [u8]) -> (r: Option<usize>)
        ensures
            self.wire().len() == 9 + 6 * self.listed(),
            old(out)@.len() < self.wire().len() ==> r is None && final(out)@ == old(out)@,
            old(out)@.len() >= self.wire().len() ==> r == Some(self.wire().len() as usize)
                && final(out)@ == splice(old(out)@, 0, self.wire()),
    {
        let n: usize = self.count();
        let need: usize = Self::HEADER_LEN + n * 6;
        proof {
            lemma_flat_len(self.controllers@, n as int);
        }
        if out.len() < need {
            return None;
        }
        let ghost before = out@;
        let flags: u8 = if self.wireless_driving && self.cable_driving {
            3
        } else if self.cable_driving {
            2
        } else if self.wireless_driving {
            1
        } else {
            0
        };
        let head: [u8; 9] = [
            flags,
            self.active[0],
            self.active[1],
            self.active[2],
            self.active[3],
            self.active[4],
            self.active[5],
            self.window_secs,
            n as u8,
        ];
        put(out, 0, head.as_slice());
        let mut i: usize = 0;
        assert(out@ =~= splice(before, 0, head@ + flat_addresses(self.controllers@, 0)));
        while i < n
            invariant
                i <= n <= 4,
                n == self.listed(),
                head@.len() == 9,
                out@.len() == before.len(),
                before.len() >= 9 + 6 * n,
                flat_addresses(self.controllers@, i as int).len() == 6 * i,
                out@ =~= splice(before, 0, head@ + flat_addresses(self.controllers@, i as int)),
            decreases n - i,
        {
            proof {
                lemma_flat_len(self.controllers@, i as int + 1);
            }
            put(out, 9 + i * 6, self.controllers[i].as_slice());
            i = i + 1;
        }
        assert(head@ + flat_addresses(self.controllers@, n as int) =~= self.wire());
        Some(need)
    }

    pub fn decode(b: &[u8]) -> (r: Option<Self>)
        ensures
            r == Self::from_wire(b@),
    {
        if b.len() < Self::HEADER_LEN {
            return None;
        }
        let active: [u8; 6] = [b[1], b[2], b[3], b[4], b[5], b[6]];
        assert(active =~= six_at(b@, 1));
        // Clamped rather than trusted: a corrupt count must not make this read
        // past what actually arrived.
        let claimed: usize = if (b[8] as usize) < MAX_CONTROLLERS {
            b[8] as usize
        } else {
            MAX_CONTROLLERS
        };
        let room: usize = (b.len() - Self::HEADER_LEN) / 6;
        let count: usize = if claimed < room {
            claimed
        } else {
            room
        };
        let none: [u8; 6] = [0; 6];
        assert(none =~= no_address());
        let mut controllers: [[u8; 6]; 4] = [none, none, none, none];
        let mut i: usize = 0;
        while i < count
            invariant
                i <= count <= 4,
                count == Self::arrived(b@),
                b@.len() >= 9 + 6 * count,
                forall|j: int| 0 <= j < i ==> controllers@[j] == Self::entry(b@, j),
                forall|j: int| i <= j < 4 ==> controllers@[j] == no_address(),
            decreases count - i,
        {
            let off: usize = 9 + i * 6;
            let c: [u8; 6] = [b[off], b[off + 1], b[off + 2], b[off + 3], b[off + 4], b[off + 5]];
            assert(c =~= six_at(b@, 9 + 6 * i));
            controllers[i] = c;
            i = i + 1;
        }
        assert(controllers =~= Self::from_wire(b@).unwrap().controllers);
        Some(
            WirelessState {
                wireless_driving: b[0] & 0x01 != 0,
                cable_driving: b[0] & 0x02 != 0,
                active,
                window_secs: b[7],
                count: count as u8,
                controllers,
            },
        )
    }

    /// Decoding an encoded state gives back who drives, the window and every
    /// listed controller; whatever lay in the list past its count does not
    /// travel.
    pub proof fn law_roundtrip(self)
        ensures
            ({
                let got = Self::from_wire(self.wire());
                &&& got is Some
                &&& got.unwrap().wireless_driving == self.wireless_driving
                &&& got.unwrap().cable_driving == self.cable_driving
                &&& got.unwrap().active == self.active
                &&& got.unwrap().window_secs == self.window_secs
                &&& got.unwrap().count == self.listed()
                &&& got.unwrap().controllers@.take(self.listed()) == self.controllers@.take(
                    self.listed(),
                )
                &&& forall|i: int|
                    self.listed() <= i < MAX_CONTROLLERS ==> (#[trigger] got.unwrap().controllers@[i])
                        == no_address()
            }),
    {
        let b = self.wire();
        let n = self.listed();
        lemma_flat_len(self.controllers@, n);
        assert(0u8 & 1 == 0 && 0u8 & 2 == 0 && 1u8 & 1 != 0 && 1u8 & 2 == 0 && 2u8 & 1 == 0 && 2u8
            & 2 != 0 && 3u8 & 1 != 0 && 3u8 & 2 != 0) by (bit_vector);
        assert(six_at(b, 1) =~= self.active);
        assert(Self::arrived(b) == n);
        let got = Self::from_wire(b).unwrap();
        assert forall|k: int| 0 <= k < n implies got.controllers@[k] == self.controllers@[k] by {
            lemma_flat_entry(self.controllers@, n, k);
            let run = flat_addresses(self.controllers@, n).subrange(6 * k, 6 * k + 6);
            assert(b.subrange(9 + 6 * k, 15 + 6 * k) =~= run);
            assert forall|j: int| 0 <= j < 6 implies b[9 + 6 * k + j] == self.controllers@[k]@[j] by {
                assert(b[9 + 6 * k + j] == b.subrange(9 + 6 * k, 15 + 6 * k)[j]);
            }
            assert(six_at(b, 9 + 6 * k) =~= self.controllers@[k]);
        }
        assert(got.controllers@.take(n) =~= self.controllers@.take(n));
    }

    /// However a payload lies about its count, no more controllers are listed
    /// than fit in it.
    pub proof fn law_count_never_reads_past_payload(b: Seq<u8>)
        requires
            b.len() >= Self::HEADER_LEN,
        ensures
            9 + 6 * Self::from_wire(b).unwrap().count <= b.len(),
            Self::from_wire(b).unwrap().count <= MAX_CONTROLLERS,
    {
    }
}

impl WirelessState {
    /// What each byte of the state is for: two bits that say who drives, six
    /// bytes that name the driver, the seconds left, a count of at most four,
    /// and that many addresses.
    pub proof fn law_what_each_byte_is_for(self, k: int, j: int)
        requires
            0 <= k,
            0 <= j < 6,
        ensures
            ({
                let w = self.wire();
                let n = if self.count > 4 {
                    4
                } else {
                    self.count as int
                };
                &&& w.len() == 9 + 6 * n
                &&& w[0] < 4
                &&& w[0] % 2 == 1 <==> self.wireless_driving
                &&& w[0] / 2 == 1 <==> self.cable_driving
                &&& w[1 + j] == self.active@[j]
                &&& w[7] == self.window_secs
                &&& w[8] == n
                &&& k < n ==> w[9 + 6 * k + j] == self.controllers@[k]@[j]
            }),
    {
        let n = self.listed();
        lemma_flat_len(self.controllers@, n);
        if k < n {
            lemma_flat_entry(self.controllers@, n, k);
            let run = flat_addresses(self.controllers@, n).subrange(6 * k, 6 * k + 6);
            assert(run[j] == flat_addresses(self.controllers@, n)[6 * k + j]);
        }
    }

    /// The state is read off the same bytes. Of the controllers that the count
    /// promises, those are listed that arrived whole, and no more than four.
    pub proof fn law_what_is_read_of_each_byte(b: Seq<u8>, k: int, j: int)
        requires
            0 <= k < 4,
            0 <= j < 6,
        ensures
            Self::from_wire(b) is None <==> b.len() < 9,
            Self::from_wire(b) matches Some(s) ==> {
                &&& s.wireless_driving <==> b[0] % 2 == 1
                &&& s.cable_driving <==> b[0] / 2 % 2 == 1
                &&& s.active@[j] == b[1 + j]
                &&& s.window_secs == b[7]
                &&& k < s.count <==> k < b[8] && 15 + 6 * k <= b.len()
                &&& k < s.count ==> s.controllers@[k]@[j] == b[9 + 6 * k + j]
                &&& k >= s.count ==> s.controllers@[k]@[j] == 0
            },
    {
        if b.len() >= 9 {
            let f = b[0];
            assert((f & 1 != 0 <==> f % 2 == 1) && (f & 2 != 0 <==> f / 2 % 2 == 1))
                by (bit_vector);
        }
    }
}

} // verus!
