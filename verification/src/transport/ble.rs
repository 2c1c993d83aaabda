//! The wireless link, as a BLE central.
//!
//! Experimental. The dongle has a control service beside its HID one; this
//! speaks the same framed protocol over it that the cable speaks.
//!
//! # Discovery is by name
//!
//! Not by service UUID. The advertisement is already full, so the control
//! service's UUID is not in it. And CoreBluetooth never discloses a peer's
//! address, so that is not available to match on either.

use std::collections::VecDeque;

use vstd::prelude::*;

use crate::proto::MAX_PAYLOAD;
use crate::text::{contains, has};
use crate::transport::frame::{
    encode, frame, left_of, lines_in, log_left, notes_of, Framer, Message, Note, Pending,
};
use crate::transport::log::views;
use crate::transport::serial::Recv;
use crate::transport::LinkError;

verus! {

/// 73637572-7279-4c49-4e4b-0000000000xx, "scurry" and "LINK" in ASCII: the
/// characteristic that takes messages. Must match what the firmware publishes.
pub const CONTROL: u128 = 0x73637572_7279_4c49_4e4b_000000000002;

/// The characteristic that the dongle's messages arrive on.
pub const EVENT: u128 = 0x73637572_7279_4c49_4e4b_000000000003;

/// What every handle on one wireless link shares.
#[derive(Debug)]
pub struct Air {
    inbox: VecDeque<Message>,
    framer: Framer,
    /// Cleared when the radio stops for any reason, so a dropped link surfaces
    /// as a read error.
    alive: bool,
}

/// What the shared side of a wireless link holds.
pub struct Radio {
    /// Messages that arrived and were not read yet.
    pub inbox: Seq<Message>,
    pub pending: Pending,
    pub alive: bool,
}

impl View for Air {
    type V = Radio;

    closed spec fn view(&self) -> Radio {
        Radio { inbox: self.inbox@, pending: self.framer@, alive: self.alive }
    }
}

impl Radio {
    /// Asked for a message, this is what the link answers and what it holds then.
    pub open spec fn hands_out(
        self,
        expired: bool,
        after: Radio,
        r: Result<Recv, LinkError>,
    ) -> bool {
        &&& after.pending == self.pending
        &&& after.alive == self.alive
        &&& match r {
            Ok(Recv::Message(m)) => {
                &&& self.inbox.len() > 0
                &&& m == self.inbox[0]
                &&& after.inbox == self.inbox.skip(1)
            },
            Ok(Recv::TimedOut) => self.inbox.len() == 0 && self.alive && expired && after.inbox
                == self.inbox,
            Ok(Recv::Wait) => self.inbox.len() == 0 && self.alive && !expired && after.inbox
                == self.inbox,
            Err(e) => e == LinkError::Dropped && self.inbox.len() == 0 && !self.alive && after.inbox
                == self.inbox,
        }
    }
}

/// What a list of messages says.
pub open spec fn note_views(v: Seq<Message>) -> Seq<Note> {
    Seq::new(v.len(), |i: int| v[i]@)
}

impl Air {
    /// A link that is up, with nothing read yet.
    pub fn connected() -> (r: Self)
        ensures
            r@ == (Radio {
                inbox: Seq::empty(),
                pending: Pending { buf: Seq::empty(), log: Seq::empty() },
                alive: true,
            }),
    {
        Air { inbox: VecDeque::new(), framer: Framer::with_capacity(1024), alive: true }
    }

    /// Whatever ended it, callers must find out by failing rather than by
    /// waiting forever.
    pub fn dropped(&mut self)
        ensures
            final(self)@ == (Radio { alive: false, ..old(self)@ }),
    {
        self.alive = false;
    }

    /// Take in a notification. One of another characteristic is ignored; every
    /// message that is whole now goes to the inbox, in order. Says whether any
    /// did, and so whether readers should wake.
    pub fn notified(&mut self, uuid: u128, data: &[u8], on_log: &mut Vec<String>) -> (woke: bool)
        ensures
            uuid != EVENT ==> !woke && final(self)@ == old(self)@ && final(on_log)@
                == old(on_log)@,
            uuid == EVENT ==> {
                let p = old(self)@.pending.pushed(data@);
                &&& note_views(final(self)@.inbox) == note_views(old(self)@.inbox) + notes_of(p.buf)
                &&& final(self)@.pending == p.drained()
                &&& final(self)@.alive == old(self)@.alive
                &&& woke == (notes_of(p.buf).len() > 0)
                &&& views(final(on_log)@) == views(old(on_log)@) + lines_in(p)
            },
    {
        if uuid != EVENT {
            return false;
        }
        self.framer.push(data);
        let ghost b = self.framer@.buf;
        let ghost held = note_views(self.inbox@);
        let ghost start = self.framer@;
        let ghost said = views(on_log@);
        assert(said + lines_in(start) =~= views(on_log@) + lines_in(self.framer@));
        let mut woke: bool = false;
        let mut more: bool = true;
        assert(held + notes_of(b) =~= note_views(self.inbox@) + notes_of(self.framer@.buf));
        while more
            invariant
                self.alive == old(self)@.alive,
                b == old(self)@.pending.buf + data@,
                held == note_views(old(self)@.inbox),
                held + notes_of(b) == if more {
                    note_views(self.inbox@) + notes_of(self.framer@.buf)
                } else {
                    note_views(self.inbox@)
                },
                left_of(b) == if more {
                    left_of(self.framer@.buf)
                } else {
                    self.framer@.buf
                },
                start == (Pending { buf: b, log: old(self)@.pending.log }),
                said == views(old(on_log)@),
                said + lines_in(start) == if more {
                    views(on_log@) + lines_in(self.framer@)
                } else {
                    views(on_log@)
                },
                log_left(start) == if more {
                    log_left(self.framer@)
                } else {
                    self.framer@.log
                },
                self.inbox@.len() >= held.len(),
                woke == (self.inbox@.len() > held.len()),
            decreases self.framer@.buf.len() + if more {
                1int
            } else {
                0int
            },
        {
            let ghost now = self.framer@.buf;
            let ghost before = note_views(self.inbox@);
            let ghost pending = self.framer@;
            let ghost spoken = views(on_log@);
            match self.framer.take(on_log) {
                Some(m) => {
                    let ghost note = m@;
                    self.inbox.push_back(m);
                    woke = true;
                    proof {
                        assert(note_views(self.inbox@) =~= before.push(note));
                        assert(spoken + lines_in(pending) =~= views(on_log@) + lines_in(
                            self.framer@,
                        ));
                        assert(before + (seq![note] + notes_of(self.framer@.buf)) =~= note_views(
                            self.inbox@,
                        ) + notes_of(self.framer@.buf));
                    }
                },
                None => {
                    more = false;
                    assert(before + notes_of(now) =~= before);
                    assert(spoken + lines_in(pending) =~= views(on_log@));
                },
            }
        }
        woke
    }

    /// The next message, if one arrived. What arrived before the link dropped
    /// is still handed out.
    pub fn recv(&mut self, expired: bool) -> (r: Result<Recv, LinkError>)
        ensures
            old(self)@.hands_out(expired, final(self)@, r),
    {
        match self.inbox.pop_front() {
            Some(m) => {
                assert(self.inbox@ =~= old(self)@.inbox.skip(1));
                Ok(Recv::Message(m))
            },
            None => {
                assert(self.inbox@ =~= old(self)@.inbox);
                if !self.alive {
                    Err(LinkError::Dropped)
                } else if expired {
                    Ok(Recv::TimedOut)
                } else {
                    Ok(Recv::Wait)
                }
            },
        }
    }
}

/// One handle on a wireless link.
#[derive(Debug)]
pub struct Wireless {
    name: String,
    seq: u16,
}

/// What a handle holds.
pub struct Handle {
    pub name: Seq<char>,
    /// The sequence number of the next message.
    pub seq: u16,
}

impl View for Wireless {
    type V = Handle;

    closed spec fn view(&self) -> Handle {
        Handle { name: self.name@, seq: self.seq }
    }
}

impl Wireless {
    /// A handle on a link to the dongle of this name.
    pub fn connect(name: &str) -> (r: Self)
        ensures
            r@ == (Handle { name: name@, seq: 0 }),
    {
        Wireless { name: String::from_str(name), seq: 0 }
    }

    /// A second handle on the same link, for the thread that only reads. It
    /// shares the inbox and counts its own messages.
    pub fn try_clone(&self) -> (r: Self)
        ensures
            r@ == (Handle { name: self@.name, seq: 0 }),
    {
        Wireless { name: self.name.clone(), seq: 0 }
    }

    pub fn name(&self) -> (r: String)
        ensures
            r@ == self@.name,
    {
        self.name.clone()
    }

    /// The frame to queue for a message.
    pub fn send(&mut self, air: &Air, kind: u8, payload: &[u8]) -> (r: Result<Vec<u8>, LinkError>)
        ensures
            match r {
                Ok(out) => {
                    &&& payload@.len() <= MAX_PAYLOAD
                    &&& air@.alive
                    &&& out@ == frame(kind, old(self)@.seq, payload@)
                    &&& final(self)@ == (Handle {
                        seq: ((old(self)@.seq + 1) % 65536) as u16,
                        ..old(self)@
                    })
                },
                Err(e) => {
                    &&& final(self)@ == old(self)@
                    &&& if payload@.len() > MAX_PAYLOAD {
                        e == LinkError::PayloadTooLong(payload@.len() as usize)
                    } else {
                        !air@.alive && e == LinkError::Down
                    }
                },
            },
    {
        if payload.len() > MAX_PAYLOAD {
            return Err(LinkError::PayloadTooLong(payload.len()));
        }
        if !air.alive {
            return Err(LinkError::Down);
        }
        let out: Vec<u8> = encode(kind, self.seq, payload);
        self.seq = self.seq.wrapping_add(1);
        Ok(out)
    }
}

/// Whether an advertised name is a dongle's. macOS decorates a bonded HID
/// device's name, so it may stand anywhere in it: "HID [Scurry 629X]".
pub fn is_scurry(name: &str) -> (r: bool)
    ensures
        r == has(name@, "Scurry"@),
{
    contains(name, "Scurry")
}

/// The first place from `i` on where `want` stands; the length where nowhere.
pub open spec fn uuid_from(uuids: Seq<u128>, want: u128, i: int) -> int
    decreases uuids.len() - i,
{
    if i >= uuids.len() || uuids[i] == want {
        i
    } else {
        uuid_from(uuids, want, i + 1)
    }
}

fn find_uuid(uuids: &[u128], want: u128) -> (r: usize)
    ensures
        r == uuid_from(uuids@, want, 0),
        r <= uuids@.len(),
{
    let n: usize = uuids.len();
    let mut i: usize = 0;
    while i < n && uuids[i] != want
        invariant
            i <= n == uuids@.len(),
            uuid_from(uuids@, want, 0) == uuid_from(uuids@, want, i as int),
        decreases n - i,
    {
        i = i + 1;
    }
    i
}

/// Where the two characteristics of the control service stand in a dongle's
/// list; none where either is missing.
pub fn find_characteristics(uuids: &[u128]) -> (r: Option<(usize, usize)>)
    ensures
        ({
            let control = uuid_from(uuids@, CONTROL, 0);
            let event = uuid_from(uuids@, EVENT, 0);
            if control < uuids@.len() && event < uuids@.len() {
                r == Some((control as usize, event as usize))
            } else {
                r is None
            }
        }),
{
    let control: usize = find_uuid(uuids, CONTROL);
    let event: usize = find_uuid(uuids, EVENT);
    if control < uuids.len() && event < uuids.len() {
        Some((control, event))
    } else {
        None
    }
}

/// The first device from `i` on that advertises a dongle's name; their number
/// where none does.
pub open spec fn scurry_from(names: Seq<Option<String>>, i: int) -> int
    decreases names.len() - i,
{
    if i >= names.len() || (names[i] matches Some(n) && has(n@, "Scurry"@)) {
        i
    } else {
        scurry_from(names, i + 1)
    }
}

/// Pick the first dongle among the devices in range, by their names. A device
/// without a name is passed over.
pub fn first_scurry(names: &Vec<Option<String>>) -> (r: Option<usize>)
    ensures
        r == if scurry_from(names@, 0) < names@.len() {
            Some(scurry_from(names@, 0) as usize)
        } else {
            None
        },
{
    let n: usize = names.len();
    let mut i: usize = 0;
    while i < n
        invariant
            i <= n == names@.len(),
            scurry_from(names@, 0) == scurry_from(names@, i as int),
        decreases n - i,
    {
        match &names[i] {
            Some(name) => {
                if is_scurry(name.as_str()) {
                    return Some(i);
                }
            },
            None => {},
        }
        i = i + 1;
    }
    None
}

/// How long to wait between two looks at the devices in range, in milliseconds.
pub const SCAN_PAUSE_MS: u64 = 400;

/// What a scan does next.
#[derive(Debug, Clone, Copy, PartialEq, Eq, Structural)]
pub enum ScanStep {
    /// A dongle turned up.
    Found,
    /// None did in time.
    GiveUp,
    /// Look again after a pause.
    LookAgain,
}

/// Decide what a scan does next. One that turns up in the last look still
/// counts.
pub fn scan_step(found: bool, expired: bool) -> (r: ScanStep)
    ensures
        r == if found {
            ScanStep::Found
        } else if expired {
            ScanStep::GiveUp
        } else {
            ScanStep::LookAgain
        },
{
    if found {
        ScanStep::Found
    } else if expired {
        ScanStep::GiveUp
    } else {
        ScanStep::LookAgain
    }
}

/// What is looked for is found at the first place where it stands, and is said
/// to be missing only where it stands nowhere.
pub proof fn law_the_first_place_is_found(uuids: Seq<u128>, want: u128, i: int)
    requires
        0 <= i <= uuids.len(),
    ensures
        i <= uuid_from(uuids, want, i) <= uuids.len(),
        uuid_from(uuids, want, i) < uuids.len() ==> uuids[uuid_from(uuids, want, i)] == want,
        forall|k: int| i <= k < uuid_from(uuids, want, i) ==> uuids[k] != want,
    decreases uuids.len() - i,
{
    if i < uuids.len() && uuids[i] != want {
        law_the_first_place_is_found(uuids, want, i + 1);
    }
}

/// The first device whose name holds "Scurry" is picked, and none only where no
/// name does.
pub proof fn law_the_first_dongle_is_picked(names: Seq<Option<String>>, i: int)
    requires
        0 <= i <= names.len(),
    ensures
        i <= scurry_from(names, i) <= names.len(),
        scurry_from(names, i) < names.len() ==> names[scurry_from(names, i)] is Some && has(
            names[scurry_from(names, i)].unwrap()@,
            "Scurry"@,
        ),
        forall|k: int|
            i <= k < scurry_from(names, i) ==> (#[trigger] names[k] matches Some(n) ==> !(has(
                n@,
                "Scurry"@,
            ))),
    decreases names.len() - i,
{
    if i < names.len() && !(names[i] matches Some(n) && has(n@, "Scurry"@)) {
        law_the_first_dongle_is_picked(names, i + 1);
    }
}

/// The two characteristics of the control service differ in their last digit.
pub proof fn law_the_characteristics_differ()
    ensures
        EVENT == CONTROL + 1,
        CONTROL == 0x73637572_7279_4c49_4e4b_000000000002,
{
}

/// Messages are handed out in the order in which they arrived, each once, also
/// those that arrived before the link dropped. Only then is a dropped link told
/// of, and only where nothing has arrived on a live one is there anything to
/// wait for.
pub proof fn law_messages_are_handed_out_in_order(
    radio: Radio,
    expired: bool,
    after: Radio,
    r: Result<Recv, LinkError>,
)
    requires
        radio.hands_out(expired, after, r),
    ensures
        radio.inbox.len() > 0 ==> (r matches Ok(Recv::Message(m)) && seq![m] + after.inbox
            == radio.inbox),
        radio.inbox.len() == 0 ==> after.inbox.len() == 0 && !(r matches Ok(Recv::Message(_))),
        r is Err <==> radio.inbox.len() == 0 && !radio.alive,
        r matches Ok(Recv::TimedOut) ==> expired && radio.alive,
        r matches Ok(Recv::Wait) ==> !expired && radio.alive,
{
    if radio.inbox.len() > 0 {
        assert(seq![radio.inbox[0]] + radio.inbox.skip(1) =~= radio.inbox);
    }
}

} // verus!
