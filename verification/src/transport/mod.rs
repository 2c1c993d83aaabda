//! The link to the dongle.
//!
//! Two of them. The cable is the one that always works; the wireless link is
//! experimental and exists so the dongle can sit between the machines instead
//! of hanging off this one.
//!
//! Both are the same protocol over the same framing, so everything above this
//! module holds a [`Dongle`] and never learns which kind it got.

use vstd::prelude::*;

pub mod ble;
pub mod coalesce;
pub mod frame;
pub mod log;
pub mod serial;
pub mod sink;
pub mod stream;

pub use crate::transport::frame::encode;
pub use crate::transport::frame::Framer;
pub use crate::transport::frame::Message;

use crate::proto::gate::{newer, GateState};
use crate::proto::MAX_PAYLOAD;
use crate::text::{decimal, push_decimal};
use crate::transport::ble::{Air, Handle, Radio, Wireless};
use crate::transport::frame::{complete_at, end_at, frame, header_from, note_at, Pending};
use crate::transport::log::views;
use crate::transport::serial::{chosen_port, Cable, Recv, Serial};

verus! {

/// Why a link could not do what was asked.
#[derive(Debug, Clone, Copy, PartialEq, Eq, Structural)]
pub enum LinkError {
    /// More bytes than the dongle's buffer takes.
    PayloadTooLong(usize),
    /// Nothing can be sent any more.
    Down,
    /// Nothing will arrive any more.
    Dropped,
    /// No port looks like a dongle.
    NoDongle,
}

impl LinkError {
    /// What the error says.
    pub open spec fn text(self) -> Seq<char> {
        match self {
            LinkError::PayloadTooLong(n) => "payload of "@ + decimal(n as int)
                + " bytes exceeds the dongle's buffer"@,
            LinkError::Down => "the wireless link is down"@,
            LinkError::Dropped => "the wireless link dropped"@,
            LinkError::NoDongle => "no dongle found (looked for usbmodem/ttyACM)"@,
        }
    }

    /// The error in words.
    pub fn message(&self) -> (r: String)
        ensures
            r@ == self.text(),
    {
        match self {
            LinkError::PayloadTooLong(n) => {
                let mut s = String::from_str("payload of ");
                push_decimal(&mut s, *n as u64);
                s.append(" bytes exceeds the dongle's buffer");
                s
            },
            LinkError::Down => String::from_str("the wireless link is down"),
            LinkError::Dropped => String::from_str("the wireless link dropped"),
            LinkError::NoDongle => String::from_str(
                "no dongle found (looked for usbmodem/ttyACM)",
            ),
        }
    }
}

/// A link to the dongle, over whichever transport found one.
///
/// An enum because of how reattaching works: a live link is swapped *inside*
/// the lock its consumers already hold, so they pick up a new device without
/// being respawned.
#[derive(Debug)]
pub enum Dongle {
    Serial(Serial),
    Wireless(Wireless),
}

/// What a link holds.
pub enum LinkState {
    Cable(Cable),
    Air(Handle),
}

impl View for Dongle {
    type V = LinkState;

    open spec fn view(&self) -> LinkState {
        match *self {
            Dongle::Serial(s) => LinkState::Cable(s@),
            Dongle::Wireless(w) => LinkState::Air(w@),
        }
    }
}

impl LinkState {
    /// What is wrong with sending a payload of `len` bytes.
    pub open spec fn send_error(self, alive: bool, len: int) -> Option<LinkError> {
        if len > MAX_PAYLOAD {
            Some(LinkError::PayloadTooLong(len as usize))
        } else if self is Air && !alive {
            Some(LinkError::Down)
        } else {
            None
        }
    }

    /// The sequence number of the next message.
    pub open spec fn seq(self) -> u16 {
        match self {
            LinkState::Cable(c) => c.seq,
            LinkState::Air(h) => h.seq,
        }
    }

    /// The link once a message was sent.
    pub open spec fn counted(self) -> LinkState {
        let next = ((self.seq() + 1) % 65536) as u16;
        match self {
            LinkState::Cable(c) => LinkState::Cable(Cable { seq: next, ..c }),
            LinkState::Air(h) => LinkState::Air(Handle { seq: next, ..h }),
        }
    }
}

impl LinkState {
    /// Messages sent one after the other are never taken for stragglers: each
    /// carries a number that lies ahead of the one before it.
    pub proof fn law_messages_in_a_row_are_newer(self, gate: GateState)
        requires
            gate.last == Some(self.seq()),
        ensures
            newer(self.seq(), self.counted().seq()),
            gate.lets_through(self.counted().seq()),
    {
    }
}

impl Dongle {
    /// Pick the dongle's port from all there are.
    pub fn autodetect(ports: &Vec<String>) -> (r: Result<String, LinkError>)
        ensures
            match r {
                Ok(p) => chosen_port(views(ports@)) == Some(p@),
                Err(e) => chosen_port(views(ports@)) is None && e == LinkError::NoDongle,
            },
    {
        Serial::autodetect(ports)
    }

    /// The link over the port at this path, e.g. `/dev/cu.usbmodem2101`.
    pub fn open(path: &str) -> (r: Self)
        ensures
            r@ == LinkState::Cable(
                Cable {
                    path: path@,
                    seq: 0,
                    pending: Pending { buf: Seq::empty(), log: Seq::empty() },
                },
            ),
    {
        Dongle::Serial(Serial::open(path))
    }

    /// The link to a dongle that was found over the air.
    pub fn open_wireless(name: &str) -> (r: Self)
        ensures
            r@ == LinkState::Air(Handle { name: name@, seq: 0 }),
    {
        Dongle::Wireless(Wireless::connect(name))
    }

    /// A second handle on the same link, for the thread that only reads.
    pub fn try_clone(&self) -> (r: Self)
        ensures
            r@ == match self@ {
                LinkState::Cable(c) => LinkState::Cable(
                    Cable {
                        path: c.path,
                        seq: 0,
                        pending: Pending { buf: Seq::empty(), log: Seq::empty() },
                    },
                ),
                LinkState::Air(h) => LinkState::Air(Handle { name: h.name, seq: 0 }),
            },
    {
        match self {
            Dongle::Serial(s) => Dongle::Serial(s.try_clone()),
            Dongle::Wireless(w) => Dongle::Wireless(w.try_clone()),
        }
    }

    /// The bytes to put on the link for a message.
    pub fn send(&mut self, air: &Air, kind: u8, payload: &[u8]) -> (r: Result<Vec<u8>, LinkError>)
        ensures
            match r {
                Ok(out) => {
                    &&& old(self)@.send_error(air@.alive, payload@.len() as int) is None
                    &&& out@ == frame(kind, old(self)@.seq(), payload@)
                    &&& final(self)@ == old(self)@.counted()
                },
                Err(e) => old(self)@.send_error(air@.alive, payload@.len() as int) == Some(e)
                    && final(self)@ == old(self)@,
            },
    {
        match self {
            Dongle::Serial(s) => s.send(kind, payload),
            Dongle::Wireless(w) => w.send(air, kind, payload),
        }
    }

    /// Look for a message in what has arrived.
    pub fn recv(&mut self, air: &mut Air, expired: bool, on_log: &mut Vec<String>) -> (r: Result<
        Recv,
        LinkError,
    >)
        ensures
            match old(self)@ {
                LinkState::Cable(c) => {
                    let b = c.pending.buf;
                    let s = header_from(b, 0);
                    let rest = if complete_at(b, s) {
                        b.skip(end_at(b, s))
                    } else {
                        b.skip(s)
                    };
                    &&& final(air)@ == old(air)@
                    &&& views(final(on_log)@) == views(old(on_log)@) + c.pending.lines(b.take(s))
                    &&& final(self)@ == LinkState::Cable(
                        Cable {
                            pending: Pending { buf: rest, log: c.pending.logged(b.take(s)) },
                            ..c
                        },
                    )
                    &&& match r {
                        Ok(Recv::Message(m)) => complete_at(b, s) && m@ == note_at(b, s),
                        Ok(Recv::TimedOut) => expired && !complete_at(b, s),
                        Ok(Recv::Wait) => !expired && !complete_at(b, s),
                        Err(_) => false,
                    }
                },
                LinkState::Air(h) => {
                    let inbox = old(air)@.inbox;
                    &&& final(self)@ == old(self)@
                    &&& final(on_log)@ == old(on_log)@
                    &&& final(air)@ == (Radio {
                        inbox: if inbox.len() > 0 {
                            inbox.skip(1)
                        } else {
                            inbox
                        },
                        ..old(air)@
                    })
                    &&& match r {
                        Ok(Recv::Message(m)) => inbox.len() > 0 && m == inbox[0],
                        Ok(Recv::TimedOut) => inbox.len() == 0 && old(air)@.alive && expired,
                        Ok(Recv::Wait) => inbox.len() == 0 && old(air)@.alive && !expired,
                        Err(e) => inbox.len() == 0 && !old(air)@.alive && e == LinkError::Dropped,
                    }
                },
            },
    {
        match self {
            Dongle::Serial(s) => Ok(s.recv(expired, on_log)),
            Dongle::Wireless(_) => air.recv(expired),
        }
    }

    /// How to describe this link to a person.
    pub fn describe(&self) -> (r: String)
        ensures
            r@ == match self@ {
                LinkState::Cable(c) => c.path,
                LinkState::Air(h) => h.name + " (wireless)"@,
            },
    {
        match self {
            Dongle::Serial(s) => String::from_str(s.path()),
            Dongle::Wireless(w) => {
                let mut s = w.name();
                s.append(" (wireless)");
                s
            },
        }
    }

    pub fn is_wireless(&self) -> (r: bool)
        ensures
            r == (self@ is Air),
    {
        match self {
            Dongle::Serial(_) => false,
            Dongle::Wireless(_) => true,
        }
    }
}

impl LinkState {
    /// What keeps a message from being sent: more than 512 bytes, on any link;
    /// and a radio that is down. Nothing keeps one off the cable.
    pub proof fn law_what_cannot_be_sent(self, alive: bool, len: usize)
        ensures
            len > 512 ==> self.send_error(alive, len as int) == Some(LinkError::PayloadTooLong(len)),
            len <= 512 && self is Air && !alive ==> self.send_error(alive, len as int) == Some(
                LinkError::Down,
            ),
            len <= 512 && (alive || self is Cable) ==> self.send_error(alive, len as int) is None,
    {
    }

    /// Sending counts the number of the next message up by one, from the largest
    /// back to zero, and changes nothing else of the link.
    pub proof fn law_sending_counts_up(self)
        ensures
            self.seq() < 65535 ==> self.counted().seq() == self.seq() + 1,
            self.seq() == 65535 ==> self.counted().seq() == 0,
            self matches LinkState::Cable(c) ==> self.counted() matches LinkState::Cable(d)
                && d.path == c.path && d.pending == c.pending && c.seq == self.seq(),
            self matches LinkState::Air(h) ==> self.counted() matches LinkState::Air(k) && k.name
                == h.name && h.seq == self.seq(),
    {
    }
}

} // verus!
