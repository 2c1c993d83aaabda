//! The cable. USB CDC to the dongle's built-in USB Serial/JTAG.
//!
//! Always available, always the fallback, and the only path that can authorise
//! a wireless controller.

use vstd::prelude::*;

use crate::proto::MAX_PAYLOAD;
use crate::text::{contains, has};
use crate::transport::frame::{
    complete_at, encode, end_at, frame, header_from, note_at, Framer, Message, Pending,
};
use crate::transport::log::views;
use crate::transport::LinkError;

verus! {

/// How long a silence counts as nothing to read, in milliseconds.
pub const READ_TIMEOUT_MS: u64 = 20;

/// The speed that the port is opened at.
pub const BAUD: u32 = 115_200;

/// The cable's side of the link: where it is plugged in, what was sent and
/// what has arrived.
#[derive(Debug)]
pub struct Serial {
    path: String,
    seq: u16,
    framer: Framer,
}

/// What the cable's side of the link holds.
pub struct Cable {
    pub path: Seq<char>,
    /// The sequence number of the next message.
    pub seq: u16,
    pub pending: Pending,
}

impl View for Serial {
    type V = Cable;

    closed spec fn view(&self) -> Cable {
        Cable { path: self.path@, seq: self.seq, pending: self.framer@ }
    }
}

/// The next step of reading.
#[derive(Debug)]
pub enum Recv {
    /// A message arrived.
    Message(Message),
    /// None arrived in time.
    TimedOut,
    /// None has arrived yet.
    Wait,
}

/// A port that may be a dongle. Espressif's USB Serial/JTAG appears as usbmodem
/// on macOS, ttyACM on Linux.
pub open spec fn is_candidate(name: Seq<char>) -> bool {
    has(name, "usbmodem"@) || has(name, "ttyACM"@)
}

/// A port that would hang. macOS exposes the same device twice, `/dev/cu.*` and
/// `/dev/tty.*`, and opening the tty side waits for carrier detect forever.
pub open spec fn is_tty_twin(name: Seq<char>) -> bool {
    has(name, "/tty."@)
}

/// The first port from `i` on that may be a dongle, does not hang, and is on
/// the callout side or not as asked; their number where there is none.
pub open spec fn port_from(names: Seq<Seq<char>>, callout: bool, i: int) -> int
    decreases names.len() - i,
{
    if i >= names.len() || (is_candidate(names[i]) && !is_tty_twin(names[i]) && has(
        names[i],
        "/cu."@,
    ) == callout) {
        i
    } else {
        port_from(names, callout, i + 1)
    }
}

/// The port to open: one on the callout side if there is any.
pub open spec fn chosen_port(names: Seq<Seq<char>>) -> Option<Seq<char>> {
    let cu = port_from(names, true, 0);
    let other = port_from(names, false, 0);
    if cu < names.len() {
        Some(names[cu])
    } else if other < names.len() {
        Some(names[other])
    } else {
        None
    }
}

fn find_port(names: &Vec<String>, callout: bool) -> (r: usize)
    ensures
        r == port_from(views(names@), callout, 0),
        r <= names@.len(),
{
    let n: usize = names.len();
    let mut i: usize = 0;
    while i < n
        invariant
            i <= n == names@.len(),
            port_from(views(names@), callout, 0) == port_from(views(names@), callout, i as int),
        decreases n - i,
    {
        let name: &str = names[i].as_str();
        assert(views(names@)[i as int] == name@);
        if (contains(name, "usbmodem") || contains(name, "ttyACM")) && !contains(name, "/tty.")
            && contains(name, "/cu.") == callout {
            return i;
        }
        i = i + 1;
    }
    i
}

impl Serial {
    /// The link over a port that was just opened.
    pub fn open(path: &str) -> (r: Self)
        ensures
            r@ == (Cable {
                path: path@,
                seq: 0,
                pending: Pending { buf: Seq::empty(), log: Seq::empty() },
            }),
    {
        Serial { path: String::from_str(path), seq: 0, framer: Framer::with_capacity(4096) }
    }

    /// Pick the dongle's port from all there are. Prefers the callout side and
    /// never falls back to its tty twin.
    pub fn autodetect(ports: &Vec<String>) -> (r: Result<String, LinkError>)
        ensures
            match r {
                Ok(p) => chosen_port(views(ports@)) == Some(p@),
                Err(e) => chosen_port(views(ports@)) is None && e == LinkError::NoDongle,
            },
    {
        let cu: usize = find_port(ports, true);
        if cu < ports.len() {
            return Ok(ports[cu].clone());
        }
        let other: usize = find_port(ports, false);
        if other < ports.len() {
            return Ok(ports[other].clone());
        }
        Err(LinkError::NoDongle)
    }

    pub fn path(&self) -> (r: &str)
        ensures
            r@ == self@.path,
    {
        self.path.as_str()
    }

    /// A second handle on the same port, counting its own messages and holding
    /// nothing yet.
    pub fn try_clone(&self) -> (r: Self)
        ensures
            r@ == (Cable {
                path: self@.path,
                seq: 0,
                pending: Pending { buf: Seq::empty(), log: Seq::empty() },
            }),
    {
        Serial { path: self.path.clone(), seq: 0, framer: Framer::with_capacity(4096) }
    }

    /// The bytes to write for a message, in one write: a split header and
    /// payload can interleave with the log text the dongle emits on the same
    /// pipe.
    pub fn send(&mut self, kind: u8, payload: &[u8]) -> (r: Result<Vec<u8>, LinkError>)
        ensures
            match r {
                Ok(out) => {
                    &&& payload@.len() <= MAX_PAYLOAD
                    &&& out@ == frame(kind, old(self)@.seq, payload@)
                    &&& final(self)@ == (Cable {
                        seq: ((old(self)@.seq + 1) % 65536) as u16,
                        ..old(self)@
                    })
                },
                Err(e) => {
                    &&& payload@.len() > MAX_PAYLOAD
                    &&& e == LinkError::PayloadTooLong(payload@.len() as usize)
                    &&& final(self)@ == old(self)@
                },
            },
    {
        if payload.len() > MAX_PAYLOAD {
            return Err(LinkError::PayloadTooLong(payload.len()));
        }
        let out: Vec<u8> = encode(kind, self.seq, payload);
        self.seq = self.seq.wrapping_add(1);
        Ok(out)
    }

    /// Look for a message in what has arrived.
    ///
    /// The dongle's log output shares this pipe in the same direction, so bytes
    /// that are not a valid header are not garbage, they are log text, and go
    /// to `on_log`.
    pub fn recv(&mut self, expired: bool, on_log: &mut Vec<String>) -> (r: Recv)
        ensures
            ({
                let before = old(self)@.pending;
                let b = before.buf;
                let s = header_from(b, 0);
                &&& final(self)@.path == old(self)@.path
                &&& final(self)@.seq == old(self)@.seq
                &&& views(final(on_log)@) == views(old(on_log)@) + before.lines(b.take(s))
                &&& final(self)@.pending.log == before.logged(b.take(s))
                &&& match r {
                    Recv::Message(m) => {
                        &&& complete_at(b, s)
                        &&& m@ == note_at(b, s)
                        &&& final(self)@.pending.buf == b.skip(end_at(b, s))
                    },
                    Recv::TimedOut => expired && !complete_at(b, s)
                        && final(self)@.pending.buf == b.skip(s),
                    Recv::Wait => !expired && !complete_at(b, s) && final(self)@.pending.buf
                        == b.skip(s),
                }
            }),
    {
        match self.framer.take(on_log) {
            Some(m) => Recv::Message(m),
            None => if expired {
                Recv::TimedOut
            } else {
                Recv::Wait
            },
        }
    }

    /// Take in bytes that were read from the port.
    pub fn received(&mut self, data: &[u8])
        ensures
            final(self)@ == (Cable {
                pending: Pending {
                    buf: old(self)@.pending.buf + data@,
                    log: old(self)@.pending.log,
                },
                ..old(self)@
            }),
    {
        self.framer.push(data);
    }
}

/// A port is chosen exactly when there is a candidate that does not hang, and
/// what is chosen is such a port.
pub proof fn law_the_chosen_port_is_usable(names: Seq<Seq<char>>)
    ensures
        chosen_port(names) is Some <==> exists|i: int|
            0 <= i < names.len() && is_candidate(#[trigger] names[i]) && !is_tty_twin(names[i]),
        chosen_port(names) matches Some(p) ==> names.contains(p) && is_candidate(p)
            && !is_tty_twin(p) && ((exists|i: int|
            0 <= i < names.len() && is_candidate(#[trigger] names[i]) && !is_tty_twin(names[i])
                && has(names[i], "/cu."@)) ==> has(p, "/cu."@)),
{
    lemma_port_from(names, true, 0);
    lemma_port_from(names, false, 0);
}

proof fn lemma_port_from(names: Seq<Seq<char>>, callout: bool, i: int)
    requires
        0 <= i <= names.len(),
    ensures
        i <= port_from(names, callout, i) <= names.len(),
        port_from(names, callout, i) < names.len() ==> {
            let p = names[port_from(names, callout, i)];
            is_candidate(p) && !is_tty_twin(p) && has(p, "/cu."@) == callout
        },
        forall|k: int|
            i <= k < port_from(names, callout, i) ==> !(is_candidate(#[trigger] names[k])
                && !is_tty_twin(names[k]) && has(names[k], "/cu."@) == callout),
    decreases names.len() - i,
{
    if i < names.len() && !(is_candidate(names[i]) && !is_tty_twin(names[i]) && has(
        names[i],
        "/cu."@,
    ) == callout) {
        lemma_port_from(names, callout, i + 1);
    }
}

/// A port may be a dongle where its name holds usbmodem or ttyACM, and is passed
/// over where it holds /tty. in spite of that. Of those that are left the first
/// whose name holds /cu. is chosen, and where none does the first of all.
pub proof fn law_which_port_is_chosen(names: Seq<Seq<char>>, i: int)
    requires
        0 <= i < names.len(),
        has(names[i], "usbmodem"@) || has(names[i], "ttyACM"@),
        !(has(names[i], "/tty."@)),
        forall|k: int|
            0 <= k < i ==> !((has(#[trigger] names[k], "usbmodem"@) || has(names[k], "ttyACM"@))
                && !(has(names[k], "/tty."@)) && has(names[k], "/cu."@) == has(names[i], "/cu."@)),
        has(names[i], "/cu."@) || forall|k: int|
            0 <= k < names.len() ==> !((has(#[trigger] names[k], "usbmodem"@) || has(
                names[k],
                "ttyACM"@,
            )) && !(has(names[k], "/tty."@)) && has(names[k], "/cu."@)),
    ensures
        chosen_port(names) == Some(names[i]),
{
    lemma_port_from(names, true, 0);
    lemma_port_from(names, false, 0);
    let callout = has(names[i], "/cu."@);
    let p = port_from(names, callout, 0);
    if p < i {
        assert(is_candidate(names[p]));
    }
    assert(is_candidate(names[i]) && !is_tty_twin(names[i]));
    assert(p == i);
    if !callout {
        let q = port_from(names, true, 0);
        if q < names.len() {
            assert(is_candidate(names[q]));
        }
    }
}

} // verus!
