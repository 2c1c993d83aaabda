//! The dongle's side of a BLE HID mouse: frames in from the controller,
//! reports out to a bonded host.

use vstd::prelude::*;

use crate::bytes::{i16_bytes, i8_byte, i8_to_byte, le16};
use crate::proto::edge::Edge;
use crate::proto::gate::{GateState, SeqGate};
use crate::proto::header::Header;
use crate::proto::kind;
use crate::proto::mouse::MouseState;
use crate::proto::HEADER_LEN;
use crate::transport::frame::frame;
use crate::transport::sink::{Frame, Payload};

verus! {

/// How many hosts can be connected at once.
pub const MAX_HOSTS: usize = 4;

/// Report id of the mouse.
pub const REPORT_ID: u8 = 1;

/// The seven bytes of a mouse report: five buttons, two 16-bit axes, a wheel
/// and a pan.
pub open spec fn report(buttons: u8, dx: i16, dy: i16, wheel: i8, pan: i8) -> Seq<u8> {
    seq![buttons & 0x1F] + le16(dx as int) + le16(dy as int) + seq![i8_byte(wheel), i8_byte(pan)]
}

/// The report for one pointer update.
pub fn encode_report(buttons: u8, dx: i16, dy: i16, wheel: i8, pan: i8) -> (r: [u8; 7])
    ensures
        r@ == report(buttons, dx, dy, wheel, pan),
{
    let x: [u8; 2] = i16_bytes(dx);
    let y: [u8; 2] = i16_bytes(dy);
    let r: [u8; 7] = [
        buttons & 0x1F,
        x[0],
        x[1],
        y[0],
        y[1],
        i8_to_byte(wheel),
        i8_to_byte(pan),
    ];
    assert(r@ =~= report(buttons, dx, dy, wheel, pan));
    r
}

/// What a message of this kind asks of the dongle.
pub open spec fn payload_of(kind: u8, body: Seq<u8>) -> Option<Payload> {
    if kind == kind::MOUSE {
        match MouseState::from_wire(body) {
            Some(m) => Some(Payload::Mouse(m)),
            None => None,
        }
    } else if kind == kind::PING {
        Some(Payload::Ping)
    } else if kind == kind::PONG {
        Some(Payload::Pong)
    } else {
        None
    }
}

/// The node that the frames of the controller's one link are for.
pub const NODE: u8 = 1;

/// The frame at the start of `b`, where it asks for something, and how many
/// bytes it takes. Nothing where more bytes are to come; where no header
/// stands, one byte is passed over.
pub open spec fn first_frame(b: Seq<u8>) -> Option<(Option<Frame>, int)> {
    if b.len() < HEADER_LEN {
        None
    } else {
        match Header::from_wire(b) {
            Err(_) => Some((None, 1)),
            Ok(h) => if b.len() < HEADER_LEN + h.len {
                None
            } else {
                let end = HEADER_LEN + h.len;
                let frame = match payload_of(h.kind, b.subrange(HEADER_LEN as int, end)) {
                    Some(payload) => Some(Frame { node: NODE, seq: h.seq, payload }),
                    None => None,
                };
                Some((frame, end))
            },
        }
    }
}

/// The frame at the start of `buf`, and how many bytes it took.
pub fn take_frame(buf: &[u8]) -> (r: Option<(Option<Frame>, usize)>)
    ensures
        match r {
            Some((frame, used)) => 0 < used <= buf@.len() && first_frame(buf@) == Some(
                (frame, used as int),
            ),
            None => first_frame(buf@) is None,
        },
{
    let n: usize = buf.len();
    if n < HEADER_LEN {
        return None;
    }
    let h: Header = match Header::decode(buf) {
        Ok(h) => h,
        Err(_) => return Some((None, 1)),
    };
    let end: usize = HEADER_LEN + h.len as usize;
    if n < end {
        return None;
    }
    let body: &[u8] = vstd::slice::slice_subrange(buf, HEADER_LEN, end);
    let payload: Option<Payload> = if h.kind == kind::MOUSE {
        match MouseState::decode(body) {
            Some(m) => Some(Payload::Mouse(m)),
            None => None,
        }
    } else if h.kind == kind::PING {
        Some(Payload::Ping)
    } else if h.kind == kind::PONG {
        Some(Payload::Pong)
    } else {
        None
    };
    let frame: Option<Frame> = match payload {
        Some(p) => Some(Frame::new(NODE, h.seq, p)),
        None => None,
    };
    Some((frame, end))
}

/// A mouse message that arrived whole is taken as the update that was sent, and
/// what follows it is left for the next call.
pub proof fn law_a_mouse_message_is_taken(m: MouseState, seq: u16, rest: Seq<u8>)
    ensures
        first_frame(frame(kind::MOUSE, seq, m.wire()) + rest) == Some(
            (
                Some(Frame { node: NODE, seq, payload: Payload::Mouse(m) }),
                frame(kind::MOUSE, seq, m.wire()).len() as int,
            ),
        ),
{
    m.law_roundtrip(Seq::empty());
    let f = frame(kind::MOUSE, seq, m.wire());
    let b = f + rest;
    let len = m.wire().len() as u16;
    Header::law_roundtrip(kind::MOUSE, seq, len, m.wire() + rest);
    assert(b =~= Header::wire(kind::MOUSE, seq, len) + (m.wire() + rest));
    assert(b.subrange(HEADER_LEN as int, HEADER_LEN + len) =~= m.wire() + Seq::<u8>::empty());
}

/// The report that a frame asks for. Leaving releases everything: a drag that
/// crosses a screen boundary must not strand a held button here.
pub open spec fn report_for(payload: Payload) -> Option<Seq<u8>> {
    match payload {
        Payload::Mouse(m) => Some(report(m.buttons, m.dx, m.dy, m.wheel, m.pan)),
        Payload::Leave => Some(report(0, 0, 0, 0, 0)),
        _ => None,
    }
}

/// The report that is sent for a frame; none for a straggler.
pub open spec fn reported(gate: GateState, frame: Frame) -> Option<Seq<u8>> {
    if gate.lets_through(frame.seq) {
        report_for(frame.payload)
    } else {
        None
    }
}

/// What to send to the host for a frame from the controller. A reordered
/// straggler is dropped.
pub fn on_frame(gate: &mut SeqGate, frame: &Frame) -> (r: Option<[u8; 7]>)
    ensures
        final(gate)@ == old(gate)@.after(frame.seq),
        match r {
            Some(bytes) => reported(old(gate)@, *frame) == Some(bytes@),
            None => reported(old(gate)@, *frame) is None,
        },
{
    if !gate.accept(frame.seq) {
        return None;
    }
    match frame.payload {
        Payload::Mouse(m) => Some(encode_report(m.buttons, m.dx, m.dy, m.wheel, m.pan)),
        Payload::Leave => Some(encode_report(0, 0, 0, 0, 0)),
        Payload::Enter { .. } => None,
        Payload::Ping => None,
        Payload::Pong => None,
    }
}

/// Whether to keep advertising once a host connected. Without it the dongle
/// would stop being discoverable at one connection and could never reach a
/// second target.
pub fn has_room(connected: usize) -> (r: bool)
    ensures
        r == (connected < MAX_HOSTS),
{
    connected < MAX_HOSTS
}

/// What each byte of a report is for: the five buttons, the motion along both
/// axes in two bytes each, the first of which weighs less, the wheel and the
/// pan.
pub proof fn law_what_each_byte_of_a_report_is_for(
    buttons: u8,
    dx: i16,
    dy: i16,
    wheel: i8,
    pan: i8,
)
    ensures
        ({
            let r = report(buttons, dx, dy, wheel, pan);
            &&& r.len() == 7
            &&& r[0] == buttons % 32
            &&& (r[1] + 256 * r[2] - dx) % 65536 == 0
            &&& (r[3] + 256 * r[4] - dy) % 65536 == 0
            &&& (r[5] - wheel) % 256 == 0
            &&& (r[6] - pan) % 256 == 0
        }),
{
    assert(buttons & 0x1F == buttons % 32) by (bit_vector);
}

/// A pointer update is reported as it is, leaving reports that nothing is held
/// and nothing moves, and nothing else is reported at all.
pub proof fn law_what_is_reported(m: MouseState, e: Edge, ratio: u16)
    ensures
        report_for(Payload::Mouse(m)) == Some(report(m.buttons, m.dx, m.dy, m.wheel, m.pan)),
        report_for(Payload::Leave) matches Some(r) && r.len() == 7 && forall|i: int|
            0 <= i < 7 ==> r[i] == 0,
        report_for(Payload::Enter { edge: e, ratio }) is None,
        report_for(Payload::Ping) is None,
        report_for(Payload::Pong) is None,
{
    assert(0u8 & 0x1F == 0) by (bit_vector);
}

/// What is taken off the start of the bytes that have arrived: nothing before a
/// whole header, or before the whole message that it announces; one byte where
/// no header stands; and otherwise the message. Of messages, pointer updates of
/// eight bytes or more, pings and pongs ask for something.
pub proof fn law_what_is_taken(b: Seq<u8>)
    ensures
        ({
            let header = b.len() >= 8 && b[0] == 0x53 && b[1] == 3 && b[6] + 256 * b[7] <= 512;
            let end = 8 + b[6] + 256 * b[7];
            match first_frame(b) {
                None => b.len() < 8 || (header && b.len() < end),
                Some((frame, used)) => {
                    &&& b.len() >= 8
                    &&& !header ==> used == 1 && frame is None
                    &&& header ==> used == end && b.len() >= end
                    &&& frame matches Some(f) ==> {
                        &&& f.node == 1
                        &&& f.seq == b[4] + 256 * b[5]
                        &&& match f.payload {
                            Payload::Mouse(m) => b[2] == 1 && MouseState::from_wire(
                                b.subrange(8, end),
                            ) == Some(m),
                            Payload::Ping => b[2] == 4,
                            Payload::Pong => b[2] == 5,
                            _ => false,
                        }
                    }
                    &&& frame is None && header ==> b[2] != 4 && b[2] != 5 && (b[2] != 1 || end
                        < 16)
                },
            }
        }),
{
}

/// A frame that repeats the last one, or lies behind it, is reported to nobody
/// until eight in a row did; one that follows the last is reported as it asks.
pub proof fn law_stragglers_are_not_reported(gate: GateState, frame: Frame, prev: u16)
    requires
        gate.last == Some(prev),
    ensures
        (frame.seq == prev || (prev > frame.seq && prev - frame.seq <= 32768)) && gate.rejected < 8
            ==> reported(gate, frame) is None,
        prev < frame.seq && frame.seq - prev <= 32767 ==> reported(gate, frame) == report_for(
            frame.payload,
        ),
{
    crate::proto::gate::law_what_goes_through(gate, frame.seq);
}

} // verus!
