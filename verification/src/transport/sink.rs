//! Getting addressed frames to the dongle.

use vstd::prelude::*;

use crate::proto::edge::Edge;
use crate::proto::mouse::MouseState;
use crate::transport::LinkError;

verus! {

/// What an addressed frame asks of its target.
#[derive(Debug, Clone, Copy, PartialEq, Eq, Structural)]
pub enum Payload {
    /// Move, click or scroll.
    Mouse(MouseState),
    /// The pointer left: let go of everything.
    Leave,
    /// The pointer arrived, at this edge and this far along it.
    Enter { edge: Edge, ratio: u16 },
    Ping,
    Pong,
}

/// One frame addressed to one target.
#[derive(Debug, Clone, Copy, PartialEq, Eq, Structural)]
pub struct Frame {
    pub node: u8,
    pub seq: u16,
    pub payload: Payload,
}

impl Frame {
    pub fn new(node: u8, seq: u16, payload: Payload) -> (r: Self)
        ensures
            r == (Frame { node, seq, payload }),
    {
        Frame { node, seq, payload }
    }
}

/// A sink for addressed frames.
pub trait Transport {
    /// Send a frame.
    fn send(&mut self, frame: &Frame) -> (r: Result<(), LinkError>);
}

/// Records frames instead of sending them. For tests and dry runs.
#[derive(Debug)]
pub struct NullTransport {
    pub sent: Vec<Frame>,
}

impl Default for NullTransport {
    /// Nothing sent yet.
    fn default() -> (r: Self)
        ensures
            r.sent@ == Seq::<Frame>::empty(),
    {
        NullTransport { sent: Vec::new() }
    }
}

impl Transport for NullTransport {
    fn send(&mut self, frame: &Frame) -> (r: Result<(), LinkError>)
        ensures
            r is Ok,
            final(self).sent@ == old(self).sent@.push(*frame),
    {
        self.sent.push(*frame);
        Ok(())
    }
}

/// Numbers the frames that go out over the dongle's USB CDC link.
#[derive(Debug)]
pub struct SerialTransport {
    seq: u16,
}

impl View for SerialTransport {
    type V = u16;

    /// The sequence number of the next frame.
    closed spec fn view(&self) -> u16 {
        self.seq
    }
}

impl SerialTransport {
    /// A link that was just opened.
    pub fn open() -> (r: Self)
        ensures
            r@ == 0,
    {
        SerialTransport { seq: 0 }
    }

    fn next_seq(&mut self) -> (r: u16)
        ensures
            r == old(self)@,
            final(self)@ == (old(self)@ + 1) % 65536,
    {
        let s: u16 = self.seq;
        self.seq = self.seq.wrapping_add(1);
        s
    }

    /// Build a frame addressed to `node`, allocating the sequence number so
    /// callers cannot accidentally reuse one.
    pub fn send_to(&mut self, node: u8, payload: Payload) -> (r: Frame)
        ensures
            final(self)@ == (old(self)@ + 1) % 65536,
            r == (Frame { node, seq: old(self)@, payload }),
    {
        let seq: u16 = self.next_seq();
        Frame::new(node, seq, payload)
    }
}

} // verus!
