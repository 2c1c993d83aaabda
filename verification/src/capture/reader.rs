//! The thread that reads the dongle back.
//!
//! The dongle owns the layout, so it must tell us where the pointer went; we
//! cannot work it out. The reader applies those announcements and hands
//! anything else to whoever is waiting for it.

use vstd::prelude::*;

use crate::ipc::state::{Daemon, DaemonState};
use crate::proto::kind;
use crate::transport::frame::Message;

verus! {

/// Where the reader stands. Exactly one reader may own the link.
#[derive(Debug, Clone, Copy, PartialEq, Eq, Structural)]
pub struct ReaderState {
    /// A thread is draining the dongle.
    pub running: bool,
    /// The reader was asked to come home. A read failure is right for a device
    /// that vanished and wrong for a link being deliberately replaced.
    pub stop: bool,
    /// A reader stopped because the link failed, and nobody has asked since.
    pub failed: bool,
}

/// What a read came to.
#[derive(Debug)]
pub enum ReadEvent {
    /// Somebody asked the reader to stop.
    StopRequested,
    Message(Message),
    /// Nothing arrived in time.
    Quiet,
    /// The link broke.
    Failed,
}

/// What the reader does next.
#[derive(Debug, Clone, Copy, PartialEq, Eq, Structural)]
pub enum ReadAction {
    /// Keep reading.
    Continue,
    /// Move the pointer's focus to this node, then keep reading.
    Focus(u8),
    /// Wake whoever waits for a reply, then keep reading.
    Wake,
    /// Stop because the reader was asked to.
    Stop,
    /// Stop because the link failed.
    Fail,
}

/// How long a read waits for a message, in milliseconds.
pub const READ_MS: u64 = 200;

/// How long a stopping caller waits for the reader, in milliseconds. Bounded,
/// because a reader wedged in a driver call must not wedge the caller too. A
/// little over one read, which is all a healthy reader needs.
pub const STOP_MS: u64 = 600;

impl ReaderState {
    /// Once a reader was asked for: there is one.
    pub open spec fn claimed(self) -> ReaderState {
        ReaderState { running: true, ..self }
    }

    /// Once the reader was asked to stop. Where there is none nobody is asked.
    pub open spec fn asked(self) -> ReaderState {
        ReaderState { stop: self.stop || self.running, ..self }
    }

    /// Once the reader ended, asked to or not.
    pub open spec fn after_end(self, asked_to_stop: bool) -> ReaderState {
        ReaderState {
            running: false,
            stop: self.stop,
            failed: self.failed || !asked_to_stop,
        }
    }

    /// No reader, and no failure to report.
    pub fn new() -> (r: Self)
        ensures
            r == (ReaderState { running: false, stop: false, failed: false }),
    {
        ReaderState { running: false, stop: false, failed: false }
    }

    /// Whether the link has failed since this was last asked, clearing the
    /// flag.
    ///
    /// Latched rather than level-triggered, so that "no reader has ever run" is
    /// not mistaken for "the device went away".
    pub fn take_link_failure(&mut self) -> (r: bool)
        ensures
            r == old(self).failed,
            *final(self) == (ReaderState { failed: false, ..*old(self) }),
    {
        let failed: bool = self.failed;
        self.failed = false;
        failed
    }

    /// Claim the link for a new reader. Says no where one is running already:
    /// two readers on one link would split each frame's bytes between them.
    pub fn claim(&mut self) -> (r: bool)
        ensures
            r == !old(self).running,
            *final(self) == old(self).claimed(),
    {
        if self.running {
            return false;
        }
        self.running = true;
        true
    }

    /// Give the claim back: the reader could not start.
    pub fn release(&mut self)
        ensures
            *final(self) == (ReaderState { running: false, ..*old(self) }),
    {
        self.running = false;
    }

    /// Ask the reader to come home. Says whether there is one to wait for.
    pub fn ask_to_stop(&mut self) -> (r: bool)
        ensures
            r == old(self).running,
            *final(self) == old(self).asked(),
    {
        if !self.running {
            return false;
        }
        self.stop = true;
        true
    }

    /// The caller stopped waiting for the reader.
    pub fn stop_is_over(&mut self)
        ensures
            *final(self) == (ReaderState { stop: false, ..*old(self) }),
    {
        self.stop = false;
    }

    /// The reader ended. The claim is released before the failure is announced:
    /// whoever acts on the announcement immediately asks for a new reader. Only
    /// a link that broke is a failure; one that was asked to stop is about to be
    /// replaced by the caller.
    pub fn ended(&mut self, asked_to_stop: bool)
        ensures
            *final(self) == old(self).after_end(asked_to_stop),
    {
        self.running = false;
        if !asked_to_stop {
            self.failed = true;
        }
    }
}

/// The event is a message that names the node which holds the pointer now.
pub open spec fn announces(ev: ReadEvent) -> Option<u8> {
    match ev {
        ReadEvent::Message(m) => if m.kind == kind::FOCUS && m.payload@.len() > 0 {
            Some(m.payload@[0])
        } else {
            None
        },
        _ => None,
    }
}

/// What a daemon makes of what a read came to, and what the reader does next.
pub open spec fn taken_in(d: Daemon, ev: ReadEvent) -> (Daemon, ReadAction) {
    match ev {
        ReadEvent::StopRequested => (Daemon { focus: 0, ..d }, ReadAction::Stop),
        ReadEvent::Failed => (Daemon { focus: 0, ..d }, ReadAction::Fail),
        ReadEvent::Quiet => (d, ReadAction::Continue),
        ReadEvent::Message(m) => if m.kind == kind::FOCUS {
            match announces(ev) {
                Some(node) => (Daemon { focus: node, ..d }, ReadAction::Focus(node)),
                None => (d, ReadAction::Continue),
            }
        } else {
            (
                d.delivered(m.kind, m.payload@),
                if d.answered_by(m.kind) < d.waiting.len() {
                    ReadAction::Wake
                } else {
                    ReadAction::Continue
                },
            )
        },
    }
}

/// Take in what a read came to. A FOCUS announcement moves the focus; one
/// without a node is ignored. Any other message is somebody's reply. Where the
/// reader ends, the pointer comes home: an unplug while it was on another
/// machine would otherwise leave the cursor hidden and every event swallowed.
pub fn on_read(state: &mut DaemonState, ev: ReadEvent) -> (r: ReadAction)
    ensures
        (final(state)@, r) == taken_in(old(state)@, ev),
{
    match ev {
        ReadEvent::StopRequested => {
            state.set_focus(0);
            ReadAction::Stop
        },
        ReadEvent::Failed => {
            state.set_focus(0);
            ReadAction::Fail
        },
        ReadEvent::Quiet => ReadAction::Continue,
        ReadEvent::Message(m) => {
            if m.kind == kind::FOCUS {
                if m.payload.len() > 0 {
                    let node: u8 = m.payload[0];
                    state.set_focus(node);
                    return ReadAction::Focus(node);
                }
                return ReadAction::Continue;
            }
            if state.deliver(m.kind, m.payload) {
                ReadAction::Wake
            } else {
                ReadAction::Continue
            }
        },
    }
}

/// A message names the node that holds the pointer where it is of kind 6 and
/// says anything: then the first byte is the node. Nothing else does.
pub proof fn law_which_messages_name_a_node(ev: ReadEvent, node: u8)
    ensures
        announces(ev) == Some(node) <==> (ev matches ReadEvent::Message(m) && m.kind == 6
            && m.payload@.len() > 0 && m.payload@[0] == node),
        !(ev is Message) ==> announces(ev) is None,
{
}

/// The reader ends where it was asked to or where the link broke, and nowhere
/// else; then the pointer is home. While it reads, only a message that names a
/// node moves the pointer, and to that node. Only another message can answer a
/// request: the answer is then one that nobody had answered, and somebody is
/// woken exactly where there was one.
pub proof fn law_what_a_read_leads_to(d: Daemon, ev: ReadEvent, i: int)
    ensures
        ({
            let (after, does) = taken_in(d, ev);
            &&& does == ReadAction::Stop <==> ev is StopRequested
            &&& does == ReadAction::Fail <==> ev is Failed
            &&& ev is StopRequested || ev is Failed ==> after.focus == 0
            &&& does matches ReadAction::Focus(node) ==> (ev matches ReadEvent::Message(m) && m.kind
                == 6 && m.payload@.len() > 0 && node == m.payload@[0] && after.focus == node)
            &&& (ev matches ReadEvent::Message(m) && m.kind == 6 && m.payload@.len() > 0) ==> does
                is Focus
            &&& ev is Quiet || (ev is Message && !(does is Focus)) ==> after.focus == d.focus
            &&& !(ev matches ReadEvent::Message(m) && m.kind != 6) ==> after.waiting == d.waiting
            &&& after.next_id == d.next_id
            &&& after.waiting.len() == d.waiting.len()
            &&& does == ReadAction::Wake <==> after.waiting != d.waiting
            &&& 0 <= i < d.waiting.len() && after.waiting[i] != d.waiting[i] ==> (
            ev matches ReadEvent::Message(m) && d.waiting[i].reply is None
                && after.waiting[i].reply == Some((m.kind, m.payload@)) && (d.waiting[i].want
                == m.kind || m.kind == 0x15))
        }),
{
    if let ReadEvent::Message(m) = ev {
        d.law_a_reply_goes_to_the_oldest_that_asked(m.kind, m.payload@);
        let at = d.answered_by(m.kind);
        let after = d.delivered(m.kind, m.payload@);
        if at < d.waiting.len() {
            assert(after.waiting[at] != d.waiting[at]);
        }
    }
}

impl ReaderState {
    /// Once a reader is claimed for there is one, until it ends. One that ends
    /// unasked leaves a failure behind, which nothing here takes away; one that
    /// was asked to leaves none. Only a reader that runs is asked to stop.
    pub proof fn law_a_failure_is_kept_until_it_is_asked_for(self, asked: bool)
        ensures
            self.claimed().running && self.asked().running == self.running,
            !self.after_end(asked).running,
            self.after_end(false).failed,
            self.after_end(true).failed == self.failed,
            self.failed ==> self.claimed().failed && self.asked().failed && self.after_end(
                asked,
            ).failed,
            !self.failed ==> !self.claimed().failed && !self.asked().failed,
            self.running ==> self.asked().stop,
            !self.running ==> self.asked().stop == self.stop,
            self.claimed().stop == self.stop && self.after_end(asked).stop == self.stop,
    {
    }
}

} // verus!
