//! Sequence numbers.

use vstd::prelude::*;

verus! {

/// Consecutive rejections after which the numbering is re-anchored.
///
/// A restarted controller begins counting from zero again, while the receiver
/// still remembers a high sequence from the previous session, so every message
/// looks like an ancient straggler and input dies silently until the counter
/// climbs back past the old value. Real reordering is a handful of messages at
/// most, so a sustained run of rejects means the peer restarted.
pub const SEQ_RESYNC_AFTER: u8 = 8;

/// Tracks sequence numbers so a receiver can drop reordered stragglers.
///
/// Sequence numbers wrap, so "newer" is signed distance on the wrapped circle
/// rather than `>`. A naive comparison would stall the stream for 32k messages
/// every time the counter wrapped.
#[derive(Debug, Clone, Copy)]
pub struct SeqGate {
    last: Option<u16>,
    rejected: u8,
}

/// What a gate remembers.
pub struct GateState {
    /// The sequence number of the last message let through.
    pub last: Option<u16>,
    /// How many messages in a row were turned away since.
    pub rejected: int,
}

/// `seq` lies ahead of `prev` by less than half the circle.
pub open spec fn newer(prev: u16, seq: u16) -> bool {
    0 < (seq - prev) % 65536 < 32768
}

impl GateState {
    /// Whether the next message is let through.
    pub open spec fn lets_through(self, seq: u16) -> bool {
        match self.last {
            None => true,
            Some(prev) => newer(prev, seq) || self.rejected >= SEQ_RESYNC_AFTER,
        }
    }

    /// What is remembered after a message.
    pub open spec fn after(self, seq: u16) -> GateState {
        if self.lets_through(seq) {
            GateState { last: Some(seq), rejected: 0 }
        } else {
            GateState { last: self.last, rejected: self.rejected + 1 }
        }
    }

    /// What is remembered after a run of messages.
    pub open spec fn after_all(self, seqs: Seq<u16>) -> GateState
        decreases seqs.len(),
    {
        if seqs.len() == 0 {
            self
        } else {
            self.after_all(seqs.drop_last()).after(seqs.last())
        }
    }
}

impl View for SeqGate {
    type V = GateState;

    closed spec fn view(&self) -> GateState {
        GateState { last: self.last, rejected: self.rejected as int }
    }
}

impl Default for SeqGate {
    fn default() -> (r: Self)
        ensures
            r@ == (GateState { last: None, rejected: 0 }),
    {
        SeqGate::new()
    }
}

impl SeqGate {
    pub fn new() -> (r: Self)
        ensures
            r@ == (GateState { last: None, rejected: 0 }),
    {
        SeqGate { last: None, rejected: 0 }
    }

    /// Let a message through, or turn it away.
    pub fn accept(&mut self, seq: u16) -> (r: bool)
        ensures
            r == old(self)@.lets_through(seq),
            final(self)@ == old(self)@.after(seq),
    {
        match self.last {
            None => {
                self.last = Some(seq);
                self.rejected = 0;
                true
            },
            Some(prev) => {
                let ahead: u16 = seq.wrapping_sub(prev);
                if 0 < ahead && ahead < 32768 {
                    self.last = Some(seq);
                    self.rejected = 0;
                    true
                } else if self.rejected >= SEQ_RESYNC_AFTER {
                    self.last = Some(seq);
                    self.rejected = 0;
                    true
                } else {
                    self.rejected = self.rejected + 1;
                    false
                }
            },
        }
    }
}

/// Counting on past the largest number is still ahead: being ahead depends
/// only on the distance round the circle.
pub proof fn law_wraparound_is_newer(prev: u16, step: u16)
    ensures
        newer(prev, ((prev + step) % 65536) as u16) <==> 0 < step < 32768,
{
}

/// A duplicate is never ahead, and of two different numbers at most one is
/// ahead of the other.
pub proof fn law_duplicates_and_stragglers_are_not_newer(a: u16, b: u16)
    ensures
        !newer(a, a),
        newer(a, b) ==> !newer(b, a),
{
}

/// A message that is not ahead is turned away until the run of rejections is
/// long enough, and what was last let through does not change meanwhile.
pub proof fn law_stragglers_are_rejected(s: GateState, prev: u16, seq: u16)
    requires
        s.last == Some(prev),
        0 <= s.rejected < SEQ_RESYNC_AFTER,
        !newer(prev, seq),
    ensures
        !s.lets_through(seq),
        s.after(seq).last == s.last,
{
}

/// However a gate stands, a run of one message more than the rejection limit
/// gets at least one of them through: a restarted peer is heard again.
pub proof fn law_reanchors(s: GateState, seqs: Seq<u16>)
    requires
        s.rejected >= 0,
        seqs.len() == SEQ_RESYNC_AFTER + 1,
    ensures
        exists|i: int|
            0 <= i < seqs.len() && s.after_all(seqs.take(i)).lets_through(#[trigger] seqs[i]),
{
    if forall|i: int|
        0 <= i < seqs.len() ==> !s.after_all(seqs.take(i)).lets_through(#[trigger] seqs[i]) {
        lemma_rejections_add_up(s, seqs, SEQ_RESYNC_AFTER as int);
        let last = seqs[SEQ_RESYNC_AFTER as int];
        assert(s.after_all(seqs.take(SEQ_RESYNC_AFTER as int)).lets_through(last));
    }
}

proof fn lemma_rejections_add_up(s: GateState, seqs: Seq<u16>, n: int)
    requires
        0 <= n <= seqs.len(),
        forall|i: int|
            0 <= i < seqs.len() ==> !s.after_all(seqs.take(i)).lets_through(#[trigger] seqs[i]),
    ensures
        s.after_all(seqs.take(n)).rejected == s.rejected + n,
    decreases n,
{
    if n > 0 {
        lemma_rejections_add_up(s, seqs, n - 1);
        assert(seqs.take(n).drop_last() =~= seqs.take(n - 1));
        assert(seqs.take(n).last() == seqs[n - 1]);
    } else {
        assert(seqs.take(0) =~= Seq::empty());
    }
}

/// Once a message went through, a peer that counts up from it gets everything
/// through.
pub proof fn law_counting_up_goes_through(s: GateState, prev: u16)
    requires
        s.last == Some(prev),
    ensures
        s.lets_through(((prev + 1) % 65536) as u16),
        s.after(((prev + 1) % 65536) as u16) == (GateState {
            last: Some(((prev + 1) % 65536) as u16),
            rejected: 0,
        }),
{
}

/// What a gate does with a message, whatever it remembers: the first one goes
/// through, one that is at most 32767 numbers ahead of the last goes through,
/// and so does any once eight in a row were turned away. What goes through is
/// remembered and ends the run of rejections; what does not makes it longer.
pub proof fn law_what_goes_through(s: GateState, seq: u16)
    ensures
        s.last is None ==> s.lets_through(seq),
        s.last matches Some(prev) ==> (s.lets_through(seq) <==> (prev < seq && seq - prev <= 32767)
            || (prev > seq && prev - seq >= 32769) || s.rejected >= 8),
        s.lets_through(seq) ==> s.after(seq).last == Some(seq) && s.after(seq).rejected == 0,
        !s.lets_through(seq) ==> s.after(seq).last == s.last && s.after(seq).rejected == s.rejected
            + 1,
{
}

} // verus!
