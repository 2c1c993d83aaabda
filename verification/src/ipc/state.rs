//! The rendezvous for replies from the dongle.

use vstd::prelude::*;

use crate::proto::kind;
use crate::transport::ble::Air;
use crate::transport::frame::frame;
use crate::transport::{Dongle, LinkError};

verus! {

/// One request waiting for its answer.
#[derive(Debug)]
struct Waiter {
    id: u64,
    /// The reply kind this request asked for.
    want: u8,
    /// Filled in once this waiter's answer arrives.
    reply: Option<(u8, Vec<u8>)>,
}

/// A request that is waiting, as others see it.
pub struct Waiting {
    pub id: u64,
    pub want: u8,
    pub reply: Option<(u8, Seq<u8>)>,
}

impl View for Waiter {
    type V = Waiting;

    closed spec fn view(&self) -> Waiting {
        Waiting {
            id: self.id,
            want: self.want,
            reply: match self.reply {
                Some((k, p)) => Some((k, p@)),
                None => None,
            },
        }
    }
}

/// Shared state, and the rendezvous for replies from the dongle.
///
/// # Why replies come through here
///
/// Exactly one thread may read the link, and that is the capture reader: it has
/// to be, since FOCUS arrives unsolicited. A caller that wanted a reply could
/// not simply read the link itself, and holding the link lock while waiting for
/// one would stall pointer motion for as long as the timeout. So requests are
/// written under a brief lock and the reader hands the answer back here.
#[derive(Debug)]
pub struct DaemonState {
    /// Node currently holding the pointer; 0 is this machine.
    focus: u8,
    /// Everyone currently waiting for an answer. Oldest first, which is also
    /// the order the dongle answers in.
    list: Vec<Waiter>,
    next_id: u64,
}

/// What the daemon knows.
pub struct Daemon {
    pub focus: u8,
    /// Everyone currently waiting, oldest first.
    pub waiting: Seq<Waiting>,
    pub next_id: u64,
}

/// A registered request.
///
/// Registration happens *before* the write, so a dongle that answers faster
/// than the requester can get back to waiting still finds somebody to hand the
/// reply to.
#[derive(Debug)]
pub struct Pending {
    id: u64,
}

impl View for Pending {
    type V = u64;

    closed spec fn view(&self) -> u64 {
        self.id
    }
}

/// The first request from `i` on that still waits for this kind; their number
/// where there is none.
pub open spec fn wants_from(w: Seq<Waiting>, kind: u8, i: int) -> int
    decreases w.len() - i,
{
    if i >= w.len() || (w[i].want == kind && w[i].reply is None) {
        i
    } else {
        wants_from(w, kind, i + 1)
    }
}

/// The first request from `i` on that still waits for anything; their number
/// where there is none.
pub open spec fn open_from(w: Seq<Waiting>, i: int) -> int
    decreases w.len() - i,
{
    if i >= w.len() || w[i].reply is None {
        i
    } else {
        open_from(w, i + 1)
    }
}

/// The first request from `i` on with this id; their number where there is
/// none.
pub open spec fn id_from(w: Seq<Waiting>, id: u64, i: int) -> int
    decreases w.len() - i,
{
    if i >= w.len() || w[i].id == id {
        i
    } else {
        id_from(w, id, i + 1)
    }
}

/// The requests other than this one, in order.
pub open spec fn without(w: Seq<Waiting>, id: u64) -> Seq<Waiting>
    decreases w.len(),
{
    if w.len() == 0 {
        Seq::empty()
    } else if w.last().id == id {
        without(w.drop_last(), id)
    } else {
        without(w.drop_last(), id).push(w.last())
    }
}

impl Daemon {
    /// The request that a reply of this kind answers; the number of requests
    /// where it answers none. An ACK matches any request, since it is how the
    /// dongle refuses anything, but it is offered to one that expects an ACK
    /// before it is treated as a refusal of the oldest outstanding request.
    pub open spec fn answered_by(self, kind: u8) -> int {
        let exact = wants_from(self.waiting, kind, 0);
        if exact < self.waiting.len() {
            exact
        } else if kind == kind::ACK {
            open_from(self.waiting, 0)
        } else {
            self.waiting.len() as int
        }
    }

    /// The daemon once a reply was handed over. One that nobody is waiting for
    /// is dropped: the late answer to a request that already timed out.
    pub open spec fn delivered(self, kind: u8, payload: Seq<u8>) -> Daemon {
        let i = self.answered_by(kind);
        if i < self.waiting.len() {
            Daemon {
                waiting: self.waiting.update(
                    i,
                    Waiting { reply: Some((kind, payload)), ..self.waiting[i] },
                ),
                ..self
            }
        } else {
            self
        }
    }

    /// The daemon with one more request.
    pub open spec fn registered(self, want: u8) -> Daemon {
        Daemon {
            waiting: self.waiting.push(Waiting { id: self.next_id, want, reply: None }),
            next_id: (self.next_id + 1) as u64,
            ..self
        }
    }

    /// The daemon once this request's answer was taken, if it had come.
    pub open spec fn taken(self, id: u64) -> Daemon {
        let i = id_from(self.waiting, id, 0);
        if i < self.waiting.len() {
            Daemon {
                waiting: self.waiting.update(i, Waiting { reply: None, ..self.waiting[i] }),
                ..self
            }
        } else {
            self
        }
    }

    /// The daemon once this request is over.
    pub open spec fn finished(self, id: u64) -> Daemon {
        Daemon { waiting: without(self.waiting, id), ..self }
    }

    /// Every answer that waits to be taken is one that its request asked for,
    /// or an ACK that refuses it.
    pub open spec fn replies_fit(self) -> bool {
        forall|i: int|
            0 <= i < self.waiting.len() ==> match (#[trigger] self.waiting[i]).reply {
                Some((k, _)) => k == self.waiting[i].want || k == kind::ACK,
                None => true,
            }
    }

    /// What holds of every daemon: its requests are told apart by their ids, and
    /// each holds only an answer of its own.
    pub open spec fn is_sound(self) -> bool {
        self.ids_are_ordered() && self.replies_fit()
    }

    /// Every request has its own id, older ones the smaller.
    pub open spec fn ids_are_ordered(self) -> bool {
        &&& forall|i: int, j: int|
            #![trigger self.waiting[i], self.waiting[j]]
            0 <= i < j < self.waiting.len() ==> self.waiting[i].id < self.waiting[j].id
        &&& forall|i: int|
            0 <= i < self.waiting.len() ==> (#[trigger] self.waiting[i]).id < self.next_id
    }
}

spec fn waiter_views(v: Seq<Waiter>) -> Seq<Waiting> {
    Seq::new(v.len(), |i: int| v[i]@)
}

impl View for DaemonState {
    type V = Daemon;

    closed spec fn view(&self) -> Daemon {
        Daemon { focus: self.focus, waiting: waiter_views(self.list@), next_id: self.next_id }
    }
}

impl Default for DaemonState {
    /// The pointer at home and nobody waiting.
    fn default() -> (r: Self)
        ensures
            r@ == (Daemon { focus: 0, waiting: Seq::empty(), next_id: 0 }),
            r@.is_sound(),
    {
        let r = DaemonState { focus: 0, list: Vec::new(), next_id: 0 };
        assert(r@.waiting =~= Seq::empty());
        r
    }
}

impl DaemonState {
    #[verifier::type_invariant]
    closed spec fn inv(self) -> bool {
        self@.is_sound()
    }

    /// Node currently holding the pointer; 0 is this machine.
    pub fn focus(&self) -> (r: u8)
        ensures
            r == self@.focus,
    {
        self.focus
    }

    /// Note which node holds the pointer now.
    pub fn set_focus(&mut self, node: u8)
        ensures
            final(self)@ == (Daemon { focus: node, ..old(self)@ }),
            final(self)@.is_sound(),
    {
        proof {
            use_type_invariant(&*self);
        }
        self.focus = node;
    }

    /// Hand over anything that is not FOCUS. Says whether anybody was waiting
    /// for it, and so whether requesters should wake.
    ///
    /// The wire carries no request id to match on: the header's sequence number
    /// is the sender's, and the dongle does not echo it. So a reply is routed by
    /// the kind somebody asked for, oldest first.
    pub fn deliver(&mut self, kind: u8, payload: Vec<u8>) -> (woke: bool)
        ensures
            final(self)@ == old(self)@.delivered(kind, payload@),
            woke == (old(self)@.answered_by(kind) < old(self)@.waiting.len()),
            final(self)@.is_sound(),
    {
        proof {
            use_type_invariant(&*self);
            self@.lemma_delivered(kind, payload@);
        }
        let n: usize = self.list.len();
        let ghost w = self@.waiting;
        let mut target: usize = 0;
        while target < n && !(self.list[target].want == kind && self.list[target].reply.is_none())
            invariant
                target <= n == self.list@.len(),
                w == waiter_views(self.list@),
                *self == *old(self),
                wants_from(w, kind, 0) == wants_from(w, kind, target as int),
            decreases n - target,
        {
            assert(w[target as int] == self.list@[target as int]@);
            target = target + 1;
        }
        if target < n {
            assert(w[target as int] == self.list@[target as int]@);
        }
        if target == n && kind == kind::ACK {
            // Nobody asked for an ACK, so this one refuses a request that
            // wanted something else: the oldest still outstanding.
            target = 0;
            while target < n && !self.list[target].reply.is_none()
                invariant
                    target <= n == self.list@.len(),
                    w == waiter_views(self.list@),
                    *self == *old(self),
                    open_from(w, 0) == open_from(w, target as int),
                decreases n - target,
            {
                assert(w[target as int] == self.list@[target as int]@);
                target = target + 1;
            }
            if target < n {
                assert(w[target as int] == self.list@[target as int]@);
            }
        }
        if target < n {
            let id: u64 = self.list[target].id;
            let want: u8 = self.list[target].want;
            assert(w[target as int] == self.list@[target as int]@);
            let ghost after = old(self)@.delivered(kind, payload@);
            let mut list: Vec<Waiter> = Vec::new();
            core::mem::swap(&mut self.list, &mut list);
            list.set(target, Waiter { id, want, reply: Some((kind, payload)) });
            assert(waiter_views(list@) =~= after.waiting);
            self.list = list;
            true
        } else {
            false
        }
    }

    /// Register a waiter for `want` and return its handle.
    pub fn register(&mut self, want: u8) -> (r: Pending)
        requires
            old(self)@.next_id < u64::MAX,
        ensures
            final(self)@ == old(self)@.registered(want),
            r@ == old(self)@.next_id,
            final(self)@.is_sound(),
    {
        proof {
            use_type_invariant(&*self);
        }
        let id: u64 = self.next_id;
        let mut list: Vec<Waiter> = Vec::new();
        core::mem::swap(&mut self.list, &mut list);
        list.push(Waiter { id, want, reply: None });
        assert(waiter_views(list@) =~= old(self)@.registered(want).waiting);
        self.next_id = id + 1;
        self.list = list;
        Pending { id }
    }

    /// Whether a request can still be registered.
    pub fn has_ids(&self) -> (r: bool)
        ensures
            r == (self@.next_id < u64::MAX),
    {
        self.next_id < u64::MAX
    }

    /// How many requests are registered.
    pub fn outstanding(&self) -> (r: usize)
        ensures
            r == self@.waiting.len(),
            self@.is_sound(),
    {
        proof {
            use_type_invariant(self);
        }
        self.list.len()
    }

    /// Forget a request that is over.
    pub fn finish(&mut self, pending: Pending)
        ensures
            final(self)@ == old(self)@.finished(pending@),
            final(self)@.is_sound(),
    {
        proof {
            use_type_invariant(&*self);
            self@.lemma_finished(pending@);
        }
        let ghost w = self@.waiting;
        let n: usize = self.list.len();
        let mut kept: Vec<Waiter> = Vec::new();
        let mut i: usize = 0;
        assert(waiter_views(kept@) =~= without(w.take(0), pending@));
        while i < n
            invariant
                i <= n == self.list@.len(),
                w == waiter_views(self.list@),
                *self == *old(self),
                waiter_views(kept@) == without(w.take(i as int), pending@),
            decreases n - i,
        {
            let x: &Waiter = &self.list[i];
            assert(w.take(i + 1).drop_last() =~= w.take(i as int));
            assert(w.take(i + 1).last() == x@);
            if x.id != pending.id {
                let ghost before = waiter_views(kept@);
                let reply: Option<(u8, Vec<u8>)> = match &x.reply {
                    Some((k, p)) => Some((*k, copy_bytes(p))),
                    None => None,
                };
                kept.push(Waiter { id: x.id, want: x.want, reply });
                assert(waiter_views(kept@) =~= before.push(x@));
            }
            i = i + 1;
        }
        assert(w.take(n as int) =~= w);
        self.list = kept;
    }

    /// The place of a request; the number of requests where it is gone.
    fn place_of(&self, pending: &Pending) -> (r: usize)
        ensures
            r == id_from(self@.waiting, pending@, 0),
            r <= self.list@.len(),
    {
        let n: usize = self.list.len();
        let ghost w = self@.waiting;
        let mut i: usize = 0;
        while i < n && self.list[i].id != pending.id
            invariant
                i <= n == self.list@.len(),
                w == waiter_views(self.list@),
                id_from(w, pending@, 0) == id_from(w, pending@, i as int),
            decreases n - i,
        {
            assert(w[i as int] == self.list@[i as int]@);
            i = i + 1;
        }
        if i < n {
            assert(w[i as int] == self.list@[i as int]@);
        }
        i
    }

    /// Send a request: it is registered first, so its answer cannot be missed,
    /// and forgotten again where it could not be sent. Returns its handle and
    /// the bytes for the link.
    pub fn request(
        &mut self,
        link: &mut Dongle,
        air: &Air,
        kind: u8,
        payload: &[u8],
        want: u8,
    ) -> (r: Result<(Pending, Vec<u8>), LinkError>)
        requires
            old(self)@.next_id < u64::MAX,
        ensures
            match r {
                Ok((pending, out)) => {
                    &&& old(link)@.send_error(air@.alive, payload@.len() as int) is None
                    &&& pending@ == old(self)@.next_id
                    &&& final(self)@ == old(self)@.registered(want)
                    &&& out@ == frame(kind, old(link)@.seq(), payload@)
                    &&& final(link)@ == old(link)@.counted()
                },
                Err(e) => {
                    &&& old(link)@.send_error(air@.alive, payload@.len() as int) == Some(e)
                    &&& final(link)@ == old(link)@
                    &&& final(self)@ == (Daemon {
                        next_id: (old(self)@.next_id + 1) as u64,
                        ..old(self)@
                    })
                },
            },
            final(self)@.is_sound(),
    {
        proof {
            use_type_invariant(&*self);
            self@.law_a_finished_request_is_forgotten(self@.next_id, want);
        }
        let pending: Pending = self.register(want);
        match link.send(air, kind, payload) {
            Ok(out) => Ok((pending, out)),
            Err(e) => {
                self.finish(pending);
                Err(e)
            },
        }
    }
}

fn copy_bytes(v: &Vec<u8>) -> (r: Vec<u8>)
    ensures
        r@ == v@,
{
    crate::bytes::copy_range(v.as_slice(), 0, v.len())
}

impl Pending {
    /// Whether this request still waits for its answer.
    pub fn is_waiting(&self, state: &DaemonState) -> (r: bool)
        ensures
            r == ({
                let i = id_from(state@.waiting, self@, 0);
                i < state@.waiting.len() && state@.waiting[i].reply is None
            }),
    {
        let i: usize = state.place_of(self);
        if i < state.list.len() {
            assert(state@.waiting[i as int] == state.list@[i as int]@);
            state.list[i].reply.is_none()
        } else {
            false
        }
    }

    /// Take this request's answer, if it has come. Not gated on whether the
    /// wait expired: a reply that landed in the same instant is still ours.
    pub fn wait(&self, state: &mut DaemonState) -> (r: Option<(u8, Vec<u8>)>)
        ensures
            ({
                let w = old(state)@.waiting;
                let i = id_from(w, self@, 0);
                if i < w.len() {
                    match w[i].reply {
                        Some((k, p)) => r is Some && r.unwrap().0 == k && r.unwrap().1@ == p && (k
                            == w[i].want || k == kind::ACK),
                        None => r is None,
                    }
                } else {
                    r is None
                }
            }),
            final(state)@ == old(state)@.taken(self@),
            final(state)@.is_sound(),
    {
        proof {
            use_type_invariant(&*state);
            state@.lemma_taken(self@);
        }
        let i: usize = state.place_of(self);
        if i < state.list.len() {
            let ghost w = state@.waiting;
            assert(w[i as int] == state.list@[i as int]@);
            let id: u64 = state.list[i].id;
            let want: u8 = state.list[i].want;
            let reply: Option<(u8, Vec<u8>)> = match &state.list[i].reply {
                Some((k, p)) => Some((*k, copy_bytes(p))),
                None => None,
            };
            let mut list: Vec<Waiter> = Vec::new();
            core::mem::swap(&mut state.list, &mut list);
            list.set(i, Waiter { id, want, reply: None });
            assert(waiter_views(list@) =~= old(state)@.taken(self@).waiting);
            state.list = list;
            reply
        } else {
            None
        }
    }
}

proof fn lemma_wants_from(w: Seq<Waiting>, kind: u8, i: int)
    requires
        0 <= i <= w.len(),
    ensures
        i <= wants_from(w, kind, i) <= w.len(),
        wants_from(w, kind, i) < w.len() ==> w[wants_from(w, kind, i)].want == kind
            && w[wants_from(w, kind, i)].reply is None,
        forall|k: int|
            i <= k < wants_from(w, kind, i) ==> !((#[trigger] w[k]).want == kind
                && w[k].reply is None),
    decreases w.len() - i,
{
    if i < w.len() && !(w[i].want == kind && w[i].reply is None) {
        lemma_wants_from(w, kind, i + 1);
    }
}

proof fn lemma_id_from(w: Seq<Waiting>, id: u64, i: int)
    requires
        0 <= i <= w.len(),
    ensures
        i <= id_from(w, id, i) <= w.len(),
        id_from(w, id, i) < w.len() ==> w[id_from(w, id, i)].id == id,
    decreases w.len() - i,
{
    if i < w.len() && w[i].id != id {
        lemma_id_from(w, id, i + 1);
    }
}

proof fn lemma_open_from(w: Seq<Waiting>, i: int)
    requires
        0 <= i <= w.len(),
    ensures
        i <= open_from(w, i) <= w.len(),
        open_from(w, i) < w.len() ==> w[open_from(w, i)].reply is None,
        forall|k: int| i <= k < open_from(w, i) ==> (#[trigger] w[k]).reply is Some,
    decreases w.len() - i,
{
    if i < w.len() && w[i].reply is Some {
        lemma_open_from(w, i + 1);
    }
}

proof fn lemma_wants_is(w: Seq<Waiting>, kind: u8, i: int, n: int)
    requires
        0 <= i <= n <= w.len(),
        n < w.len() ==> w[n].want == kind && w[n].reply is None,
        forall|k: int| i <= k < n ==> !((#[trigger] w[k]).want == kind && w[k].reply is None),
    ensures
        wants_from(w, kind, i) == n,
    decreases n - i,
{
    if i < n {
        assert(!(w[i].want == kind && w[i].reply is None));
        lemma_wants_is(w, kind, i + 1, n);
    }
}

proof fn lemma_without(w: Seq<Waiting>, id: u64)
    ensures
        without(w, id).len() <= w.len(),
        forall|k: int| 0 <= k < without(w, id).len() ==> (#[trigger] without(w, id)[k]).id != id,
        forall|x: Waiting| x.id != id ==> (without(w, id).contains(x) <==> w.contains(x)),
        (forall|k: int| 0 <= k < w.len() ==> (#[trigger] w[k]).id != id) ==> without(w, id) == w,
    decreases w.len(),
{
    if w.len() > 0 {
        let head = w.drop_last();
        lemma_without(head, id);
        let kept = without(w, id);
        assert(w =~= head.push(w.last()));
        assert forall|x: Waiting| x.id != id implies (kept.contains(x) <==> w.contains(x)) by {
            if kept.contains(x) {
                let k = choose|k: int| 0 <= k < kept.len() && kept[k] == x;
                if k < without(head, id).len() {
                    assert(without(head, id)[k] == x);
                    assert(head.contains(x));
                    let j = choose|j: int| 0 <= j < head.len() && head[j] == x;
                    assert(w[j] == x);
                } else {
                    assert(w[w.len() - 1] == x);
                }
            }
            if w.contains(x) {
                let k = choose|k: int| 0 <= k < w.len() && w[k] == x;
                if k < head.len() {
                    assert(head[k] == x);
                    assert(head.contains(x));
                    assert(without(head, id).contains(x));
                    let j = choose|j: int|
                        0 <= j < without(head, id).len() && without(head, id)[j] == x;
                    assert(kept[j] == x);
                } else {
                    assert(kept[kept.len() - 1] == x);
                }
            }
        }
        if forall|k: int| 0 <= k < w.len() ==> (#[trigger] w[k]).id != id {
            assert forall|k: int| 0 <= k < head.len() implies (#[trigger] head[k]).id != id by {
                assert(w[k].id != id);
            }
            assert(kept =~= w);
        }
    } else {
        assert(without(w, id) =~= w);
    }
}

impl Daemon {
    /// A reply goes to the oldest request that asked for its kind, an ACK that
    /// nobody asked for refuses the oldest outstanding request, and no other
    /// request is touched.
    pub proof fn law_a_reply_goes_to_the_oldest_that_asked(self, kind: u8, payload: Seq<u8>)
        ensures
            ({
                let w = self.waiting;
                let i = self.answered_by(kind);
                let after = self.delivered(kind, payload);
                &&& 0 <= i <= w.len()
                &&& i < w.len() ==> {
                    &&& w[i].reply is None
                    &&& after.waiting[i] == (Waiting { reply: Some((kind, payload)), ..w[i] })
                    &&& w[i].want == kind || kind == kind::ACK
                    &&& w[i].want == kind ==> forall|k: int|
                        0 <= k < i ==> !((#[trigger] w[k]).want == kind && w[k].reply is None)
                    &&& w[i].want != kind ==> (forall|k: int|
                        0 <= k < w.len() ==> !((#[trigger] w[k]).want == kind
                            && w[k].reply is None)) && (forall|k: int|
                        0 <= k < i ==> (#[trigger] w[k]).reply is Some)
                }
                &&& after.waiting.len() == w.len()
                &&& forall|k: int| 0 <= k < w.len() && k != i ==> after.waiting[k] == w[k]
                &&& after.focus == self.focus && after.next_id == self.next_id
            }),
    {
        lemma_wants_from(self.waiting, kind, 0);
        lemma_open_from(self.waiting, 0);
    }

    /// A reply that nobody is waiting for is dropped rather than handed to the
    /// next requester.
    pub proof fn law_a_late_reply_is_dropped(self, kind: u8, payload: Seq<u8>)
        requires
            kind != kind::ACK,
            forall|k: int|
                0 <= k < self.waiting.len() ==> !((#[trigger] self.waiting[k]).want == kind
                    && self.waiting[k].reply is None),
        ensures
            self.delivered(kind, payload) == self,
    {
        lemma_wants_from(self.waiting, kind, 0);
    }

    /// Requests of different kinds each get their own reply, in whatever order
    /// the replies arrive.
    pub proof fn law_replies_may_arrive_in_any_order(
        self,
        a: u8,
        b: u8,
        pa: Seq<u8>,
        pb: Seq<u8>,
    )
        requires
            a != b,
            a != kind::ACK,
            b != kind::ACK,
        ensures
            self.delivered(a, pa).delivered(b, pb) == self.delivered(b, pb).delivered(a, pa),
    {
        let w = self.waiting;
        let i = wants_from(w, a, 0);
        let j = wants_from(w, b, 0);
        lemma_wants_from(w, a, 0);
        lemma_wants_from(w, b, 0);
        let wa = self.delivered(a, pa).waiting;
        let wb = self.delivered(b, pb).waiting;
        lemma_wants_is(wa, b, 0, j);
        lemma_wants_is(wb, a, 0, i);
        assert(self.delivered(a, pa).delivered(b, pb).waiting =~= self.delivered(b, pb).delivered(
            a,
            pa,
        ).waiting);
    }

    proof fn lemma_delivered(self, kind: u8, payload: Seq<u8>)
        requires
            self.is_sound(),
        ensures
            self.delivered(kind, payload).is_sound(),
    {
        self.law_a_reply_goes_to_the_oldest_that_asked(kind, payload);
        let after = self.delivered(kind, payload);
        assert forall|k: int| 0 <= k < self.waiting.len() implies (#[trigger] after.waiting[k]).id
            == self.waiting[k].id && after.waiting[k].want == self.waiting[k].want && (k
            != self.answered_by(kind) ==> after.waiting[k] == self.waiting[k]) by {}
    }

    proof fn lemma_taken(self, id: u64)
        requires
            self.is_sound(),
        ensures
            self.taken(id).is_sound(),
    {
        let after = self.taken(id);
        lemma_id_from(self.waiting, id, 0);
        assert forall|k: int| 0 <= k < self.waiting.len() implies (#[trigger] after.waiting[k]).id
            == self.waiting[k].id && (after.waiting[k] == self.waiting[k]
            || after.waiting[k].reply is None) by {}
    }

    proof fn lemma_finished(self, id: u64)
        requires
            self.is_sound(),
        ensures
            self.finished(id).is_sound(),
    {
        lemma_without_ordered(self.waiting, id);
        lemma_without(self.waiting, id);
        let kept = without(self.waiting, id);
        assert forall|k: int| 0 <= k < kept.len() implies (#[trigger] kept[k]).id < self.next_id
            && (kept[k].reply matches Some((r, _)) ==> r == kept[k].want || r == kind::ACK) by {
            assert(kept[k].id != id);
            assert(kept.contains(kept[k]));
            assert(self.waiting.contains(kept[k]));
            let j = choose|j: int| 0 <= j < self.waiting.len() && self.waiting[j] == kept[k];
            assert(self.waiting[j].id < self.next_id);
        }
    }

    /// In every state that can arise the requests are told apart by their ids,
    /// and each holds only an answer that it asked for, or an ACK. It holds
    /// where nobody waits, and registering a request, handing over a reply,
    /// taking an answer and forgetting a request each keep it.
    pub proof fn law_every_operation_keeps_the_table_sound(
        self,
        kind: u8,
        payload: Seq<u8>,
        want: u8,
        id: u64,
    )
        ensures
            self.waiting.len() == 0 ==> self.is_sound(),
            self.is_sound() && self.next_id < u64::MAX ==> self.registered(want).is_sound(),
            self.is_sound() ==> self.delivered(kind, payload).is_sound(),
            self.is_sound() ==> self.taken(id).is_sound(),
            self.is_sound() ==> self.finished(id).is_sound(),
    {
        if self.is_sound() {
            self.lemma_delivered(kind, payload);
            self.lemma_taken(id);
            self.lemma_finished(id);
        }
    }

    /// A finished request is gone, every other one is still waiting, and a
    /// request that is over before it was sent leaves no trace.
    pub proof fn law_a_finished_request_is_forgotten(self, id: u64, want: u8)
        requires
            self.ids_are_ordered(),
        ensures
            forall|k: int|
                0 <= k < without(self.waiting, id).len() ==> (#[trigger] without(
                    self.waiting,
                    id,
                )[k]).id != id,
            forall|x: Waiting|
                x.id != id ==> (without(self.waiting, id).contains(x) <==> self.waiting.contains(
                    x,
                )),
            without(self.registered(want).waiting, self.next_id) == self.waiting,
    {
        lemma_without(self.waiting, id);
        lemma_without(self.waiting, self.next_id);
        let now = self.registered(want).waiting;
        assert(now.drop_last() =~= self.waiting);
    }
}

proof fn lemma_without_ordered(w: Seq<Waiting>, id: u64)
    requires
        forall|i: int, j: int|
            #![trigger w[i], w[j]]
            0 <= i < j < w.len() ==> w[i].id < w[j].id,
    ensures
        ({
            let kept = without(w, id);
            forall|i: int, j: int|
                #![trigger kept[i], kept[j]]
                0 <= i < j < kept.len() ==> kept[i].id < kept[j].id
        }),
    decreases w.len(),
{
    if w.len() > 0 {
        let head = w.drop_last();
        assert forall|i: int, j: int|
            #![trigger head[i], head[j]]
            0 <= i < j < head.len() implies head[i].id < head[j].id by {
            assert(w[i].id < w[j].id);
        }
        lemma_without_ordered(head, id);
        lemma_without(head, id);
        let kept = without(w, id);
        let before = without(head, id);
        assert forall|i: int, j: int|
            #![trigger kept[i], kept[j]]
            0 <= i < j < kept.len() implies kept[i].id < kept[j].id by {
            assert(kept[i] == before[i]);
            if j == before.len() {
                assert(before[i].id != id);
                assert(before.contains(before[i]));
                assert(head.contains(before[i]));
                let k = choose|k: int| 0 <= k < head.len() && head[k] == before[i];
                assert(w[k].id < w[w.len() - 1].id);
            } else {
                assert(before[i].id < before[j].id);
            }
        }
    }
}

impl Daemon {
    /// A request that is registered waits behind all others, under the next id,
    /// with no answer yet. Nothing else changes.
    pub proof fn law_a_new_request_waits_behind_the_others(self, want: u8, i: int)
        requires
            self.next_id < u64::MAX,
        ensures
            ({
                let after = self.registered(want);
                &&& after.waiting.len() == self.waiting.len() + 1
                &&& 0 <= i < self.waiting.len() ==> after.waiting[i] == self.waiting[i]
                &&& after.waiting.last().id == self.next_id
                &&& after.waiting.last().want == want
                &&& after.waiting.last().reply is None
                &&& after.next_id == self.next_id + 1
                &&& after.focus == self.focus
            }),
    {
    }

    /// An answer is taken once: the request that it was for then waits without
    /// one. No other request is touched, and taking for a request that is gone
    /// changes nothing.
    pub proof fn law_an_answer_is_taken_once(self, id: u64, i: int)
        requires
            self.ids_are_ordered(),
            0 <= i < self.waiting.len(),
        ensures
            ({
                let after = self.taken(id);
                &&& after.waiting.len() == self.waiting.len()
                &&& after.waiting[i].id == self.waiting[i].id
                &&& after.waiting[i].want == self.waiting[i].want
                &&& self.waiting[i].id == id ==> after.waiting[i].reply is None
                &&& self.waiting[i].id != id ==> after.waiting[i].reply == self.waiting[i].reply
                &&& after.focus == self.focus && after.next_id == self.next_id
            }),
    {
        lemma_id_from(self.waiting, id, 0);
        let at = id_from(self.waiting, id, 0);
        if self.waiting[i].id == id {
            lemma_id_is(self.waiting, id, 0, i);
            if at < i {
                assert(self.waiting[at].id < self.waiting[i].id);
            }
            if i < at && at < self.waiting.len() {
                assert(self.waiting[i].id < self.waiting[at].id);
            }
        }
    }
}

proof fn lemma_id_is(w: Seq<Waiting>, id: u64, i: int, n: int)
    requires
        0 <= i <= n < w.len(),
        w[n].id == id,
    ensures
        i <= id_from(w, id, i) <= n,
    decreases n - i,
{
    if i < n && w[i].id != id {
        lemma_id_is(w, id, i + 1, n);
    }
}

} // verus!
