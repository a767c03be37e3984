use crate::types::Response;
use vstd::prelude::*;

verus! {

/// A consumer queue after one event arrives: the event goes to the back,
/// and when that overfills the queue its oldest event is dropped.
pub open spec fn bounded_push(q: Seq<Response>, e: Response, cap: nat) -> Seq<Response> {
    let grown = q.push(e);
    if grown.len() > cap {
        grown.drop_first()
    } else {
        grown
    }
}

/// A consumer queue after a run of events arrives, one by one.
pub open spec fn bounded_push_all(q: Seq<Response>, es: Seq<Response>, cap: nat) -> Seq<
    Response,
>
    decreases es.len(),
{
    if es.len() == 0 {
        q
    } else {
        bounded_push(bounded_push_all(q, es.drop_last(), cap), es.last(), cap)
    }
}

/// A subscription that never drains cannot hold anyone up: whatever its own
/// queue holds, even when full, a publish still puts the new event at the
/// back of every open queue. The full queue loses only its own oldest event,
/// and every queue stays within capacity.
pub proof fn lemma_slow_consumer_isolated(
    slow: Seq<Response>,
    other: Seq<Response>,
    e: Response,
    cap: nat,
)
    requires
        cap > 0,
        slow.len() == cap,
        other.len() <= cap,
    ensures
        bounded_push(slow, e, cap) == slow.drop_first().push(e),
        bounded_push(other, e, cap).len() <= cap,
        bounded_push(other, e, cap).last() == e,
        other.len() < cap ==> bounded_push(other, e, cap) == other.push(e),
{
    assert(slow.push(e).drop_first() =~= slow.drop_first().push(e));
}

/// A queue receives published events in the order they were published: it
/// always holds the newest `cap` events of what it held followed by what was
/// published, and all of them while they fit.
pub proof fn lemma_publish_order_kept(q: Seq<Response>, es: Seq<Response>, cap: nat)
    requires
        cap > 0,
        q.len() <= cap,
    ensures
        bounded_push_all(q, es, cap) == (q + es).skip(
            if q.len() + es.len() > cap { q.len() + es.len() - cap } else { 0 },
        ),
        q.len() + es.len() <= cap ==> bounded_push_all(q, es, cap) == q + es,
    decreases es.len(),
{
    if es.len() == 0 {
        assert(q + es =~= q);
        assert((q + es).skip(0) =~= q + es);
    } else {
        let prev = es.drop_last();
        lemma_publish_order_kept(q, prev, cap);
        let lp = q.len() + prev.len();
        let kp: int = if lp > cap { lp - cap } else { 0 };
        let k: int = if lp + 1 > cap { lp + 1 - cap } else { 0 };
        assert(q + es =~= (q + prev).push(es.last()));
        assert((q + prev).skip(kp).push(es.last()) =~= (q + es).skip(kp));
        if lp + 1 > cap {
            assert((q + es).skip(kp).drop_first() =~= (q + es).skip(k));
        }
        assert((q + es).skip(0) =~= q + es);
    }
}

/// The fan-out point: every published event is offered to every live
/// subscription, each of which holds at most `capacity` undelivered events.
pub struct Hub {
    capacity: usize,
    active: Vec<bool>,
    queues: Vec<Vec<Response>>,
}

impl Hub {
    pub closed spec fn cap(&self) -> nat {
        self.capacity as nat
    }

    /// Number of subscriptions ever made; ids are `0..slots()`.
    pub closed spec fn slots(&self) -> nat {
        self.active@.len()
    }

    /// Whether subscription `id` is still open.
    pub closed spec fn is_open(&self, id: int) -> bool {
        self.active@[id]
    }

    /// The undelivered events of subscription `id`, oldest first.
    pub closed spec fn pending(&self, id: int) -> Seq<Response> {
        self.queues@[id]@
    }

    pub closed spec fn wf(&self) -> bool {
        &&& self.capacity > 0
        &&& self.queues@.len() == self.active@.len()
        &&& forall|i: int|
            0 <= i < self.queues@.len() ==> (#[trigger] self.queues@[i])@.len() <= self.capacity
        &&& forall|i: int| 0 <= i < self.queues@.len() && !self.active@[i] ==> (
        #[trigger] self.queues@[i])@.len() == 0
    }

    /// A hub with no subscriptions, whose queues hold `capacity` events each.
    pub fn new(capacity: usize) -> (h: Hub)
        requires
            capacity > 0,
        ensures
            h.wf(),
            h.cap() == capacity,
            h.slots() == 0,
    {
        Hub { capacity, active: Vec::new(), queues: Vec::new() }
    }

    pub fn capacity(&self) -> (r: usize)
        ensures
            r == self.cap(),
    {
        self.capacity
    }

    /// Opens a subscription that sees every event published from now on.
    pub fn subscribe(&mut self) -> (id: usize)
        requires
            old(self).wf(),
        ensures
            final(self).wf(),
            id == old(self).slots(),
            final(self).slots() == old(self).slots() + 1,
            final(self).cap() == old(self).cap(),
            final(self).is_open(id as int),
            final(self).pending(id as int) == Seq::<Response>::empty(),
            forall|i: int|
                0 <= i < old(self).slots() ==> final(self).is_open(i) == old(self).is_open(i)
                    && final(self).pending(i) == old(self).pending(i),
    {
        let id = self.active.len();
        self.active.push(true);
        self.queues.push(Vec::new());
        proof {
            assert forall|i: int| 0 <= i < self.queues@.len() implies (
            #[trigger] self.queues@[i])@.len() <= self.capacity by {
                if i < id {
                    assert(self.queues@[i] == old(self).queues@[i]);
                }
            }
        }
        id
    }

    /// Closes subscription `id`; its undelivered events are discarded.
    pub fn unsubscribe(&mut self, id: usize)
        requires
            old(self).wf(),
            id < old(self).slots(),
        ensures
            final(self).wf(),
            final(self).slots() == old(self).slots(),
            final(self).cap() == old(self).cap(),
            !final(self).is_open(id as int),
            final(self).pending(id as int) == Seq::<Response>::empty(),
            forall|i: int|
                0 <= i < old(self).slots() && i != id ==> final(self).is_open(i) == old(
                    self,
                ).is_open(i) && final(self).pending(i) == old(self).pending(i),
    {
        self.active.set(id, false);
        self.queues.set(id, Vec::new());
    }

    /// Offers `e` to every open subscription. Never waits and never fails:
    /// with no subscription the event is dropped, and a full queue loses
    /// its oldest event.
    pub fn publish(&mut self, e: &Response)
        requires
            old(self).wf(),
        ensures
            final(self).wf(),
            final(self).slots() == old(self).slots(),
            final(self).cap() == old(self).cap(),
            forall|i: int|
                0 <= i < old(self).slots() ==> final(self).is_open(i) == old(self).is_open(i)
                    && final(self).pending(i) == if old(self).is_open(i) {
                    bounded_push(old(self).pending(i), *e, old(self).cap())
                } else {
                    old(self).pending(i)
                },
    {
        let n = self.queues.len();
        let mut i: usize = 0;
        while i < n
            invariant
                n == self.queues@.len() == old(self).queues@.len(),
                n == self.active@.len(),
                old(self).wf(),
                i <= n,
                self.active == old(self).active,
                self.capacity == old(self).capacity,
                self.capacity > 0,
                forall|j: int|
                    0 <= j < n ==> (#[trigger] self.queues@[j])@.len() <= self.capacity,
                forall|j: int|
                    0 <= j < n && !self.active@[j] ==> (#[trigger] self.queues@[j])@.len()
                        == 0,
                forall|j: int|
                    0 <= j < n ==> (#[trigger] self.queues@[j])@ == if j < i && self.active@[j] {
                        bounded_push(old(self).queues@[j]@, *e, self.capacity as nat)
                    } else {
                        old(self).queues@[j]@
                    },
            decreases n - i,
        {
            if self.active[i] {
                let mut q = Vec::new();
                std::mem::swap(&mut q, &mut self.queues[i]);
                q.push(e.duplicate());
                if q.len() > self.capacity {
                    q.remove(0);
                }
                proof {
                    assert(q@ == bounded_push(old(self).queues@[i as int]@, *e, self.capacity as nat));
                }
                self.queues.set(i, q);
            }
            i = i + 1;
        }
    }

    /// Publishes a run of events in order.
    pub fn publish_all(&mut self, es: &Vec<Response>)
        requires
            old(self).wf(),
        ensures
            final(self).wf(),
            final(self).slots() == old(self).slots(),
            final(self).cap() == old(self).cap(),
            forall|i: int|
                0 <= i < old(self).slots() ==> final(self).is_open(i) == old(self).is_open(i)
                    && final(self).pending(i) == if old(self).is_open(i) {
                    bounded_push_all(old(self).pending(i), es@, old(self).cap())
                } else {
                    old(self).pending(i)
                },
    {
        let mut k: usize = 0;
        while k < es.len()
            invariant
                self.wf(),
                k <= es@.len(),
                self.slots() == old(self).slots(),
                self.cap() == old(self).cap(),
                forall|i: int|
                    0 <= i < old(self).slots() ==> self.is_open(i) == old(self).is_open(i)
                        && self.pending(i) == if old(self).is_open(i) {
                        bounded_push_all(old(self).pending(i), es@.take(k as int), old(self).cap())
                    } else {
                        old(self).pending(i)
                    },
            decreases es@.len() - k,
        {
            proof {
                assert(es@.take(k + 1).drop_last() =~= es@.take(k as int));
            }
            self.publish(&es[k]);
            k = k + 1;
        }
        proof {
            assert(es@.take(es@.len() as int) =~= es@);
        }
    }

    /// Takes the oldest undelivered event of subscription `id`, if any.
    pub fn recv(&mut self, id: usize) -> (r: Option<Response>)
        requires
            old(self).wf(),
            id < old(self).slots(),
        ensures
            final(self).wf(),
            final(self).slots() == old(self).slots(),
            final(self).cap() == old(self).cap(),
            old(self).pending(id as int).len() == 0 ==> r is None && final(self).pending(
                id as int,
            ) == old(self).pending(id as int),
            old(self).pending(id as int).len() > 0 ==> r == Some(old(self).pending(id as int)[0])
                && final(self).pending(id as int) == old(self).pending(id as int).drop_first(),
            forall|i: int|
                0 <= i < old(self).slots() ==> final(self).is_open(i) == old(self).is_open(i),
            forall|i: int|
                0 <= i < old(self).slots() && i != id ==> final(self).pending(i) == old(
                    self,
                ).pending(i),
    {
        if self.queues[id].len() == 0 {
            return None;
        }
        let mut q = Vec::new();
        std::mem::swap(&mut q, &mut self.queues[id]);
        let e = q.remove(0);
        self.queues.set(id, q);
        Some(e)
    }

    /// Number of undelivered events of subscription `id`.
    pub fn pending_len(&self, id: usize) -> (r: usize)
        requires
            self.wf(),
            id < self.slots(),
        ensures
            r == self.pending(id as int).len(),
    {
        self.queues[id].len()
    }

    /// Whether subscription `id` is still open.
    pub fn open(&self, id: usize) -> (r: bool)
        requires
            self.wf(),
            id < self.slots(),
        ensures
            r == self.is_open(id as int),
    {
        self.active[id]
    }
}

} // verus!
