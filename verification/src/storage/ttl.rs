//! The queue of pending expirations.
//!
//! Every write with a time to live leaves an event here. The queue is kept
//! ordered by expiry, latest first, so the events that are due stand at its
//! end and are taken off earliest first. An event may be stale (its key was
//! rewritten or removed since); whoever takes it off checks the live entry.

use vstd::prelude::*;

verus! {

/// A key and the instant at which its entry is due to expire.
#[derive(Debug)]
pub struct TtlEvent {
    pub key: String,
    pub expires_at: u64,
}

/// A [`TtlEvent`] as plain data.
pub struct TtlEventView {
    pub key: Seq<char>,
    pub expires_at: u64,
}

impl View for TtlEvent {
    type V = TtlEventView;

    open spec fn view(&self) -> TtlEventView {
        TtlEventView { key: self.key@, expires_at: self.expires_at }
    }
}

/// The views of a list of events.
pub open spec fn event_views(events: Seq<TtlEvent>) -> Seq<TtlEventView> {
    Seq::new(events.len(), |i: int| events[i]@)
}

/// The events are ordered by expiry, latest first.
pub open spec fn latest_first(events: Seq<TtlEventView>) -> bool {
    forall|i: int, j: int|
        0 <= i <= j < events.len() ==> events[i].expires_at >= events[j].expires_at
}

/// How many events expire strictly after `t`. In a queue ordered latest
/// first these are its front.
pub open spec fn later_than(events: Seq<TtlEventView>, t: u64) -> nat
    decreases events.len(),
{
    if events.len() == 0 {
        0
    } else {
        later_than(events.drop_last(), t) + if events.last().expires_at > t {
            1nat
        } else {
            0nat
        }
    }
}

/// In an ordered queue the events later than `t` are exactly the first
/// `later_than` ones.
pub proof fn lemma_later_than(events: Seq<TtlEventView>, t: u64)
    requires
        latest_first(events),
    ensures
        later_than(events, t) <= events.len(),
        forall|i: int| 0 <= i < later_than(events, t) ==> events[i].expires_at > t,
        forall|i: int| later_than(events, t) <= i < events.len() ==> events[i].expires_at <= t,
    decreases events.len(),
{
    if events.len() > 0 {
        let front = events.drop_last();
        assert forall|i: int, j: int| 0 <= i <= j < front.len() implies front[i].expires_at
            >= front[j].expires_at by {
            assert(front[i] == events[i] && front[j] == events[j]);
        }
        lemma_later_than(front, t);
        let n = later_than(front, t);
        if events.last().expires_at > t {
            assert forall|i: int| 0 <= i < front.len() implies front[i].expires_at > t by {
                assert(events[i].expires_at >= events[events.len() - 1].expires_at);
            }
            if n < front.len() {
                assert(front[n as int].expires_at <= t);
                assert(false);
            }
        } else {
            assert forall|i: int| n <= i < events.len() implies events[i].expires_at <= t by {
                if i < front.len() {
                    assert(front[i] == events[i]);
                }
            }
        }
        assert forall|i: int| 0 <= i < later_than(events, t) implies events[i].expires_at > t by {
            if i < front.len() {
                assert(front[i] == events[i]);
            }
        }
    }
}

pub struct TtlManager {
    queue: Vec<TtlEvent>,
}

impl TtlManager {
    #[verifier::type_invariant]
    spec fn inv(self) -> bool {
        latest_first(event_views(self.queue@))
    }

    /// The pending events, latest expiry first.
    pub closed spec fn events(&self) -> Seq<TtlEventView> {
        event_views(self.queue@)
    }

    pub fn new() -> (m: Self)
        ensures
            m.events() == Seq::<TtlEventView>::empty(),
    {
        let m = TtlManager { queue: Vec::new() };
        assert(event_views(m.queue@) =~= Seq::<TtlEventView>::empty());
        m
    }

    /// The number of pending events.
    pub fn len(&self) -> (n: usize)
        ensures
            n == self.events().len(),
            latest_first(self.events()),
    {
        proof {
            use_type_invariant(self);
        }
        self.queue.len()
    }

    /// Queues an event. It goes behind every event that expires later and
    /// before those that expire at the same instant or earlier.
    pub fn add(&mut self, key: String, expires_at: u64)
        ensures
            final(self).events() == old(self).events().insert(
                later_than(old(self).events(), expires_at) as int,
                TtlEventView { key: key@, expires_at },
            ),
            later_than(old(self).events(), expires_at) <= old(self).events().len(),
    {
        proof {
            use_type_invariant(&*self);
            lemma_later_than(self.events(), expires_at);
        }
        let ghost before = self.events();
        let ghost at = later_than(before, expires_at);
        let mut queue: Vec<TtlEvent> = Vec::new();
        core::mem::swap(&mut self.queue, &mut queue);
        let mut i: usize = queue.len();
        while i > 0 && queue[i - 1].expires_at <= expires_at
            invariant
                i <= queue@.len(),
                event_views(queue@) == before,
                at <= i,
                forall|j: int| 0 <= j < at ==> before[j].expires_at > expires_at,
                forall|j: int| at <= j < before.len() ==> before[j].expires_at <= expires_at,
            decreases i,
        {
            assert(before[i - 1] == queue@[i - 1]@);
            i = i - 1;
        }
        proof {
            if i > 0 {
                assert(before[i - 1] == queue@[i - 1]@);
            }
            assert(i == at);
        }
        let event = TtlEvent { key, expires_at };
        queue.insert(i, event);
        proof {
            let after = event_views(queue@);
            assert(after =~= before.insert(at as int, event@));
            assert forall|a: int, b: int| 0 <= a <= b < after.len() implies after[a].expires_at
                >= after[b].expires_at by {
                let a0 = if a < at { a } else { a - 1 };
                let b0 = if b < at { b } else { b - 1 };
                if a != at {
                    assert(after[a] == before[a0]);
                }
                if b != at {
                    assert(after[b] == before[b0]);
                }
            }
        }
        core::mem::swap(&mut self.queue, &mut queue);
    }

    /// Takes off every event that is due at `now`, earliest first. What
    /// stays are the events that expire strictly after `now`.
    pub fn pop_expired(&mut self, now: u64) -> (due: Vec<TtlEvent>)
        ensures
            later_than(old(self).events(), now) <= old(self).events().len(),
            final(self).events() == old(self).events().take(
                later_than(old(self).events(), now) as int,
            ),
            event_views(due@) == old(self).events().skip(
                later_than(old(self).events(), now) as int,
            ).reverse(),
            forall|i: int| 0 <= i < due@.len() ==> due@[i].expires_at <= now,
            forall|i: int|
                0 <= i < final(self).events().len() ==> final(self).events()[i].expires_at > now,
    {
        proof {
            use_type_invariant(&*self);
            lemma_later_than(self.events(), now);
        }
        let ghost before = self.events();
        let ghost keep = later_than(before, now);
        let mut queue: Vec<TtlEvent> = Vec::new();
        core::mem::swap(&mut self.queue, &mut queue);
        let mut due: Vec<TtlEvent> = Vec::new();
        assert(event_views(due@) =~= before.skip(before.len() as int).reverse());
        while queue.len() > 0 && queue[queue.len() - 1].expires_at <= now
            invariant
                keep <= queue@.len() <= before.len(),
                event_views(queue@) == before.take(queue@.len() as int),
                event_views(due@) == before.skip(queue@.len() as int).reverse(),
                forall|j: int| 0 <= j < keep ==> before[j].expires_at > now,
                forall|j: int| keep <= j < before.len() ==> before[j].expires_at <= now,
            decreases queue@.len(),
        {
            let ghost n = queue@.len();
            let ghost due_before = event_views(due@);
            assert(event_views(queue@)[n - 1] == queue@[n - 1]@);
            assert(before.take(n as int)[n - 1] == before[n - 1]);
            let event = queue.pop().unwrap();
            due.push(event);
            proof {
                assert(event_views(queue@) =~= before.take(n - 1));
                assert(event_views(due@) =~= due_before.push(before[n - 1]));
                assert(event_views(due@) =~= before.skip(n - 1).reverse());
            }
        }
        proof {
            let n = queue@.len();
            if n > 0 {
                assert(event_views(queue@)[n - 1] == queue@[n - 1]@);
                assert(before.take(n as int)[n - 1] == before[n - 1]);
            }
            assert(n == keep);
            let after = event_views(queue@);
            assert forall|a: int, b: int| 0 <= a <= b < after.len() implies after[a].expires_at
                >= after[b].expires_at by {
                assert(after[a] == before[a] && after[b] == before[b]);
            }
            assert forall|i: int| 0 <= i < due@.len() implies due@[i].expires_at <= now by {
                assert(event_views(due@)[i] == due@[i]@);
            }
        }
        core::mem::swap(&mut self.queue, &mut queue);
        due
    }
}

} // verus!
