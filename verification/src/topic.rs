//! Model of a bounded broadcast topic: every subscriber has an
//! independent cursor into the full publish history, and may read at most
//! `capacity` items of backlog. Publishing never blocks and never touches
//! any cursor; a subscriber that has fallen further behind than the
//! capacity loses the oldest unread items for itself alone, silently.
//!
//! `published` records the whole history so that delivery can be stated
//! exactly; the bound on live state is the bound on each subscriber's
//! reachable backlog, `pending`, which never exceeds the capacity.

use vstd::prelude::*;
use vstd::pervasive::VecAdditionalExecFns;

verus! {

/// One bounded broadcast topic.
pub struct Topic<T> {
    pub capacity: usize,
    pub published: Vec<T>,
    pub cursors: Vec<usize>,
}

/// Outcome of one non-blocking read: nothing new; the subscriber lagged
/// and the given number of items were dropped for it; or the item at the
/// given index of the publish history.
pub enum Recv {
    Empty,
    Lagged(usize),
    Msg(usize),
}

impl<T> Topic<T> {
    pub open spec fn wf(self) -> bool {
        &&& self.capacity >= 1
        &&& forall|s: int|
            0 <= s < self.cursors@.len() ==> self.cursors@[s] <= self.published@.len()
    }

    /// The oldest history index still within this subscriber's reach:
    /// its cursor, unless it has fallen further behind than the capacity.
    pub open spec fn oldest(self, sub: int) -> int {
        let len = self.published@.len() as int;
        let c = self.cursors@[sub] as int;
        if len - self.capacity > c {
            len - self.capacity
        } else {
            c
        }
    }

    /// What the subscriber observes if it now reads to exhaustion with
    /// no publish in between.
    pub open spec fn pending(self, sub: int) -> Seq<T> {
        self.published@.skip(self.oldest(sub))
    }

    /// A fresh topic with no history and no subscribers.
    pub fn new(capacity: usize) -> (t: Topic<T>)
        requires
            capacity >= 1,
        ensures
            t.wf(),
            t.capacity == capacity,
            t.published@ == Seq::<T>::empty(),
            t.cursors@ == Seq::<usize>::empty(),
    {
        let t = Topic { capacity, published: Vec::new(), cursors: Vec::new() };
        proof {
            assert(t.published@ =~= Seq::<T>::empty());
            assert(t.cursors@ =~= Seq::<usize>::empty());
        }
        t
    }

    /// Adds one subscriber, whose cursor starts at the current end of the
    /// history: it observes only what is published after it subscribed.
    pub fn subscribe(&mut self) -> (sub: usize)
        requires
            old(self).wf(),
        ensures
            final(self).wf(),
            sub == old(self).cursors@.len(),
            final(self).cursors@ == old(self).cursors@.push(
                old(self).published@.len() as usize,
            ),
            final(self).published == old(self).published,
            final(self).capacity == old(self).capacity,
            final(self).pending(sub as int) == Seq::<T>::empty(),
    {
        let sub = self.cursors.len();
        let len = self.published.len();
        self.cursors.push(len);
        proof {
            assert(self.pending(sub as int) =~= Seq::<T>::empty());
        }
        sub
    }

    /// Publishes one item. There is no precondition beyond
    /// well-formedness: the publisher never blocks and never waits for a
    /// slow subscriber. Every subscriber within the capacity gains the
    /// item at the end of its backlog; one already at the capacity also
    /// loses its oldest reachable item — its loss alone.
    pub fn publish(&mut self, m: T)
        requires
            old(self).wf(),
        ensures
            final(self).wf(),
            final(self).published@ == old(self).published@.push(m),
            final(self).cursors == old(self).cursors,
            final(self).capacity == old(self).capacity,
            forall|s: int|
                0 <= s < old(self).cursors@.len()
                    && old(self).published@.len() - old(self).cursors@[s]
                    < old(self).capacity ==> final(self).pending(s) == old(self).pending(
                    s,
                ).push(m),
            forall|s: int|
                0 <= s < old(self).cursors@.len()
                    && old(self).published@.len() - old(self).cursors@[s]
                    >= old(self).capacity ==> final(self).pending(s) == old(self).pending(
                    s,
                ).skip(1).push(m),
    {
        self.published.push(m);
        proof {
            assert forall|s: int|
                0 <= s < old(self).cursors@.len()
                    && old(self).published@.len() - old(self).cursors@[s]
                    < old(self).capacity implies self.pending(s) == old(self).pending(s).push(
                m,
            ) by {
                assert(self.oldest(s) == old(self).oldest(s));
                assert(self.pending(s) =~= old(self).pending(s).push(m));
            }
            assert forall|s: int|
                0 <= s < old(self).cursors@.len()
                    && old(self).published@.len() - old(self).cursors@[s]
                    >= old(self).capacity implies self.pending(s) == old(self).pending(s).skip(
                1,
            ).push(m) by {
                assert(self.oldest(s) == old(self).oldest(s) + 1);
                assert(self.pending(s) =~= old(self).pending(s).skip(1).push(m));
            }
        }
    }

    /// One non-blocking read by one subscriber. Nothing else moves: the
    /// history, the capacity and every other cursor stay as they were.
    /// If the subscriber is caught up, nothing is returned; if it lagged
    /// past the capacity, its cursor jumps to the oldest reachable item
    /// and the number skipped is reported; otherwise it receives the
    /// first item of its backlog, in publish order.
    pub fn try_next(&mut self, sub: usize) -> (r: Recv)
        requires
            old(self).wf(),
            sub < old(self).cursors@.len(),
        ensures
            final(self).wf(),
            final(self).published == old(self).published,
            final(self).capacity == old(self).capacity,
            final(self).cursors@.len() == old(self).cursors@.len(),
            forall|s: int|
                0 <= s < old(self).cursors@.len() && s != sub ==> final(self).cursors@[s]
                    == old(self).cursors@[s],
            ({
                let len = old(self).published@.len() as int;
                let c = old(self).cursors@[sub as int] as int;
                let cap = old(self).capacity as int;
                &&& (c >= len ==> r is Empty && *final(self) == *old(self)
                    && final(self).pending(sub as int) == Seq::<T>::empty())
                &&& (c < len && len - c > cap ==> r == Recv::Lagged(((len - cap) - c) as usize)
                    && final(self).cursors@[sub as int] == len - cap
                    && final(self).pending(sub as int) == old(self).pending(sub as int))
                &&& (c < len && len - c <= cap ==> r == Recv::Msg(c as usize)
                    && final(self).cursors@[sub as int] == c + 1
                    && old(self).pending(sub as int)[0] == old(self).published@[c]
                    && final(self).pending(sub as int) == old(self).pending(sub as int).skip(1))
            }),
    {
        let len = self.published.len();
        let c = self.cursors[sub];
        if c >= len {
            proof {
                assert(self.pending(sub as int) =~= Seq::<T>::empty());
            }
            Recv::Empty
        } else if len - c > self.capacity {
            let newc = len - self.capacity;
            self.cursors.set(sub, newc);
            proof {
                assert(self.pending(sub as int) =~= old(self).pending(sub as int));
            }
            Recv::Lagged(newc - c)
        } else {
            self.cursors.set(sub, c + 1);
            proof {
                assert(old(self).oldest(sub as int) == c);
                assert(self.pending(sub as int) =~= old(self).pending(sub as int).skip(1));
            }
            Recv::Msg(c)
        }
    }
}

/// A subscriber that is keeping up — at most `capacity` behind — has
/// lost nothing: its backlog is exactly every item published since its
/// cursor, in publish order. Together with `try_next`, which hands out
/// the backlog front to back, every such item is observed, in order.
pub proof fn lemma_keeping_up_observes_all<T>(t: Topic<T>, sub: int)
    requires
        t.wf(),
        0 <= sub < t.cursors@.len(),
        t.published@.len() - t.cursors@[sub] <= t.capacity,
    ensures
        t.pending(sub) == t.published@.skip(t.cursors@[sub] as int),
{
}

/// No subscriber can be made to buffer more than the capacity: the
/// reachable backlog is bounded however far the cursor has fallen behind.
pub proof fn lemma_backlog_bounded<T>(t: Topic<T>, sub: int)
    requires
        t.wf(),
        0 <= sub < t.cursors@.len(),
    ensures
        t.pending(sub).len() <= t.capacity,
{
}

/// A slow subscriber is isolated: what one subscriber has (or has not)
/// read has no bearing on what any other subscriber observes. Two topics
/// that differ only in the slow subscriber's cursor give every other
/// subscriber the same backlog — and `publish` has no precondition on any
/// cursor, so the slow subscriber never stalls the publisher either.
pub proof fn lemma_slow_subscriber_isolated<T>(
    t1: Topic<T>,
    t2: Topic<T>,
    slow: int,
    active: int,
)
    requires
        t1.wf(),
        t2.wf(),
        t1.capacity == t2.capacity,
        t1.published == t2.published,
        t1.cursors@.len() == t2.cursors@.len(),
        0 <= slow < t1.cursors@.len(),
        0 <= active < t1.cursors@.len(),
        active != slow,
        forall|s: int|
            0 <= s < t1.cursors@.len() && s != slow ==> t1.cursors@[s] == t2.cursors@[s],
    ensures
        t1.pending(active) == t2.pending(active),
{
}

} // verus!
