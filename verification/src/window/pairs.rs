//! The ring that keeps the partial aggregates of the pairs of a window.
use crate::aggregation::last_n;
use crate::aggregator::{fold_partials, Aggregator};
use crate::ring::{count, is_slot_count, ring_index, wrap_index};
use crate::store::RingStore;
use vstd::prelude::*;

verus! {

/// The pairs after one more was pushed onto a ring of `capacity` slots: the
/// oldest gives way where the ring is full.
pub open spec fn pushed<T>(pairs: Seq<T>, pair: T, capacity: nat) -> Seq<T> {
    if pairs.len() >= capacity {
        pairs.drop_first().push(pair)
    } else {
        pairs.push(pair)
    }
}

/// The pairs after the oldest was taken off.
pub open spec fn popped<T>(pairs: Seq<T>) -> Seq<T> {
    if pairs.len() > 0 {
        pairs.drop_first()
    } else {
        pairs
    }
}

/// A fixed-size ring of the partial aggregates of pairs, oldest first.
pub struct PairsWheel<A: Aggregator> {
    capacity: usize,
    slots: RingStore<A::PartialAggregate>,
}

impl<A: Aggregator> View for PairsWheel<A> {
    type V = Seq<A::PartialAggregate>;

    closed spec fn view(&self) -> Seq<A::PartialAggregate> {
        Seq::new(self.slots.used(), |i: int| self.slots@[i]->0)
    }
}

impl<A: Aggregator> PairsWheel<A> {
    /// The slots in use hold a pair each, and the others nothing.
    pub closed spec fn wf(&self) -> bool {
        &&& self.slots.wf()
        &&& self.capacity == self.slots.slot_count()
        &&& forall|i: int| 0 <= i < self.slots.used() ==> self.slots@[i] is Some
        &&& forall|i: int| self.slots.used() <= i < self.slots@.len() ==> self.slots@[i] is None
    }

    /// Number of slots of the ring.
    pub closed spec fn capacity_spec(&self) -> nat {
        self.capacity as nat
    }

    /// What well-formedness says of the view.
    pub proof fn lemma_wf(&self)
        requires
            self.wf(),
        ensures
            self@.len() <= self.capacity_spec(),
            is_slot_count(self.capacity_spec() as int),
    {
        self.slots.lemma_wf();
    }

    /// An empty ring of `capacity` slots, a power of two.
    pub fn with_capacity(capacity: usize) -> (wheel: Self)
        requires
            is_slot_count(capacity as int),
        ensures
            wheel.wf(),
            wheel.capacity_spec() == capacity,
            wheel@ == Seq::<A::PartialAggregate>::empty(),
    {
        let wheel = PairsWheel { capacity, slots: RingStore::with_slots(capacity) };
        proof {
            assert(wheel@ =~= Seq::<A::PartialAggregate>::empty());
        }
        wheel
    }

    /// Takes the oldest pair off the ring.
    pub fn tick(&mut self) -> (pair: Option<A::PartialAggregate>)
        requires
            old(self).wf(),
        ensures
            final(self).wf(),
            final(self).capacity_spec() == old(self).capacity_spec(),
            final(self)@ == popped(old(self)@),
            pair == if old(self)@.len() > 0 {
                Some(old(self)@[0])
            } else {
                None
            },
    {
        proof {
            self.slots.lemma_wf();
        }
        if !self.is_empty() {
            let pair = self.slots.take(0);
            self.slots.advance_tail();
            proof {
                assert(self@ =~= old(self)@.drop_first());
            }
            pair
        } else {
            None
        }
    }

    /// Tells whether the ring holds no pair.
    pub fn is_empty(&self) -> (b: bool)
        ensures
            b == (self@.len() == 0),
    {
        self.slots.is_empty()
    }

    /// Number of pairs on the ring.
    pub fn len(&self) -> (n: usize)
        ensures
            n == self@.len(),
    {
        self.slots.len()
    }

    /// Number of slots of the ring.
    pub fn capacity(&self) -> (n: usize)
        ensures
            n == self.capacity_spec(),
    {
        self.capacity
    }

    /// The pair `index` places after the oldest.
    pub fn get(&self, index: usize) -> (pair: A::PartialAggregate)
        requires
            self.wf(),
            index < self@.len(),
        ensures
            pair == self@[index as int],
    {
        proof {
            self.slots.lemma_wf();
        }
        match *self.slots.slot(index) {
            Some(pair) => pair,
            None => A::identity(),
        }
    }

    /// Puts `data` on the ring as its newest pair. Where the ring is full
    /// the oldest pair gives way.
    pub fn push(&mut self, data: A::PartialAggregate)
        requires
            old(self).wf(),
        ensures
            final(self).wf(),
            final(self).capacity_spec() == old(self).capacity_spec(),
            final(self)@ == pushed(old(self)@, data, old(self).capacity_spec()),
    {
        proof {
            self.slots.lemma_wf();
        }
        if self.slots.len() == self.capacity {
            let _ = self.slots.take(0);
            self.slots.advance_tail();
        }
        let len = self.slots.len();
        let slot = self.slots.slot_mut(len);
        *slot = Some(data);
        self.slots.advance_head();
        proof {
            assert(self@ =~= pushed(old(self)@, data, old(self).capacity_spec()));
        }
    }

    /// Combines the last `subtrahend` pairs, or all of them where the ring
    /// holds fewer, starting from the identity.
    pub fn interval(&self, subtrahend: usize) -> (r: Option<A::PartialAggregate>)
        requires
            self.wf(),
        ensures
            r == Some(fold_partials::<A>(last_n(self@, subtrahend as nat))),
    {
        proof {
            self.slots.lemma_wf();
        }
        let len = self.slots.len();
        let start = if subtrahend >= len {
            0
        } else {
            len - subtrahend
        };
        proof {
            assert(self@.subrange(0, len as int) =~= self@);
        }
        Some(self.combine_slots(start, len))
    }

    /// Combines the pairs from `start` up to `end`, starting from the identity.
    fn combine_slots(&self, start: usize, end: usize) -> (r: A::PartialAggregate)
        requires
            self.wf(),
            start <= end <= self@.len(),
        ensures
            r == fold_partials::<A>(self@.subrange(start as int, end as int)),
    {
        proof {
            self.slots.lemma_wf();
        }
        let mut acc = A::identity();
        let mut i: usize = start;
        while i < end
            invariant
                self.wf(),
                start <= i <= end,
                end <= self@.len(),
                acc == fold_partials::<A>(self@.subrange(start as int, i as int)),
            decreases end - i,
        {
            proof {
                assert(self@.subrange(start as int, i + 1).drop_last() =~= self@.subrange(
                    start as int,
                    i as int,
                ));
            }
            acc = A::combine(acc, self.get(i));
            i += 1;
        }
        acc
    }
}

/// A walk over the slots of a ring from `tail` up to `head`.
pub struct Iter<'a, A: Aggregator> {
    ring: &'a [Option<A::PartialAggregate>],
    tail: usize,
    head: usize,
}

impl<'a, A: Aggregator> Iter<'a, A> {
    /// The ring has a power of two of slots, and tail and head lie in it.
    pub closed spec fn wf(&self) -> bool {
        &&& is_slot_count(self.ring@.len() as int)
        &&& self.tail < self.ring@.len()
        &&& self.head < self.ring@.len()
    }

    /// The slots that are still to come, the next one first.
    pub closed spec fn remaining(&self) -> Seq<Option<A::PartialAggregate>> {
        Seq::new(
            (if self.head >= self.tail {
                self.head - self.tail
            } else {
                self.head + self.ring@.len() - self.tail
            }) as nat,
            |i: int| self.ring@[ring_index(self.tail as int, i, self.ring@.len() as int)],
        )
    }

    /// A walk over `ring` from `tail` up to `head`.
    pub fn new(ring: &'a [Option<A::PartialAggregate>], tail: usize, head: usize) -> (iter: Self)
        requires
            is_slot_count(ring@.len() as int),
            tail < ring@.len(),
            head < ring@.len(),
        ensures
            iter.wf(),
            iter.remaining() == Seq::new(
                (if head >= tail {
                    head - tail
                } else {
                    head + ring@.len() - tail
                }) as nat,
                |i: int| ring@[ring_index(tail as int, i, ring@.len() as int)],
            ),
    {
        Iter { ring, tail, head }
    }

    /// The next slot, if the walk has not reached the head.
    pub fn next(&mut self) -> (slot: Option<&'a Option<A::PartialAggregate>>)
        requires
            old(self).wf(),
        ensures
            final(self).wf(),
            old(self).remaining().len() == 0 ==> slot is None
                && final(self).remaining() == old(self).remaining(),
            old(self).remaining().len() > 0 ==> slot is Some
                && *slot->0 == old(self).remaining()[0]
                && final(self).remaining() == old(self).remaining().drop_first(),
    {
        if self.tail == self.head {
            return None;
        }
        let tail = self.tail;
        proof {
            crate::ring::lemma_slot_count_bounds(self.ring@.len() as int);
        }
        self.tail = wrap_index(self.tail + 1, self.ring.len());
        proof {
            let len = self.ring@.len() as int;
            if tail + 1 < len {
                vstd::arithmetic::div_mod::lemma_small_mod((tail + 1) as nat, len as nat);
            } else {
                vstd::arithmetic::div_mod::lemma_mod_self_0(len);
            }
            assert(self.remaining() =~= old(self).remaining().drop_first());
        }
        Some(&self.ring[tail])
    }

    /// Number of slots that are still to come, as a lower and an upper limit.
    pub fn size_hint(&self) -> (hint: (usize, Option<usize>))
        requires
            self.wf(),
        ensures
            hint.0 == self.remaining().len(),
            hint.1 == Some(hint.0),
    {
        let len = count(self.tail, self.head, self.ring.len());
        (len, Some(len))
    }
}

} // verus!
