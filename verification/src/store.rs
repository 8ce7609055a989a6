//! The ring of optional slots that every wheel keeps its data in.
use crate::ring::{is_slot_count, lemma_slot_count_bounds, ring_index, wrap_add};
use vstd::prelude::*;

verus! {

/// A ring of optional slots. Its slot count is a power of two; `len` slots,
/// from `tail` up to `head`, are in use.
pub struct RingStore<T> {
    slots: Vec<Option<T>>,
    tail: usize,
    head: usize,
    len: usize,
}

impl<T> View for RingStore<T> {
    type V = Seq<Option<T>>;

    /// The slots in ring order, the slot at `tail` first.
    closed spec fn view(&self) -> Seq<Option<T>> {
        Seq::new(
            self.slots@.len(),
            |i: int| self.slots@[ring_index(self.tail as int, i, self.slots@.len() as int)],
        )
    }
}

impl<T> RingStore<T> {
    /// The ring's indices are consistent with one another.
    pub closed spec fn wf(&self) -> bool {
        &&& is_slot_count(self.slots@.len() as int)
        &&& self.tail < self.slots@.len()
        &&& self.len <= self.slots@.len()
        &&& self.head == ring_index(self.tail as int, self.len as int, self.slots@.len() as int)
        &&& self.head < self.slots@.len()
    }

    /// Number of slots in use.
    pub closed spec fn used(&self) -> nat {
        self.len as nat
    }

    /// Number of slots of the ring.
    pub closed spec fn slot_count(&self) -> nat {
        self.slots@.len()
    }

    /// Position of the first slot in use.
    pub closed spec fn tail_index(&self) -> nat {
        self.tail as nat
    }

    /// Position of the slot after the last one in use.
    pub closed spec fn head_index(&self) -> nat {
        self.head as nat
    }

    /// What well-formedness says of the view.
    pub proof fn lemma_wf(&self)
        requires
            self.wf(),
        ensures
            self@.len() == self.slot_count(),
            is_slot_count(self.slot_count() as int),
            1 <= self.slot_count() <= crate::ring::MAX_SLOTS,
            self.used() <= self.slot_count(),
            self.tail_index() < self.slot_count(),
            self.head_index() == ring_index(
                self.tail_index() as int,
                self.used() as int,
                self.slot_count() as int,
            ),
    {
        lemma_slot_count_bounds(self.slots@.len() as int);
    }

    /// A ring of `num_slots` empty slots.
    pub fn with_slots(num_slots: usize) -> (ring: Self)
        requires
            is_slot_count(num_slots as int),
        ensures
            ring.wf(),
            ring.slot_count() == num_slots,
            ring.used() == 0,
            ring.tail_index() == 0,
            ring.head_index() == 0,
            ring@ == Seq::new(num_slots as nat, |i: int| None::<T>),
    {
        let mut slots: Vec<Option<T>> = Vec::new();
        let mut i: usize = 0;
        while i < num_slots
            invariant
                i <= num_slots,
                slots@.len() == i,
                forall|j: int| 0 <= j < i ==> slots@[j] is None,
            decreases num_slots - i,
        {
            slots.push(None);
            i += 1;
        }
        let ring = RingStore { slots, tail: 0, head: 0, len: 0 };
        proof {
            lemma_slot_count_bounds(num_slots as int);
            assert(ring@ =~= Seq::new(num_slots as nat, |i: int| None::<T>));
        }
        ring
    }

    /// Number of slots of the ring.
    pub fn num_slots(&self) -> (n: usize)
        requires
            self.wf(),
        ensures
            n == self.slot_count(),
    {
        self.slots.len()
    }

    /// Number of slots in use.
    pub fn len(&self) -> (n: usize)
        ensures
            n == self.used(),
    {
        self.len
    }

    /// Tells whether no slot is in use.
    pub fn is_empty(&self) -> (b: bool)
        ensures
            b == (self.used() == 0),
    {
        self.len == 0
    }

    /// Position of the slot after the last one in use.
    pub fn head(&self) -> (h: usize)
        requires
            self.wf(),
        ensures
            h == self.head_index(),
            h < self.slot_count(),
    {
        self.head
    }

    /// Position of the first slot in use.
    pub fn tail(&self) -> (t: usize)
        requires
            self.wf(),
        ensures
            t == self.tail_index(),
            t < self.slot_count(),
    {
        self.tail
    }

    /// The slot `offset` places after the tail.
    pub fn slot(&self, offset: usize) -> (s: &Option<T>)
        requires
            self.wf(),
            offset < self.slot_count(),
        ensures
            *s == self@[offset as int],
    {
        let idx = wrap_add(self.tail, offset, self.slots.len());
        &self.slots[idx]
    }

    /// Mutable access to the slot `offset` places after the tail.
    pub fn slot_mut(&mut self, offset: usize) -> (s: &mut Option<T>)
        requires
            old(self).wf(),
            offset < old(self).slot_count(),
        ensures
            *s == old(self)@[offset as int],
            final(self).wf(),
            final(self)@ == old(self)@.update(offset as int, *final(s)),
            final(self).used() == old(self).used(),
            final(self).slot_count() == old(self).slot_count(),
            final(self).tail_index() == old(self).tail_index(),
            final(self).head_index() == old(self).head_index(),
    {
        let idx = wrap_add(self.tail, offset, self.slots.len());
        let ghost before = *self;
        let s = &mut self.slots[idx];
        proof {
            let after = after_borrow(*self);
            assert(after.slots@ == before.slots@.update(idx as int, *final(s)));
            assert(after@ =~= before@.update(offset as int, *final(s)));
        }
        s
    }

    /// Empties the slot `offset` places after the tail and returns what it held.
    pub fn take(&mut self, offset: usize) -> (taken: Option<T>)
        requires
            old(self).wf(),
            offset < old(self).slot_count(),
        ensures
            taken == old(self)@[offset as int],
            final(self).wf(),
            final(self)@ == old(self)@.update(offset as int, None),
            final(self).used() == old(self).used(),
            final(self).slot_count() == old(self).slot_count(),
            final(self).tail_index() == old(self).tail_index(),
            final(self).head_index() == old(self).head_index(),
    {
        let s = self.slot_mut(offset);
        s.take()
    }

    /// Takes the slot at the head into use.
    pub fn advance_head(&mut self)
        requires
            old(self).wf(),
            old(self).used() < old(self).slot_count(),
        ensures
            final(self).wf(),
            final(self)@ == old(self)@,
            final(self).used() == old(self).used() + 1,
            final(self).slot_count() == old(self).slot_count(),
            final(self).tail_index() == old(self).tail_index(),
            final(self).head_index() == ring_index(
                old(self).head_index() as int,
                1,
                old(self).slot_count() as int,
            ),
    {
        self.head = wrap_add(self.head, 1, self.slots.len());
        self.len = self.len + 1;
        proof {
            assert(self@ =~= old(self)@);
        }
    }

    /// Gives up the slot at the tail: the ring then starts one slot later,
    /// and the slot given up comes last in ring order.
    pub fn advance_tail(&mut self)
        requires
            old(self).wf(),
            old(self).used() > 0,
        ensures
            final(self).wf(),
            final(self)@ == old(self)@.drop_first().push(old(self)@[0]),
            final(self).used() == old(self).used() - 1,
            final(self).slot_count() == old(self).slot_count(),
            final(self).head_index() == old(self).head_index(),
            final(self).tail_index() == ring_index(
                old(self).tail_index() as int,
                1,
                old(self).slot_count() as int,
            ),
    {
        self.tail = wrap_add(self.tail, 1, self.slots.len());
        self.len = self.len - 1;
        proof {
            assert(self@ =~= old(self)@.drop_first().push(old(self)@[0]));
        }
    }

    /// Moves tail and head one slot on: the number of slots in use stays,
    /// and the slot that was first comes last in ring order.
    pub fn shift(&mut self)
        requires
            old(self).wf(),
        ensures
            final(self).wf(),
            final(self)@ == old(self)@.drop_first().push(old(self)@[0]),
            final(self).used() == old(self).used(),
            final(self).slot_count() == old(self).slot_count(),
            final(self).tail_index() == ring_index(
                old(self).tail_index() as int,
                1,
                old(self).slot_count() as int,
            ),
            final(self).head_index() == ring_index(
                old(self).head_index() as int,
                1,
                old(self).slot_count() as int,
            ),
    {
        self.tail = wrap_add(self.tail, 1, self.slots.len());
        self.head = wrap_add(self.head, 1, self.slots.len());
        proof {
            assert(self@ =~= old(self)@.drop_first().push(old(self)@[0]));
        }
    }
}

} // verus!
