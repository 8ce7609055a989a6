//! The write-ahead wheel: a bounded buffer of the seconds ahead of the watermark.
use crate::aggregator::Aggregator;
use crate::entry::{Entry, Error};
use crate::ring::{capacity_to_slots, doubled_up_to, is_power_of_two, is_slot_count, round_up, MAX_SLOTS};
use crate::store::RingStore;
use vstd::prelude::*;

verus! {

/// Number of write-ahead slots of a wheel built without options.
pub const DEFAULT_WRITE_AHEAD_SLOTS: usize = 64;

/// Milliseconds in the second that one slot stands for.
pub const SLOT_MS: u64 = 1000;

/// What a write-ahead wheel holds: its watermark and, for each of the seconds
/// that follow it, the mutable partial of the entries inserted for that second.
pub struct WriteAheadView<A: Aggregator> {
    pub watermark: u64,
    pub pending: Seq<Option<A::MutablePartialAggregate>>,
}

/// The mutable partial of a slot after it took in `data`.
pub open spec fn combine_or_lift_spec<A: Aggregator>(
    slot: Option<A::MutablePartialAggregate>,
    data: A::Input,
) -> A::MutablePartialAggregate {
    match slot {
        Some(mutable) => A::combine_mutable_spec(mutable, data),
        None => A::lift_spec(data),
    }
}

impl<A: Aggregator> WriteAheadView<A> {
    /// Number of seconds the wheel can write ahead.
    pub open spec fn write_ahead_len(self) -> nat {
        self.pending.len()
    }

    /// The slot, counted from the watermark, that `timestamp` falls into.
    pub open spec fn offset_of(self, timestamp: u64) -> int {
        (timestamp - self.watermark) / 1000
    }

    /// `timestamp` is below the watermark.
    pub open spec fn is_late(self, timestamp: u64) -> bool {
        timestamp < self.watermark
    }

    /// `timestamp` lies at or beyond the write-ahead horizon.
    pub open spec fn overflows(self, timestamp: u64) -> bool {
        timestamp >= self.watermark && self.offset_of(timestamp) >= self.write_ahead_len()
    }

    /// The first timestamp beyond the write-ahead horizon.
    pub open spec fn max_write_ahead_ts(self) -> int {
        self.watermark + self.write_ahead_len() * 1000
    }

    /// The wheel after it took in an entry that is neither late nor beyond the horizon.
    pub open spec fn insert(self, entry: Entry<A::Input>) -> Self {
        let offset = self.offset_of(entry.timestamp);
        WriteAheadView {
            watermark: self.watermark,
            pending: self.pending.update(
                offset,
                Some(combine_or_lift_spec::<A>(self.pending[offset], entry.data)),
            ),
        }
    }

    /// The wheel after an insert of `entry`, taken in or turned down.
    pub open spec fn after_insert(self, entry: Entry<A::Input>) -> Self {
        if self.is_late(entry.timestamp) || self.overflows(entry.timestamp) {
            self
        } else {
            self.insert(entry)
        }
    }

    /// What an insert of `entry` returns.
    pub open spec fn insert_result(self, entry: Entry<A::Input>) -> Result<(), Error<A::Input>> {
        if self.is_late(entry.timestamp) {
            Err(Error::Late { entry, watermark: self.watermark })
        } else if self.overflows(entry.timestamp) {
            Err(Error::Overflow { entry, max_write_ahead_ts: self.max_write_ahead_ts() as u64 })
        } else {
            Ok(())
        }
    }

    /// What the next tick hands out: the mutable partial of the second that starts at the watermark.
    pub open spec fn front(self) -> Option<A::MutablePartialAggregate> {
        if self.pending.len() > 0 {
            self.pending[0]
        } else {
            None
        }
    }

    /// The wheel one second later.
    pub open spec fn tick(self) -> Self {
        WriteAheadView {
            watermark: (self.watermark + 1000) as u64,
            pending: if self.pending.len() > 0 {
                self.pending.drop_first().push(None)
            } else {
                self.pending
            },
        }
    }

    /// No entry is waiting in the wheel.
    pub open spec fn is_drained(self) -> bool {
        forall|i: int| 0 <= i < self.pending.len() ==> self.pending[i] is None
    }
}

/// A fixed-size wheel of the seconds ahead of the watermark. Entries may be
/// inserted out of order as long as they fall within its horizon.
pub struct WriteAheadWheel<A: Aggregator> {
    watermark: u64,
    capacity: usize,
    slots: RingStore<A::MutablePartialAggregate>,
}

impl<A: Aggregator> View for WriteAheadWheel<A> {
    type V = WriteAheadView<A>;

    closed spec fn view(&self) -> WriteAheadView<A> {
        WriteAheadView { watermark: self.watermark, pending: self.slots@.take(self.capacity as int) }
    }
}

impl<A: Aggregator> WriteAheadWheel<A> {
    /// The wheel's capacity is the number of its slots, a power of two, and
    /// none of them is marked as in use.
    pub closed spec fn wf(&self) -> bool {
        &&& self.slots.wf()
        &&& self.capacity == self.slots.slot_count()
        &&& self.slots.used() == 0
    }

    /// Number of seconds the wheel can hold: the capacity it was made with,
    /// rounded up to a power of two.
    pub closed spec fn capacity_spec(&self) -> nat {
        self.capacity as nat
    }

    /// Number of slots of the ring that holds the wheel.
    pub closed spec fn num_slots_spec(&self) -> nat {
        self.slots.slot_count()
    }

    /// What well-formedness says of the view.
    pub proof fn lemma_wf(&self)
        requires
            self.wf(),
        ensures
            self@.pending.len() == self.capacity_spec(),
            self.capacity_spec() == self.num_slots_spec(),
            is_slot_count(self.capacity_spec() as int),
            1 <= self.capacity_spec() <= MAX_SLOTS,
    {
        self.slots.lemma_wf();
    }

    /// A wheel that starts at `watermark` with [`DEFAULT_WRITE_AHEAD_SLOTS`] slots.
    pub fn with_watermark(watermark: u64) -> (wheel: Self)
        ensures
            wheel.wf(),
            wheel@.watermark == watermark,
            wheel@.pending == Seq::new(
                DEFAULT_WRITE_AHEAD_SLOTS as nat,
                |i: int| None::<A::MutablePartialAggregate>,
            ),
            wheel.capacity_spec() == DEFAULT_WRITE_AHEAD_SLOTS,
    {
        proof {
            reveal_with_fuel(doubled_up_to, 8);
            assert(round_up(DEFAULT_WRITE_AHEAD_SLOTS as nat) == DEFAULT_WRITE_AHEAD_SLOTS);
        }
        Self::with_capacity_and_watermark(DEFAULT_WRITE_AHEAD_SLOTS, watermark)
    }

    /// A wheel that starts at `watermark` and can write as many seconds
    /// ahead as `capacity` says, rounded up to a power of two.
    pub fn with_capacity_and_watermark(capacity: usize, watermark: u64) -> (wheel: Self)
        requires
            capacity <= MAX_SLOTS,
        ensures
            wheel.wf(),
            wheel@.watermark == watermark,
            wheel@.pending == Seq::new(
                round_up(capacity as nat),
                |i: int| None::<A::MutablePartialAggregate>,
            ),
            wheel.capacity_spec() == round_up(capacity as nat),
            wheel.num_slots_spec() == round_up(capacity as nat),
            is_slot_count(wheel.capacity_spec() as int),
            capacity <= wheel.capacity_spec(),
            wheel.position() == 0,
    {
        let num_slots = capacity_to_slots(capacity);
        let slots = RingStore::with_slots(num_slots);
        let wheel = WriteAheadWheel { watermark, capacity: num_slots, slots };
        proof {
            assert(wheel@.pending =~= Seq::new(
                num_slots as nat,
                |i: int| None::<A::MutablePartialAggregate>,
            ));
        }
        wheel
    }

    /// The current watermark.
    pub fn watermark(&self) -> (w: u64)
        ensures
            w == self@.watermark,
    {
        self.watermark
    }

    /// Number of seconds the wheel can hold: the capacity it was made with,
    /// rounded up to a power of two.
    pub fn capacity(&self) -> (c: usize)
        ensures
            c == self.capacity_spec(),
    {
        self.capacity
    }

    /// Number of slots of the ring that holds the wheel.
    pub fn num_slots(&self) -> (n: usize)
        requires
            self.wf(),
        ensures
            n == self.num_slots_spec(),
    {
        self.slots.num_slots()
    }

    /// Number of slots marked as in use: none, as head and tail move together.
    pub fn len(&self) -> (n: usize)
        requires
            self.wf(),
        ensures
            n == 0,
    {
        self.slots.len()
    }

    /// Position in the ring of the slot of the second that starts at the watermark.
    pub closed spec fn position(&self) -> nat {
        self.slots.tail_index()
    }

    /// Position of the ring's head, which is that of its tail.
    pub fn head(&self) -> (h: usize)
        requires
            self.wf(),
        ensures
            h == self.position(),
            h < self.num_slots_spec(),
    {
        proof {
            self.slots.lemma_wf();
        }
        self.slots.head()
    }

    /// Position of the ring's tail.
    pub fn tail(&self) -> (t: usize)
        requires
            self.wf(),
        ensures
            t == self.position(),
            t < self.num_slots_spec(),
    {
        self.slots.tail()
    }

    /// Moves the wheel one second on and hands out the slot of the second that has passed.
    pub fn tick(&mut self) -> (popped: Option<A::MutablePartialAggregate>)
        requires
            old(self).wf(),
            old(self)@.watermark + 1000 <= u64::MAX,
        ensures
            final(self).wf(),
            final(self)@ == old(self)@.tick(),
            popped == old(self)@.front(),
            final(self).capacity_spec() == old(self).capacity_spec(),
            final(self).num_slots_spec() == old(self).num_slots_spec(),
            final(self).position() == crate::ring::ring_index(
                old(self).position() as int,
                1,
                old(self).num_slots_spec() as int,
            ),
    {
        proof {
            self.slots.lemma_wf();
        }
        self.watermark = self.watermark + SLOT_MS;
        let popped = self.slots.take(0);
        self.slots.shift();
        proof {
            assert(self@.pending =~= old(self)@.tick().pending);
        }
        popped
    }

    /// Mutable access to the watermark, for a caller that skips seconds in
    /// which nothing is pending.
    pub(crate) fn watermark_mut(&mut self) -> (w: &mut u64)
        ensures
            *w == old(self)@.watermark,
            final(self)@ == (WriteAheadView::<A> {
                watermark: *final(w),
                pending: old(self)@.pending,
            }),
            old(self).wf() ==> final(self).wf(),
            final(self).capacity_spec() == old(self).capacity_spec(),
    {
        let ghost before = *self;
        let w = &mut self.watermark;
        proof {
            let after = after_borrow(*self);
            assert(after.slots == before.slots);
            assert(after.capacity == before.capacity);
        }
        w
    }

    /// Tells whether the wheel can write `addend` seconds ahead.
    pub fn can_write_ahead(&self, addend: u64) -> (b: bool)
        requires
            self.wf(),
        ensures
            b == (addend < self@.write_ahead_len()),
    {
        addend < self.write_ahead_len() as u64
    }

    /// Number of seconds the wheel can write ahead.
    pub fn write_ahead_len(&self) -> (n: usize)
        requires
            self.wf(),
        ensures
            n == self@.write_ahead_len(),
            n == self.capacity_spec(),
    {
        proof {
            self.slots.lemma_wf();
        }
        self.capacity - self.slots.len()
    }

    /// The mutable partial waiting `offset` seconds ahead of the watermark.
    pub fn at(&self, offset: usize) -> (slot: Option<&A::MutablePartialAggregate>)
        requires
            self.wf(),
        ensures
            offset < self@.pending.len() ==> slot == match self@.pending[offset as int] {
                Some(m) => Some(&m),
                None => None,
            },
            offset >= self@.pending.len() ==> slot is None,
    {
        proof {
            self.slots.lemma_wf();
        }
        if offset < self.capacity {
            self.slots.slot(offset).as_ref()
        } else {
            None
        }
    }

    /// Puts `data` into the slot `addend` seconds ahead of the watermark.
    fn write_ahead(&mut self, addend: u64, data: A::Input)
        requires
            old(self).wf(),
            addend < old(self)@.write_ahead_len(),
        ensures
            final(self).wf(),
            final(self)@.watermark == old(self)@.watermark,
            final(self)@.pending == old(self)@.pending.update(
                addend as int,
                Some(combine_or_lift_spec::<A>(old(self)@.pending[addend as int], data)),
            ),
            final(self).capacity_spec() == old(self).capacity_spec(),
            final(self).num_slots_spec() == old(self).num_slots_spec(),
            final(self).position() == old(self).position(),
    {
        proof {
            self.slots.lemma_wf();
        }
        self.combine_or_lift(addend as usize, data);
    }

    /// Combines `entry` into the slot at `idx`, or starts the slot with it.
    fn combine_or_lift(&mut self, idx: usize, entry: A::Input)
        requires
            old(self).wf(),
            idx < old(self)@.write_ahead_len(),
        ensures
            final(self).wf(),
            final(self)@.watermark == old(self)@.watermark,
            final(self)@.pending == old(self)@.pending.update(
                idx as int,
                Some(combine_or_lift_spec::<A>(old(self)@.pending[idx as int], entry)),
            ),
            final(self).capacity_spec() == old(self).capacity_spec(),
            final(self).num_slots_spec() == old(self).num_slots_spec(),
            final(self).position() == old(self).position(),
    {
        proof {
            self.slots.lemma_wf();
        }
        let slot = self.slots.slot_mut(idx);
        match slot.take() {
            Some(mut window) => {
                A::combine_mutable(&mut window, entry);
                *slot = Some(window);
            },
            None => {
                *slot = Some(A::lift(entry));
            },
        }
        proof {
            assert(self@.pending =~= old(self)@.pending.update(
                idx as int,
                Some(combine_or_lift_spec::<A>(old(self)@.pending[idx as int], entry)),
            ));
        }
    }

    /// Inserts an entry.
    ///
    /// An entry below the watermark is handed back as [`Error::Late`]. One
    /// whose second lies at or beyond the write-ahead horizon is handed back
    /// as [`Error::Overflow`], with the first timestamp beyond the horizon.
    /// Any other entry is taken into the slot of its second.
    pub fn insert(&mut self, entry: Entry<A::Input>) -> (result: Result<(), Error<A::Input>>)
        requires
            old(self).wf(),
        ensures
            final(self).wf(),
            final(self).capacity_spec() == old(self).capacity_spec(),
            old(self)@.is_late(entry.timestamp) ==> result == Err::<(), Error<A::Input>>(
                Error::Late { entry, watermark: old(self)@.watermark },
            ) && final(self)@ == old(self)@,
            old(self)@.overflows(entry.timestamp) ==> result == Err::<(), Error<A::Input>>(
                Error::Overflow {
                    entry,
                    max_write_ahead_ts: old(self)@.max_write_ahead_ts() as u64,
                },
            ) && final(self)@ == old(self)@ && old(self)@.max_write_ahead_ts() <= entry.timestamp,
            !old(self)@.is_late(entry.timestamp) && !old(self)@.overflows(entry.timestamp)
                ==> result is Ok && final(self)@ == old(self)@.insert(entry),
            result == old(self)@.insert_result(entry),
            final(self)@ == old(self)@.after_insert(entry),
            final(self).num_slots_spec() == old(self).num_slots_spec(),
            final(self).position() == old(self).position(),
    {
        let watermark = self.watermark;
        if entry.timestamp < watermark {
            Err(Error::Late { entry, watermark })
        } else {
            let diff: u64 = entry.timestamp - self.watermark;
            let seconds: u64 = diff / SLOT_MS;
            if self.can_write_ahead(seconds) {
                self.write_ahead(seconds, entry.data);
                Ok(())
            } else {
                let write_ahead_ms: u64 = self.write_ahead_len() as u64 * SLOT_MS;
                let max_write_ahead_ts: u64 = self.watermark + write_ahead_ms;
                Err(Error::Overflow { entry, max_write_ahead_ts })
            }
        }
    }

    /// Tells whether no entry is waiting in the wheel.
    pub fn is_drained(&self) -> (b: bool)
        requires
            self.wf(),
        ensures
            b == self@.is_drained(),
    {
        proof {
            self.slots.lemma_wf();
        }
        let mut i: usize = 0;
        while i < self.capacity
            invariant
                self.wf(),
                i <= self.capacity,
                self.capacity <= self.slots.slot_count(),
                self.slots@.len() == self.slots.slot_count(),
                self@.pending.len() == self.capacity,
                forall|j: int| 0 <= j < i ==> self@.pending[j] is None,
            decreases self.capacity - i,
        {
            let occupied = self.slots.slot(i).is_some();
            assert(self@.pending[i as int] == self.slots@[i as int]);
            if occupied {
                return false;
            }
            i += 1;
        }
        true
    }
}

impl<A: Aggregator> Default for WriteAheadWheel<A> {
    fn default() -> (wheel: Self)
        ensures
            wheel.wf(),
            wheel@.watermark == 0,
            wheel@.pending == Seq::new(
                DEFAULT_WRITE_AHEAD_SLOTS as nat,
                |i: int| None::<A::MutablePartialAggregate>,
            ),
    {
        Self::with_watermark(0)
    }
}

/// What a write-ahead wheel holds, as plain values: the form in which a
/// wheel is stored and restored.
pub struct WriteAheadParts<A: Aggregator> {
    pub watermark: u64,
    /// What is pending for each of the seconds ahead of the watermark, the next second first.
    pub pending: Vec<Option<A::MutablePartialAggregate>>,
}

impl<A: Aggregator> View for WriteAheadParts<A> {
    type V = WriteAheadView<A>;

    open spec fn view(&self) -> WriteAheadView<A> {
        WriteAheadView { watermark: self.watermark, pending: self.pending@ }
    }
}

impl<A: Aggregator> WriteAheadWheel<A> {
    /// What the wheel holds, as plain values. The wheel is used up.
    pub fn into_parts(self) -> (parts: WriteAheadParts<A>)
        requires
            self.wf(),
        ensures
            parts@ == self@,
            parts.pending@.len() <= MAX_SLOTS,
    {
        proof {
            self.lemma_wf();
            self.slots.lemma_wf();
        }
        let mut wheel = self;
        let mut pending: Vec<Option<A::MutablePartialAggregate>> = Vec::new();
        let mut i: usize = 0;
        while i < wheel.capacity
            invariant
                wheel.slots.wf(),
                wheel.capacity == self.capacity,
                wheel.watermark == self.watermark,
                wheel.capacity <= wheel.slots.slot_count(),
                wheel.slots@.len() == wheel.slots.slot_count(),
                wheel.slots@.len() == self.slots@.len(),
                i <= wheel.capacity,
                pending@.len() == i,
                forall|j: int| 0 <= j < i ==> pending@[j] == self.slots@[j],
                forall|j: int| i <= j < wheel.slots@.len() ==> wheel.slots@[j] == self.slots@[j],
            decreases wheel.capacity - i,
        {
            let slot = wheel.slots.take(i);
            pending.push(slot);
            i += 1;
        }
        proof {
            assert(pending@ =~= self@.pending);
        }
        WriteAheadParts { watermark: wheel.watermark, pending }
    }

    /// The wheel that holds what `parts` say, where the number of seconds
    /// that they speak of is a power of two that a wheel can hold.
    pub fn from_parts(parts: WriteAheadParts<A>) -> (wheel: Option<Self>)
        ensures
            wheel is Some <==> is_slot_count(parts.pending@.len() as int),
            wheel matches Some(w) ==> w.wf() && w@ == parts@ && w.capacity_spec()
                == parts.pending@.len(),
    {
        let WriteAheadParts { watermark, pending } = parts;
        let capacity = pending.len();
        if !is_power_of_two(capacity) {
            return None;
        }
        let mut wheel = WriteAheadWheel {
            watermark,
            capacity,
            slots: RingStore::with_slots(capacity),
        };
        let mut pending = pending;
        let ghost all = pending@;
        proof {
            wheel.slots.lemma_wf();
        }
        let mut i: usize = capacity;
        while i > 0
            invariant
                wheel.slots.wf(),
                wheel.capacity == capacity,
                wheel.watermark == watermark,
                capacity == all.len(),
                capacity == wheel.slots.slot_count(),
                wheel.slots@.len() == wheel.slots.slot_count(),
                wheel.slots.used() == 0,
                i <= capacity,
                pending@ == all.take(i as int),
                forall|j: int| i <= j < capacity ==> wheel.slots@[j] == all[j],
                forall|j: int| 0 <= j < i ==> wheel.slots@[j] is None,
            decreases i,
        {
            i -= 1;
            let taken = pending.pop();
            let slot = wheel.slots.slot_mut(i);
            *slot = match taken {
                Some(slot) => slot,
                None => None,
            };
            proof {
                assert(pending@ =~= all.take(i as int));
            }
        }
        proof {
            assert(wheel@.pending =~= all);
        }
        Some(wheel)
    }
}

} // verus!
