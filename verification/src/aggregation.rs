//! The aggregation wheel: a ring of partial aggregates of one granularity.
use crate::aggregator::{combine_opt, combine_or_keep, fold_opt, or_identity, Aggregator};
use crate::ring::{capacity_to_slots, MAX_SLOTS};
use crate::store::RingStore;
use vstd::prelude::*;

verus! {

/// What a wheel hands to the next coarser wheel when it has gone round once.
pub struct RotationData<A: Aggregator> {
    /// The combination of everything inserted during the rotation.
    pub total: Option<A::PartialAggregate>,
    /// The wheel's slots at the moment of rotation, if it keeps drill-down data.
    pub drill_down_slots: Option<Vec<A::PartialAggregate>>,
}

/// The view of the drill-down data of one slot.
pub open spec fn drill_view<A: Aggregator>(drill: Option<Vec<A::PartialAggregate>>) -> Option<
    Seq<A::PartialAggregate>,
> {
    match drill {
        Some(v) => Some(v@),
        None => None,
    }
}

/// What an aggregation wheel holds.
pub struct WheelView<A: Aggregator> {
    /// Number of ticks that make one rotation, and the most slots the wheel keeps.
    pub capacity: nat,
    /// The completed slots, oldest first.
    pub slots: Seq<Option<A::PartialAggregate>>,
    /// The slot that is being filled.
    pub head: Option<A::PartialAggregate>,
    /// The combination of everything inserted since the last rotation.
    pub total: Option<A::PartialAggregate>,
    /// Number of ticks since the last rotation.
    pub rotation_count: nat,
    /// Whether the wheel keeps drill-down data.
    pub drill_down: bool,
    /// The drill-down data of the completed slots, oldest first.
    pub drills: Seq<Option<Seq<A::PartialAggregate>>>,
    /// The drill-down data of the slot that is being filled.
    pub head_drill: Option<Seq<A::PartialAggregate>>,
}

/// The slots as partials, an empty slot standing for the identity.
pub open spec fn slots_or_identity<A: Aggregator>(slots: Seq<Option<A::PartialAggregate>>) -> Seq<
    A::PartialAggregate,
> {
    Seq::new(slots.len(), |i: int| or_identity::<A>(slots[i]))
}

/// The last `n` elements of `s`, or all of them where it has fewer.
pub open spec fn last_n<T>(s: Seq<T>, n: nat) -> Seq<T> {
    if n >= s.len() {
        s
    } else {
        s.subrange(s.len() - n, s.len() as int)
    }
}

/// Element-wise combination of `a` with `b`, as far as `b` reaches.
pub open spec fn zip_combine<A: Aggregator>(
    a: Seq<A::PartialAggregate>,
    b: Seq<A::PartialAggregate>,
) -> Seq<A::PartialAggregate> {
    Seq::new(
        a.len(),
        |i: int|
            if i < b.len() {
                A::combine_spec(a[i], b[i])
            } else {
                a[i]
            },
    )
}

/// Combination of two optional drill-down vectors, an absent one being neutral.
pub open spec fn merge_drill<A: Aggregator>(
    a: Option<Seq<A::PartialAggregate>>,
    b: Option<Seq<A::PartialAggregate>>,
) -> Option<Seq<A::PartialAggregate>> {
    match (a, b) {
        (Some(x), Some(y)) => Some(zip_combine::<A>(x, y)),
        (None, Some(_)) => b,
        _ => a,
    }
}

/// Element-wise combination of the drill-down vectors that are present, first to last.
pub open spec fn fold_drills<A: Aggregator>(drills: Seq<Option<Seq<A::PartialAggregate>>>) -> Option<
    Seq<A::PartialAggregate>,
>
    decreases drills.len(),
{
    if drills.len() == 0 {
        None
    } else {
        merge_drill::<A>(fold_drills::<A>(drills.drop_last()), drills.last())
    }
}

impl<A: Aggregator> WheelView<A> {
    /// The parts of the view fit together.
    pub open spec fn wf(self) -> bool {
        &&& 1 <= self.capacity < MAX_SLOTS
        &&& self.slots.len() <= self.capacity
        &&& self.rotation_count < self.capacity
        &&& self.drills.len() == self.slots.len()
        &&& !self.drill_down ==> self.head_drill is None && forall|i: int|
            0 <= i < self.drills.len() ==> self.drills[i] is None
    }

    /// A wheel in which nothing has happened yet.
    pub open spec fn empty(capacity: nat, drill_down: bool) -> Self {
        WheelView {
            capacity,
            slots: Seq::empty(),
            head: None,
            total: None,
            rotation_count: 0,
            drill_down,
            drills: Seq::empty(),
            head_drill: None,
        }
    }

    /// Number of completed slots.
    pub open spec fn len(self) -> nat {
        self.slots.len()
    }

    /// The wheel keeps as many slots as it can and nothing is in any of them.
    pub open spec fn is_blank(self) -> bool {
        &&& self.slots.len() == self.capacity
        &&& self.drills.len() == self.capacity
        &&& forall|i: int| 0 <= i < self.slots.len() ==> self.slots[i] is None
        &&& forall|i: int| 0 <= i < self.drills.len() ==> self.drills[i] is None
        &&& self.head is None
        &&& self.head_drill is None
        &&& self.total is None
    }

    /// The wheel after `partial` was combined into the slot that is being filled.
    pub open spec fn insert_head(self, partial: A::PartialAggregate) -> Self {
        WheelView {
            head: combine_opt::<A>(self.head, Some(partial)),
            total: combine_opt::<A>(self.total, Some(partial)),
            ..self
        }
    }

    /// The wheel after it took in what the next finer wheel handed up.
    pub open spec fn insert_rotation_data(
        self,
        total: Option<A::PartialAggregate>,
        drill: Option<Seq<A::PartialAggregate>>,
    ) -> Self {
        let inserted = match total {
            Some(partial) => self.insert_head(partial),
            None => self,
        };
        if self.drill_down {
            WheelView { head_drill: drill, ..inserted }
        } else {
            inserted
        }
    }

    /// The completed slots once the slot that is being filled has joined them.
    pub open spec fn slots_after_tick(self) -> Seq<Option<A::PartialAggregate>> {
        if self.slots.len() >= self.capacity {
            self.slots.drop_first().push(self.head)
        } else {
            self.slots.push(self.head)
        }
    }

    /// The drill-down data of the completed slots after a tick.
    pub open spec fn drills_after_tick(self) -> Seq<Option<Seq<A::PartialAggregate>>> {
        if self.slots.len() >= self.capacity {
            self.drills.drop_first().push(self.head_drill)
        } else {
            self.drills.push(self.head_drill)
        }
    }

    /// The next tick completes a rotation.
    pub open spec fn rotates(self) -> bool {
        self.rotation_count + 1 == self.capacity
    }

    /// The total that the next tick hands up, if it completes a rotation.
    pub open spec fn rotation_total(self) -> Option<A::PartialAggregate> {
        self.total
    }

    /// The drill-down vector that the next tick hands up, if it completes a rotation.
    pub open spec fn rotation_drill(self) -> Option<Seq<A::PartialAggregate>> {
        if self.drill_down {
            Some(slots_or_identity::<A>(self.slots_after_tick()))
        } else {
            None
        }
    }

    /// The wheel one tick later.
    pub open spec fn tick(self) -> Self {
        WheelView {
            capacity: self.capacity,
            slots: self.slots_after_tick(),
            head: None,
            total: if self.rotates() {
                None
            } else {
                self.total
            },
            rotation_count: if self.rotates() {
                0
            } else {
                self.rotation_count + 1
            },
            drill_down: self.drill_down,
            drills: self.drills_after_tick(),
            head_drill: None,
        }
    }

    /// The wheel `n` ticks later, nothing being inserted in between.
    pub open spec fn ticks(self, n: nat) -> Self
        decreases n,
    {
        if n == 0 {
            self
        } else {
            self.ticks((n - 1) as nat).tick()
        }
    }

    /// Combination of the last `n` completed slots; nothing where `n` exceeds the capacity.
    pub open spec fn interval(self, n: nat) -> Option<A::PartialAggregate> {
        if n > self.capacity {
            None
        } else {
            fold_opt::<A>(last_n(self.slots, n))
        }
    }

    /// The total where `n` reaches back to the last rotation or beyond, else the interval.
    pub open spec fn interval_or_total(self, n: nat) -> Option<A::PartialAggregate> {
        if n >= self.rotation_count {
            self.total
        } else {
            self.interval(n)
        }
    }

    /// Where a range that is to end at `end` ends: at `end`, or with the
    /// completed slots where there are fewer.
    pub open spec fn range_end(self, end: nat) -> int {
        if end <= self.slots.len() {
            end as int
        } else {
            self.slots.len() as int
        }
    }

    /// Where a range from `start` up to `end` starts: at `start`, or where it ends if that is before.
    pub open spec fn range_start(self, start: nat, end: nat) -> int {
        if start <= self.range_end(end) {
            start as int
        } else {
            self.range_end(end)
        }
    }

    /// Combination of the completed slots from `start` up to `end`, counted
    /// from the oldest, as far as there are such slots.
    pub open spec fn combine_range(self, start: nat, end: nat) -> Option<A::PartialAggregate> {
        fold_opt::<A>(self.slots.subrange(self.range_start(start, end), self.range_end(end)))
    }

    /// Element-wise combination of the drill-down data of the completed
    /// slots from `start` up to `end`, counted from the oldest, as far as
    /// there are such slots; empty where none of them has any.
    pub open spec fn drill_down_range(self, start: nat, end: nat) -> Seq<A::PartialAggregate> {
        match fold_drills::<A>(
            self.drills.subrange(self.range_start(start, end), self.range_end(end)),
        ) {
            Some(combined) => combined,
            None => Seq::empty(),
        }
    }

    /// The drill-down data of the slot `slot` places before the one that is being filled.
    pub open spec fn drill_down(self, slot: nat) -> Option<Seq<A::PartialAggregate>> {
        if slot == 0 {
            self.head_drill
        } else if slot <= self.drills.len() {
            self.drills[self.drills.len() - slot]
        } else {
            None
        }
    }

    /// The wheel with nothing in it.
    pub open spec fn clear(self) -> Self {
        Self::empty(self.capacity, self.drill_down)
    }

    /// The wheel after `other` was merged into it: slots and drill-down data
    /// are combined pairwise, the newest with the newest, as far as the
    /// wheel's own slots reach; the totals are combined.
    pub open spec fn merge(self, other: Self) -> Self {
        WheelView {
            capacity: self.capacity,
            slots: Seq::new(
                self.slots.len(),
                |i: int| combine_opt::<A>(self.slots[i], other.aligned_slot(self.slots.len() - i)),
            ),
            head: combine_opt::<A>(self.head, other.head),
            total: combine_opt::<A>(self.total, other.total),
            rotation_count: self.rotation_count,
            drill_down: self.drill_down,
            drills: Seq::new(
                self.drills.len(),
                |i: int|
                    if self.drill_down {
                        merge_drill::<A>(self.drills[i], other.drill_down((self.drills.len() - i) as nat))
                    } else {
                        None
                    },
            ),
            head_drill: if self.drill_down {
                merge_drill::<A>(self.head_drill, other.head_drill)
            } else {
                None
            },
        }
    }

    /// The completed slot `back` places before the one that is being filled, if there is one.
    pub open spec fn aligned_slot(self, back: int) -> Option<A::PartialAggregate> {
        if 1 <= back <= self.slots.len() {
            self.slots[self.slots.len() - back]
        } else {
            None
        }
    }
}

/// A ring of partial aggregates of one granularity. Partials are combined
/// into the slot at its head; a tick completes that slot, and every
/// `capacity` ticks the wheel hands up what it gathered in that rotation.
pub struct AggregationWheel<A: Aggregator> {
    capacity: usize,
    slots: RingStore<A::PartialAggregate>,
    drill_down_slots: Option<RingStore<Vec<A::PartialAggregate>>>,
    total: Option<A::PartialAggregate>,
    rotation_count: usize,
    /// Set when the wheel is known to be blank, so that skipping ticks takes no work.
    blank: bool,
}

impl<A: Aggregator> View for AggregationWheel<A> {
    type V = WheelView<A>;

    closed spec fn view(&self) -> WheelView<A> {
        let used = self.slots.used() as int;
        WheelView {
            capacity: self.capacity as nat,
            slots: self.slots@.take(used),
            head: self.slots@[used],
            total: self.total,
            rotation_count: self.rotation_count as nat,
            drill_down: self.drill_down_slots is Some,
            drills: match self.drill_down_slots {
                Some(ring) => Seq::new(used as nat, |i: int| drill_view::<A>(ring@[i])),
                None => Seq::new(used as nat, |i: int| None),
            },
            head_drill: match self.drill_down_slots {
                Some(ring) => drill_view::<A>(ring@[used]),
                None => None,
            },
        }
    }
}

impl<A: Aggregator> AggregationWheel<A> {
    /// The ring has a free slot for the head, and every slot beyond the head is empty.
    pub closed spec fn wf(&self) -> bool {
        &&& self.slots.wf()
        &&& 1 <= self.capacity < self.slots.slot_count()
        &&& self.slots.used() <= self.capacity
        &&& self.rotation_count < self.capacity
        &&& forall|i: int| self.slots.used() < i < self.slots@.len() ==> self.slots@[i] is None
        &&& self.drill_down_slots matches Some(ring) ==> {
            &&& ring.wf()
            &&& ring.slot_count() == self.slots.slot_count()
            &&& ring.used() == self.slots.used()
            &&& forall|i: int| ring.used() < i < ring@.len() ==> ring@[i] is None
        }
        &&& self.blank ==> self@.is_blank()
    }

    /// A well-formed wheel has a well-formed view.
    pub proof fn lemma_wf(&self)
        requires
            self.wf(),
        ensures
            self@.wf(),
    {
        self.slots.lemma_wf();
        if self.drill_down_slots is Some {
            self.drill_down_slots->0.lemma_wf();
        }
    }

    /// An empty wheel of `capacity` slots.
    pub fn with_capacity(capacity: usize) -> (wheel: Self)
        requires
            1 <= capacity < MAX_SLOTS,
        ensures
            wheel.wf(),
            wheel@ == WheelView::<A>::empty(capacity as nat, false),
    {
        Self::new(capacity, false)
    }

    /// An empty wheel of `capacity` slots that keeps drill-down data.
    pub fn with_capacity_and_drill_down(capacity: usize) -> (wheel: Self)
        requires
            1 <= capacity < MAX_SLOTS,
        ensures
            wheel.wf(),
            wheel@ == WheelView::<A>::empty(capacity as nat, true),
    {
        Self::new(capacity, true)
    }

    /// An empty wheel of `capacity` slots, in a ring with one slot more than that at least.
    fn new(capacity: usize, drill_down: bool) -> (wheel: Self)
        requires
            1 <= capacity < MAX_SLOTS,
        ensures
            wheel.wf(),
            wheel@ == WheelView::<A>::empty(capacity as nat, drill_down),
            wheel.capacity == capacity,
            wheel.rotation_count == 0,
            wheel.total is None,
            !wheel.blank,
            wheel.slots.used() == 0,
            forall|j: int| 0 <= j < wheel.slots@.len() ==> wheel.slots@[j] is None,
            wheel.drill_down_slots is Some == drill_down,
            wheel.drill_down_slots matches Some(ring) ==> ring.used() == 0 && forall|j: int|
                0 <= j < ring@.len() ==> ring@[j] is None,
    {
        let num_slots = capacity_to_slots(capacity + 1);
        let slots = RingStore::with_slots(num_slots);
        let drill_down_slots = if drill_down {
            Some(RingStore::with_slots(num_slots))
        } else {
            None
        };
        let wheel = AggregationWheel {
            capacity,
            slots,
            drill_down_slots,
            total: None,
            rotation_count: 0,
            blank: false,
        };
        proof {
            assert(wheel@.slots =~= Seq::empty());
            assert(wheel@.drills =~= Seq::empty());
        }
        wheel
    }

    /// Number of completed slots.
    pub fn len(&self) -> (n: usize)
        requires
            self.wf(),
        ensures
            n == self@.len(),
    {
        proof {
            self.slots.lemma_wf();
        }
        self.slots.len()
    }

    /// Number of ticks that make one rotation.
    pub fn capacity(&self) -> (c: usize)
        ensures
            c == self@.capacity,
    {
        self.capacity
    }

    /// Number of ticks since the last rotation.
    pub fn rotation_count(&self) -> (c: usize)
        ensures
            c == self@.rotation_count,
    {
        self.rotation_count
    }

    /// Number of ticks until the next rotation.
    pub fn ticks_remaining(&self) -> (n: usize)
        requires
            self.wf(),
        ensures
            n == self@.capacity - self@.rotation_count,
    {
        self.capacity - self.rotation_count
    }

    /// Tells whether the wheel has no completed slot.
    pub fn is_empty(&self) -> (b: bool)
        requires
            self.wf(),
        ensures
            b == (self@.len() == 0),
    {
        proof {
            self.slots.lemma_wf();
        }
        self.slots.is_empty()
    }

    /// Tells whether the wheel keeps as many completed slots as it can.
    pub fn is_full(&self) -> (b: bool)
        requires
            self.wf(),
        ensures
            b == (self@.len() == self@.capacity),
    {
        proof {
            self.slots.lemma_wf();
        }
        self.slots.len() == self.capacity
    }

    /// Tells whether the wheel keeps drill-down data.
    pub fn has_drill_down(&self) -> (b: bool)
        ensures
            b == self@.drill_down,
    {
        self.drill_down_slots.is_some()
    }

    /// The combination of everything inserted since the last rotation.
    pub fn total(&self) -> (total: Option<A::PartialAggregate>)
        ensures
            total == self@.total,
    {
        self.total
    }

    /// Combines `entry` into the slot at the head of the wheel.
    pub fn insert_head(&mut self, entry: A::PartialAggregate)
        requires
            old(self).wf(),
        ensures
            final(self).wf(),
            final(self)@ == old(self)@.insert_head(entry),
    {
        proof {
            self.slots.lemma_wf();
        }
        self.blank = false;
        let len = self.slots.len();
        let slot = self.slots.slot_mut(len);
        let current = *slot;
        *slot = combine_or_keep::<A>(current, Some(entry));
        self.total = combine_or_keep::<A>(self.total, Some(entry));
        proof {
            assert(self@.slots =~= old(self)@.slots);
            assert(self@.drills =~= old(self)@.drills);
        }
    }

    /// Takes in what the next finer wheel handed up at its rotation.
    pub fn insert_rotation_data(&mut self, data: RotationData<A>)
        requires
            old(self).wf(),
        ensures
            final(self).wf(),
            final(self)@ == old(self)@.insert_rotation_data(
                data.total,
                drill_view::<A>(data.drill_down_slots),
            ),
    {
        proof {
            self.slots.lemma_wf();
        }
        let RotationData { total, drill_down_slots } = data;
        if let Some(partial) = total {
            self.insert_head(partial);
        }
        self.blank = false;
        let ghost middle = self@;
        proof {
            self.slots.lemma_wf();
            if self.drill_down_slots is Some {
                self.drill_down_slots->0.lemma_wf();
            }
        }
        let len = self.slots.len();
        match &mut self.drill_down_slots {
            Some(ring) => {
                let slot = ring.slot_mut(len);
                *slot = drill_down_slots;
            },
            None => {},
        }
        proof {
            assert(self@.slots =~= middle.slots);
            assert(self@.drills =~= middle.drills);
        }
    }

    /// The completed slots as partials, oldest first, an empty slot standing for the identity.
    fn collect_slots(&self) -> (v: Vec<A::PartialAggregate>)
        requires
            self.wf(),
        ensures
            v@ == slots_or_identity::<A>(self@.slots),
    {
        proof {
            self.slots.lemma_wf();
        }
        let mut v: Vec<A::PartialAggregate> = Vec::new();
        let len = self.slots.len();
        let mut i: usize = 0;
        while i < len
            invariant
                self.wf(),
                len == self.slots.used(),
                len <= self.slots.slot_count(),
                self.slots@.len() == self.slots.slot_count(),
                i <= len,
                v@.len() == i,
                forall|j: int| 0 <= j < i ==> v@[j] == or_identity::<A>(self.slots@[j]),
            decreases len - i,
        {
            let partial = match *self.slots.slot(i) {
                Some(p) => p,
                None => A::identity(),
            };
            v.push(partial);
            i += 1;
        }
        proof {
            assert(v@ =~= slots_or_identity::<A>(self@.slots));
        }
        v
    }

    /// Completes the slot at the head and moves on to the next. Every
    /// `capacity` ticks the wheel has gone round once: it then hands up its
    /// total, and its slots if it keeps drill-down data, and starts a new total.
    pub fn tick(&mut self) -> (rotation: Option<RotationData<A>>)
        requires
            old(self).wf(),
        ensures
            final(self).wf(),
            final(self)@ == old(self)@.tick(),
            old(self)@.rotates() <==> rotation is Some,
            rotation matches Some(data) ==> data.total == old(self)@.rotation_total()
                && drill_view::<A>(data.drill_down_slots) == old(self)@.rotation_drill(),
    {
        proof {
            self.slots.lemma_wf();
            if self.drill_down_slots is Some {
                self.drill_down_slots->0.lemma_wf();
            }
        }
        if self.slots.len() == self.capacity {
            self.slots.take(0);
            self.slots.advance_tail();
            match &mut self.drill_down_slots {
                Some(ring) => {
                    ring.take(0);
                    ring.advance_tail();
                },
                None => {},
            }
        }
        self.slots.advance_head();
        match &mut self.drill_down_slots {
            Some(ring) => {
                ring.advance_head();
            },
            None => {},
        }
        proof {
            assert(self@.slots =~= old(self)@.slots_after_tick());
            assert(self@.drills =~= old(self)@.drills_after_tick());
        }
        self.rotation_count = self.rotation_count + 1;
        if self.rotation_count == self.capacity {
            let total = self.total.take();
            self.rotation_count = 0;
            let drill_down_slots = if self.drill_down_slots.is_some() {
                Some(self.collect_slots())
            } else {
                None
            };
            Some(RotationData { total, drill_down_slots })
        } else {
            None
        }
    }

    /// Moves the wheel on by one tick less than a rotation, nothing being
    /// inserted in between. The wheel is at the start of a rotation. Where
    /// the wheel is blank this only sets the rotation count.
    pub fn fast_skip_tick(&mut self)
        requires
            old(self).wf(),
            old(self)@.rotation_count == 0,
        ensures
            final(self).wf(),
            final(self)@ == old(self)@.ticks((old(self)@.capacity - 1) as nat),
    {
        let skips = self.capacity - 1;
        if !self.blank {
            self.blank = self.scan_blank();
        }
        if self.blank {
            proof {
                lemma_blank_ticks::<A>(self@, skips as nat);
            }
            self.rotation_count = skips;
        } else {
            let mut i: usize = 0;
            while i < skips
                invariant
                    self.wf(),
                    skips == self.capacity - 1,
                    self@.capacity == old(self)@.capacity,
                    i <= skips,
                    self@.rotation_count == i,
                    self@ == old(self)@.ticks(i as nat),
                decreases skips - i,
            {
                let _ = self.tick();
                i += 1;
            }
        }
    }

    /// Tells whether the wheel keeps as many slots as it can and nothing is in any of them.
    fn scan_blank(&self) -> (b: bool)
        requires
            self.wf(),
        ensures
            b == self@.is_blank(),
    {
        proof {
            self.slots.lemma_wf();
        }
        let len = self.slots.len();
        if len != self.capacity || self.total.is_some() {
            return false;
        }
        let mut i: usize = 0;
        while i <= len
            invariant
                self.wf(),
                len == self.slots.used(),
                len == self.capacity,
                len < self.slots.slot_count(),
                self.slots.slot_count() <= MAX_SLOTS,
                self.slots@.len() == self.slots.slot_count(),
                i <= len + 1,
                forall|j: int| 0 <= j < i ==> self.slots@[j] is None,
            decreases len + 1 - i,
        {
            if self.slots.slot(i).is_some() {
                proof {
                    if i < len {
                        assert(self@.slots[i as int] is Some);
                    }
                }
                return false;
            }
            i += 1;
        }
        match &self.drill_down_slots {
            Some(ring) => {
                proof {
                    ring.lemma_wf();
                }
                let mut k: usize = 0;
                while k <= len
                    invariant
                        self.wf(),
                        ring.wf(),
                        self.drill_down_slots == Some(*ring),
                        len == ring.used(),
                        len < ring.slot_count(),
                        ring.slot_count() <= MAX_SLOTS,
                        ring@.len() == ring.slot_count(),
                        k <= len + 1,
                        forall|j: int| 0 <= j < k ==> ring@[j] is None,
                    decreases len + 1 - k,
                {
                    if ring.slot(k).is_some() {
                        proof {
                            if k < len {
                                assert(self@.drills[k as int] is Some);
                            }
                        }
                        return false;
                    }
                    k += 1;
                }
            },
            None => {},
        }
        true
    }

    /// Combination of the completed slots from `start` up to `end`, counted from the oldest.
    fn combine_slots(&self, start: usize, end: usize) -> (r: Option<A::PartialAggregate>)
        requires
            self.wf(),
            start <= end <= self@.len(),
        ensures
            r == fold_opt::<A>(self@.slots.subrange(start as int, end as int)),
    {
        proof {
            self.slots.lemma_wf();
        }
        let mut acc: Option<A::PartialAggregate> = None;
        let mut i: usize = start;
        while i < end
            invariant
                self.wf(),
                start <= i <= end,
                end <= self.slots.used(),
                self.slots.used() <= self.slots.slot_count(),
                self.slots@.len() == self.slots.slot_count(),
                acc == fold_opt::<A>(self@.slots.subrange(start as int, i as int)),
            decreases end - i,
        {
            proof {
                assert(self@.slots.subrange(start as int, i + 1).drop_last()
                    =~= self@.slots.subrange(start as int, i as int));
            }
            acc = combine_or_keep::<A>(acc, *self.slots.slot(i));
            i += 1;
        }
        acc
    }

    /// Combines the last `subtrahend` completed slots, or all of them where
    /// the wheel has fewer. Nothing is returned where `subtrahend` exceeds
    /// the wheel's capacity, or where all those slots are empty.
    pub fn interval(&self, subtrahend: usize) -> (r: Option<A::PartialAggregate>)
        requires
            self.wf(),
        ensures
            r == self@.interval(subtrahend as nat),
    {
        if subtrahend > self.capacity {
            None
        } else {
            let len = self.len();
            if subtrahend >= len {
                proof {
                    assert(self@.slots.subrange(0, len as int) =~= self@.slots);
                }
                self.combine_slots(0, len)
            } else {
                self.combine_slots(len - subtrahend, len)
            }
        }
    }

    /// The total where `subtrahend` reaches back to the last rotation or
    /// beyond, else the interval of the last `subtrahend` slots.
    pub fn interval_or_total(&self, subtrahend: usize) -> (r: Option<A::PartialAggregate>)
        requires
            self.wf(),
        ensures
            r == self@.interval_or_total(subtrahend as nat),
    {
        if subtrahend >= self.rotation_count {
            self.total()
        } else {
            self.interval(subtrahend)
        }
    }

    /// The part of the range from `start` up to `end` that lies within the completed slots.
    fn clamp_range(&self, start: usize, end: usize) -> (range: (usize, usize))
        requires
            self.wf(),
        ensures
            range.0 == self@.range_start(start as nat, end as nat),
            range.1 == self@.range_end(end as nat),
            range.0 <= range.1 <= self@.len(),
    {
        let len = self.len();
        let end = if end <= len {
            end
        } else {
            len
        };
        let start = if start <= end {
            start
        } else {
            end
        };
        (start, end)
    }

    /// Combines the completed slots from `start` up to `end`, counted from
    /// the oldest. Where the range reaches beyond the completed slots, the
    /// slots that there are in it are combined.
    pub fn combine_range(&self, start: usize, end: usize) -> (r: Option<A::PartialAggregate>)
        requires
            self.wf(),
        ensures
            r == self@.combine_range(start as nat, end as nat),
    {
        let (start, end) = self.clamp_range(start, end);
        self.combine_slots(start, end)
    }

    /// Combines the completed slots from `start` up to `end`, as far as
    /// there are such slots, and lowers the result.
    pub fn combine_and_lower_range(&self, start: usize, end: usize) -> (r: Option<A::Aggregate>)
        requires
            self.wf(),
        ensures
            r == match self@.combine_range(start as nat, end as nat) {
                Some(partial) => Some(A::lower_spec(partial)),
                None => None,
            },
    {
        match self.combine_range(start, end) {
            Some(partial) => Some(A::lower(partial)),
            None => None,
        }
    }

    /// The completed slots, oldest first.
    pub fn iter(&self) -> (v: Vec<Option<A::PartialAggregate>>)
        requires
            self.wf(),
        ensures
            v@ == self@.slots,
    {
        proof {
            self.slots.lemma_wf();
        }
        let mut v: Vec<Option<A::PartialAggregate>> = Vec::new();
        let len = self.slots.len();
        let mut i: usize = 0;
        while i < len
            invariant
                self.wf(),
                len == self.slots.used(),
                len <= self.slots.slot_count(),
                self.slots@.len() == self.slots.slot_count(),
                i <= len,
                v@.len() == i,
                forall|j: int| 0 <= j < i ==> v@[j] == self.slots@[j],
            decreases len - i,
        {
            v.push(*self.slots.slot(i));
            i += 1;
        }
        proof {
            assert(v@ =~= self@.slots);
        }
        v
    }

    /// The drill-down data of the slot `slot` places before the head: what
    /// the next finer wheel held when that slot was filled.
    pub fn drill_down(&self, slot: usize) -> (r: Option<&Vec<A::PartialAggregate>>)
        requires
            self.wf(),
        ensures
            self@.drill_down(slot as nat) == match r {
                Some(v) => Some(v@),
                None => None,
            },
    {
        proof {
            self.slots.lemma_wf();
        }
        let len = self.slots.len();
        match &self.drill_down_slots {
            Some(ring) => {
                proof {
                    ring.lemma_wf();
                }
                if slot > len {
                    None
                } else {
                    ring.slot(len - slot).as_ref()
                }
            },
            None => None,
        }
    }

    /// Empties the wheel.
    pub fn clear(&mut self)
        requires
            old(self).wf(),
        ensures
            final(self).wf(),
            final(self)@ == old(self)@.clear(),
    {
        proof {
            self.slots.lemma_wf();
        }
        let fresh = Self::new(self.capacity, self.drill_down_slots.is_some());
        *self = fresh;
    }

    /// Element-wise combination of the drill-down data of the completed
    /// slots from `start` up to `end`, counted from the oldest. Where the
    /// range reaches beyond the completed slots, the slots that there are in
    /// it are taken. Slots without drill-down data are passed over; the
    /// result is empty where none has any.
    pub fn combine_drill_down_range(&self, start: usize, end: usize) -> (v: Vec<A::PartialAggregate>)
        requires
            self.wf(),
        ensures
            v@ == self@.drill_down_range(start as nat, end as nat),
    {
        let (start, end) = self.clamp_range(start, end);
        self.combine_drills(start, end)
    }

    /// Element-wise combination of the drill-down data of the completed
    /// slots from `start` up to `end`.
    fn combine_drills(&self, start: usize, end: usize) -> (v: Vec<A::PartialAggregate>)
        requires
            self.wf(),
            start <= end <= self@.len(),
        ensures
            v@ == match fold_drills::<A>(self@.drills.subrange(start as int, end as int)) {
                Some(combined) => combined,
                None => Seq::empty(),
            },
    {
        proof {
            self.slots.lemma_wf();
        }
        let mut acc: Option<Vec<A::PartialAggregate>> = None;
        match &self.drill_down_slots {
            Some(ring) => {
                proof {
                    ring.lemma_wf();
                }
                let mut i: usize = start;
                while i < end
                    invariant
                        self.wf(),
                        ring.wf(),
                        self.drill_down_slots == Some(*ring),
                        start <= i <= end,
                        end <= ring.used(),
                        ring.used() <= ring.slot_count(),
                        ring@.len() == ring.slot_count(),
                        drill_view::<A>(acc) == fold_drills::<A>(
                            self@.drills.subrange(start as int, i as int),
                        ),
                    decreases end - i,
                {
                    proof {
                        assert(self@.drills.subrange(start as int, i + 1).drop_last()
                            =~= self@.drills.subrange(start as int, i as int));
                    }
                    acc = merge_drills::<A>(acc, ring.slot(i).as_ref());
                    i += 1;
                }
            },
            None => {
                proof {
                    lemma_fold_drills_all_absent::<A>(
                        self@.drills.subrange(start as int, end as int),
                    );
                }
            },
        }
        match acc {
            Some(v) => v,
            None => Vec::new(),
        }
    }

    /// The parts that two cuts single out of the drill-down data of their
    /// slots, one after the other. Nothing is returned where the wheel keeps
    /// no drill-down data.
    pub fn drill_down_cut(&self, a: DrillCut, b: DrillCut) -> (r: Option<Vec<A::PartialAggregate>>)
        requires
            self.wf(),
        ensures
            self@.drill_down ==> r is Some && r->0@ == a.cut::<A>(
                self@.drill_down(a.slot as nat),
            ) + b.cut::<A>(self@.drill_down(b.slot as nat)),
            !self@.drill_down ==> r is None,
    {
        if self.drill_down_slots.is_none() {
            return None;
        }
        let mut res: Vec<A::PartialAggregate> = Vec::new();
        a.append_cut::<A>(self.drill_down(a.slot), &mut res);
        b.append_cut::<A>(self.drill_down(b.slot), &mut res);
        Some(res)
    }

    /// Merges `other` into the wheel: slots and drill-down data are combined
    /// pairwise, the newest with the newest, as far as the wheel's own slots
    /// reach; the totals are combined.
    pub fn merge(&mut self, other: &Self)
        requires
            old(self).wf(),
            other.wf(),
        ensures
            final(self).wf(),
            final(self)@ == old(self)@.merge(other@),
    {
        proof {
            self.slots.lemma_wf();
            other.slots.lemma_wf();
            other.lemma_wf();
        }
        self.blank = false;
        let len = self.slots.len();
        let other_len = other.slots.len();
        let mut i: usize = 0;
        while i <= len
            invariant
                self.slots.wf(),
                other.wf(),
                len == self.slots.used(),
                len < self.slots.slot_count(),
                self.slots.slot_count() <= MAX_SLOTS,
                self.slots@.len() == self.slots.slot_count(),
                self.slots@.len() == old(self).slots@.len(),
                self.slots.slot_count() == old(self).slots.slot_count(),
                other_len == other.slots.used(),
                other_len < other.slots.slot_count(),
                other.slots@.len() == other.slots.slot_count(),
                self.capacity == old(self).capacity,
                self.rotation_count == old(self).rotation_count,
                !self.blank,
                self.total == old(self).total,
                self.drill_down_slots == old(self).drill_down_slots,
                i <= len + 1,
                forall|j: int| i <= j < self.slots@.len() ==> self.slots@[j] == old(self).slots@[j],
                forall|j: int|
                    0 <= j < i ==> self.slots@[j] == combine_opt::<A>(
                        old(self).slots@[j],
                        if len - j <= other_len {
                            other.slots@[other_len - (len - j)]
                        } else {
                            None
                        },
                    ),
            decreases len + 1 - i,
        {
            let back = len - i;
            if back <= other_len {
                let theirs = *other.slots.slot(other_len - back);
                let slot = self.slots.slot_mut(i);
                let mine = *slot;
                *slot = combine_or_keep::<A>(mine, theirs);
            }
            i += 1;
        }
        let ghost mid_slots = self.slots;
        match &mut self.drill_down_slots {
            Some(ring) => {
                proof {
                    ring.lemma_wf();
                }
                let ghost before = ring@;
                let mut k: usize = 0;
                while k <= len
                    invariant
                        ring.wf(),
                        other.wf(),
                        len == ring.used(),
                        len < ring.slot_count(),
                        ring.slot_count() <= MAX_SLOTS,
                        ring@.len() == ring.slot_count(),
                        ring@.len() == before.len(),
                        other_len == other.slots.used(),
                        other_len < other.slots.slot_count(),
                        k <= len + 1,
                        forall|j: int| k <= j < ring@.len() ==> ring@[j] == before[j],
                        forall|j: int|
                            0 <= j < k ==> drill_view::<A>(ring@[j]) == merge_drill::<A>(
                                drill_view::<A>(before[j]),
                                other@.drill_down((len - j) as nat),
                            ),
                    decreases len + 1 - k,
                {
                    let theirs = other.drill_down(len - k);
                    let slot = ring.slot_mut(k);
                    let mine = slot.take();
                    *slot = merge_drills::<A>(mine, theirs);
                    k += 1;
                }
            },
            None => {},
        }
        self.total = combine_or_keep::<A>(self.total, other.total);
        proof {
            assert(self.slots == mid_slots);
            assert(self@.slots =~= old(self)@.merge(other@).slots);
            assert(self@.drills =~= old(self)@.merge(other@).drills);
        }
    }
}

/// A part of the drill-down data of one slot: the elements from `start` up
/// to `end`, or up to the last where `end` is absent.
#[derive(Clone, Copy, Debug)]
pub struct DrillCut {
    /// The slot, counted back from the head of the wheel.
    pub slot: usize,
    /// The first element of the part.
    pub start: usize,
    /// The element after the last of the part.
    pub end: Option<usize>,
}

impl DrillCut {
    /// The part of `drill` that the cut singles out: nothing where there is
    /// no data, and no more than the data holds.
    pub open spec fn cut<A: Aggregator>(self, drill: Option<Seq<A::PartialAggregate>>) -> Seq<
        A::PartialAggregate,
    > {
        match drill {
            Some(v) => {
                let end = match self.end {
                    Some(e) => if e <= v.len() {
                        e as int
                    } else {
                        v.len() as int
                    },
                    None => v.len() as int,
                };
                if self.start < end {
                    v.subrange(self.start as int, end)
                } else {
                    Seq::empty()
                }
            },
            None => Seq::empty(),
        }
    }

    /// Appends to `out` the part of `drill` that the cut singles out.
    fn append_cut<A: Aggregator>(
        &self,
        drill: Option<&Vec<A::PartialAggregate>>,
        out: &mut Vec<A::PartialAggregate>,
    )
        ensures
            final(out)@ == old(out)@ + self.cut::<A>(
                match drill {
                    Some(v) => Some(v@),
                    None => None,
                },
            ),
    {
        match drill {
            Some(v) => {
                let end = match self.end {
                    Some(e) => if e <= v.len() {
                        e
                    } else {
                        v.len()
                    },
                    None => v.len(),
                };
                let mut i: usize = self.start;
                while i < end
                    invariant
                        end <= v@.len(),
                        self.start <= i,
                        self.start < end ==> i <= end,
                        out@ == old(out)@ + (if self.start < end {
                            v@.subrange(self.start as int, i as int)
                        } else {
                            Seq::empty()
                        }),
                    decreases end - i,
                {
                    out.push(v[i]);
                    proof {
                        assert(v@.subrange(self.start as int, i + 1) =~= v@.subrange(
                            self.start as int,
                            i as int,
                        ).push(v@[i as int]));
                    }
                    i += 1;
                }
                proof {
                    assert(old(out)@ + Seq::<A::PartialAggregate>::empty() =~= old(out)@);
                    if self.start >= end {
                        assert(out@ =~= old(out)@ + Seq::<A::PartialAggregate>::empty());
                    }
                }
            },
            None => {
                proof {
                    assert(old(out)@ + Seq::<A::PartialAggregate>::empty() =~= old(out)@);
                }
            },
        }
    }
}

/// A copy of a vector of partials.
fn copy_partials<A: Aggregator>(v: &Vec<A::PartialAggregate>) -> (copy: Vec<A::PartialAggregate>)
    ensures
        copy@ == v@,
{
    let mut copy: Vec<A::PartialAggregate> = Vec::new();
    let mut i: usize = 0;
    while i < v.len()
        invariant
            i <= v@.len(),
            copy@ == v@.take(i as int),
        decreases v@.len() - i,
    {
        copy.push(v[i]);
        proof {
            assert(v@.take(i + 1) =~= v@.take(i as int).push(v@[i as int]));
        }
        i += 1;
    }
    proof {
        assert(v@.take(i as int) =~= v@);
    }
    copy
}

/// Combines two optional drill-down vectors element by element, an absent one being neutral.
fn merge_drills<A: Aggregator>(
    a: Option<Vec<A::PartialAggregate>>,
    b: Option<&Vec<A::PartialAggregate>>,
) -> (r: Option<Vec<A::PartialAggregate>>)
    ensures
        drill_view::<A>(r) == merge_drill::<A>(
            drill_view::<A>(a),
            match b {
                Some(v) => Some(v@),
                None => None,
            },
        ),
{
    match (a, b) {
        (Some(mut x), Some(y)) => {
            let ghost before = x@;
            let mut i: usize = 0;
            while i < x.len() && i < y.len()
                invariant
                    x@.len() == before.len(),
                    i <= x@.len(),
                    i <= y@.len(),
                    forall|j: int| 0 <= j < i ==> x@[j] == A::combine_spec(before[j], y@[j]),
                    forall|j: int| i <= j < x@.len() ==> x@[j] == before[j],
                decreases x@.len() - i,
            {
                let combined = A::combine(x[i], y[i]);
                x[i] = combined;
                i += 1;
            }
            proof {
                assert(x@ =~= zip_combine::<A>(before, y@));
            }
            Some(x)
        },
        (None, Some(y)) => Some(copy_partials::<A>(y)),
        (a, _) => a,
    }
}

/// Where no slot has drill-down data, their combination has none.
proof fn lemma_fold_drills_all_absent<A: Aggregator>(drills: Seq<Option<Seq<A::PartialAggregate>>>)
    requires
        forall|i: int| 0 <= i < drills.len() ==> drills[i] is None,
    ensures
        fold_drills::<A>(drills) is None,
    decreases drills.len(),
{
    if drills.len() > 0 {
        lemma_fold_drills_all_absent::<A>(drills.drop_last());
    }
}

/// Ticks that complete no rotation leave a blank wheel as it is, but for its rotation count.
pub proof fn lemma_blank_ticks<A: Aggregator>(wheel: WheelView<A>, n: nat)
    requires
        wheel.is_blank(),
        wheel.rotation_count + n < wheel.capacity,
    ensures
        wheel.ticks(n) == (WheelView { rotation_count: wheel.rotation_count + n, ..wheel }),
    decreases n,
{
    if n > 0 {
        lemma_blank_ticks::<A>(wheel, (n - 1) as nat);
        let before = wheel.ticks((n - 1) as nat);
        assert(before.slots_after_tick() =~= wheel.slots);
        assert(before.drills_after_tick() =~= wheel.drills);
    }
}

/// What an aggregation wheel holds, as plain values: the form in which a
/// wheel is stored and restored.
pub struct WheelParts<A: Aggregator> {
    /// Number of ticks that make one rotation.
    pub capacity: usize,
    /// Whether the wheel keeps drill-down data.
    pub drill_down: bool,
    /// The completed slots, oldest first.
    pub slots: Vec<Option<A::PartialAggregate>>,
    /// The slot that is being filled.
    pub head: Option<A::PartialAggregate>,
    /// The combination of everything inserted since the last rotation.
    pub total: Option<A::PartialAggregate>,
    /// Number of ticks since the last rotation.
    pub rotation_count: usize,
    /// The drill-down data of the completed slots, oldest first.
    pub drills: Vec<Option<Vec<A::PartialAggregate>>>,
    /// The drill-down data of the slot that is being filled.
    pub head_drill: Option<Vec<A::PartialAggregate>>,
}

impl<A: Aggregator> View for WheelParts<A> {
    type V = WheelView<A>;

    open spec fn view(&self) -> WheelView<A> {
        WheelView {
            capacity: self.capacity as nat,
            slots: self.slots@,
            head: self.head,
            total: self.total,
            rotation_count: self.rotation_count as nat,
            drill_down: self.drill_down,
            drills: Seq::new(self.drills@.len(), |i: int| drill_view::<A>(self.drills@[i])),
            head_drill: drill_view::<A>(self.head_drill),
        }
    }
}

impl<A: Aggregator> WheelParts<A> {
    /// Tells whether the parts fit together, so that a wheel can be made of them.
    pub fn is_valid(&self) -> (b: bool)
        ensures
            b == self@.wf(),
    {
        if self.capacity < 1 || self.capacity >= MAX_SLOTS || self.slots.len() > self.capacity
            || self.rotation_count >= self.capacity || self.drills.len() != self.slots.len() {
            return false;
        }
        if !self.drill_down {
            if self.head_drill.is_some() {
                return false;
            }
            let mut i: usize = 0;
            while i < self.drills.len()
                invariant
                    !self.drill_down,
                    self.head_drill is None,
                    1 <= self.capacity < MAX_SLOTS,
                    self.slots@.len() <= self.capacity,
                    self.rotation_count < self.capacity,
                    self.drills@.len() == self.slots@.len(),
                    i <= self.drills@.len(),
                    self@.drills.len() == self.drills@.len(),
                    forall|j: int| 0 <= j < i ==> self@.drills[j] is None,
                decreases self.drills@.len() - i,
            {
                if self.drills[i].is_some() {
                    assert(self@.drills[i as int] is Some);
                    return false;
                }
                i += 1;
            }
        }
        true
    }
}

impl<A: Aggregator> AggregationWheel<A> {
    /// What the wheel holds, as plain values.
    pub fn to_parts(&self) -> (parts: WheelParts<A>)
        requires
            self.wf(),
        ensures
            parts@ == self@,
            parts@.wf(),
    {
        proof {
            self.slots.lemma_wf();
            self.lemma_wf();
        }
        let len = self.slots.len();
        let mut drills: Vec<Option<Vec<A::PartialAggregate>>> = Vec::new();
        let mut head_drill: Option<Vec<A::PartialAggregate>> = None;
        match &self.drill_down_slots {
            Some(ring) => {
                proof {
                    ring.lemma_wf();
                }
                let mut i: usize = 0;
                while i < len
                    invariant
                        self.wf(),
                        ring.wf(),
                        self.drill_down_slots == Some(*ring),
                        len == ring.used(),
                        len < ring.slot_count(),
                        ring@.len() == ring.slot_count(),
                        i <= len,
                        drills@.len() == i,
                        forall|j: int|
                            0 <= j < i ==> drill_view::<A>(#[trigger] drills@[j]) == drill_view::<
                                A,
                            >(ring@[j]),
                    decreases len - i,
                {
                    drills.push(merge_drills::<A>(None, ring.slot(i).as_ref()));
                    i += 1;
                }
                head_drill = merge_drills::<A>(None, ring.slot(len).as_ref());
            },
            None => {
                let mut i: usize = 0;
                while i < len
                    invariant
                        i <= len,
                        drills@.len() == i,
                        forall|j: int| 0 <= j < i ==> (#[trigger] drills@[j]) is None,
                    decreases len - i,
                {
                    drills.push(None);
                    i += 1;
                }
            },
        }
        let parts = WheelParts {
            capacity: self.capacity,
            drill_down: self.drill_down_slots.is_some(),
            slots: self.iter(),
            head: *self.slots.slot(len),
            total: self.total,
            rotation_count: self.rotation_count,
            drills,
            head_drill,
        };
        proof {
            assert(parts@.drills =~= self@.drills);
        }
        parts
    }

    /// The wheel that holds what `parts` say, where they fit together.
    pub fn from_parts(parts: &WheelParts<A>) -> (wheel: Option<Self>)
        ensures
            wheel is Some <==> parts@.wf(),
            wheel matches Some(w) ==> w.wf() && w@ == parts@,
    {
        if !parts.is_valid() {
            return None;
        }
        let mut wheel = Self::new(parts.capacity, parts.drill_down);
        let len = parts.slots.len();
        proof {
            wheel.slots.lemma_wf();
            if wheel.drill_down_slots is Some {
                wheel.drill_down_slots->0.lemma_wf();
            }
        }
        let mut i: usize = 0;
        while i < len
            invariant
                len == parts.slots@.len(),
                len <= parts.capacity,
                parts.drills@.len() == len,
                wheel.slots.wf(),
                wheel.capacity == parts.capacity,
                wheel.capacity < wheel.slots.slot_count(),
                wheel.slots@.len() == wheel.slots.slot_count(),
                wheel.slots.used() == i,
                wheel.rotation_count == 0,
                wheel.total is None,
                !wheel.blank,
                wheel.drill_down_slots is Some == parts.drill_down,
                i <= len,
                forall|j: int| 0 <= j < i ==> wheel.slots@[j] == parts.slots@[j],
                forall|j: int| i <= j < wheel.slots@.len() ==> wheel.slots@[j] is None,
                wheel.drill_down_slots matches Some(ring) ==> {
                    &&& ring.wf()
                    &&& ring.slot_count() == wheel.slots.slot_count()
                    &&& ring@.len() == ring.slot_count()
                    &&& ring.used() == i
                    &&& forall|j: int|
                        0 <= j < i ==> drill_view::<A>(#[trigger] ring@[j]) == drill_view::<A>(
                            parts.drills@[j],
                        )
                    &&& forall|j: int| i <= j < ring@.len() ==> ring@[j] is None
                },
            decreases len - i,
        {
            let slot = wheel.slots.slot_mut(i);
            *slot = parts.slots[i];
            wheel.slots.advance_head();
            match &mut wheel.drill_down_slots {
                Some(ring) => {
                    let slot = ring.slot_mut(i);
                    *slot = merge_drills::<A>(None, parts.drills[i].as_ref());
                    ring.advance_head();
                },
                None => {},
            }
            i += 1;
        }
        let slot = wheel.slots.slot_mut(len);
        *slot = parts.head;
        match &mut wheel.drill_down_slots {
            Some(ring) => {
                let slot = ring.slot_mut(len);
                *slot = merge_drills::<A>(None, parts.head_drill.as_ref());
            },
            None => {},
        }
        wheel.total = parts.total;
        wheel.rotation_count = parts.rotation_count;
        proof {
            assert(wheel@.slots =~= parts@.slots);
            assert(wheel@.drills =~= parts@.drills);
        }
        Some(wheel)
    }
}

} // verus!
