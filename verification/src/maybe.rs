//! A wheel that is allocated when it is first written to.
use crate::aggregation::{drill_view, AggregationWheel, RotationData, WheelParts, WheelView};
use crate::aggregator::Aggregator;
use crate::ring::MAX_SLOTS;
use vstd::prelude::*;

verus! {

/// An aggregation wheel that takes up no memory until it is first written
/// to. Until then it stands for an empty wheel.
pub struct MaybeWheel<A: Aggregator> {
    slots: usize,
    drill_down: bool,
    wheel: Option<AggregationWheel<A>>,
}

impl<A: Aggregator> View for MaybeWheel<A> {
    type V = WheelView<A>;

    closed spec fn view(&self) -> WheelView<A> {
        match self.wheel {
            Some(wheel) => wheel@,
            None => WheelView::<A>::empty(self.slots as nat, self.drill_down),
        }
    }
}

impl<A: Aggregator> MaybeWheel<A> {
    /// The wheel, where there is one, is well-formed and of the capacity and kind asked for.
    pub closed spec fn wf(&self) -> bool {
        &&& 1 <= self.slots < MAX_SLOTS
        &&& self.wheel matches Some(wheel) ==> {
            &&& wheel.wf()
            &&& wheel@.capacity == self.slots
            &&& wheel@.drill_down == self.drill_down
        }
    }

    /// The wheel has been allocated.
    pub closed spec fn is_allocated(&self) -> bool {
        self.wheel is Some
    }

    /// The wheel that has been allocated.
    pub closed spec fn allocated(&self) -> AggregationWheel<A> {
        self.wheel->0
    }

    /// A well-formed wheel has a well-formed view, which is that of the wheel allocated.
    pub proof fn lemma_wf(&self)
        requires
            self.wf(),
        ensures
            self@.wf(),
            self.is_allocated() ==> self.allocated().wf() && self.allocated()@ == self@,
            !self.is_allocated() ==> self@ == WheelView::<A>::empty(
                self@.capacity,
                self@.drill_down,
            ),
    {
        if self.wheel is Some {
            self.wheel->0.lemma_wf();
        }
    }

    /// A wheel of `slots` slots, not yet allocated.
    pub fn with_capacity(slots: usize) -> (wheel: Self)
        requires
            1 <= slots < MAX_SLOTS,
        ensures
            wheel.wf(),
            !wheel.is_allocated(),
            wheel@ == WheelView::<A>::empty(slots as nat, false),
    {
        MaybeWheel { slots, drill_down: false, wheel: None }
    }

    /// A wheel of `slots` slots that keeps drill-down data, not yet allocated.
    pub fn with_capacity_and_drill_down(slots: usize) -> (wheel: Self)
        requires
            1 <= slots < MAX_SLOTS,
        ensures
            wheel.wf(),
            !wheel.is_allocated(),
            wheel@ == WheelView::<A>::empty(slots as nat, true),
    {
        MaybeWheel { slots, drill_down: true, wheel: None }
    }

    /// Empties the wheel, where it has been allocated.
    pub fn clear(&mut self)
        requires
            old(self).wf(),
        ensures
            final(self).wf(),
            final(self)@ == old(self)@.clear(),
            final(self).is_allocated() == old(self).is_allocated(),
    {
        match &mut self.wheel {
            Some(wheel) => {
                wheel.clear();
            },
            None => {},
        }
    }

    /// Merges `other` into the wheel.
    pub fn merge(&mut self, other: &Self)
        requires
            old(self).wf(),
            other.wf(),
        ensures
            final(self).wf(),
            final(self)@ == old(self)@.merge(other@),
            final(self).is_allocated() == (old(self).is_allocated() || other.is_allocated()),
    {
        proof {
            self.lemma_wf();
        }
        match &other.wheel {
            Some(theirs) => {
                self.allocate();
                match &mut self.wheel {
                    Some(wheel) => {
                        wheel.merge(theirs);
                    },
                    None => {},
                }
            },
            None => {
                proof {
                    let merged = self@.merge(other@);
                    assert(merged.slots =~= self@.slots);
                    assert(merged.drills =~= self@.drills);
                }
            },
        }
    }

    /// Combination of the last `interval` completed slots.
    pub fn interval(&self, interval: usize) -> (r: Option<A::PartialAggregate>)
        requires
            self.wf(),
        ensures
            r == self@.interval(interval as nat),
    {
        match &self.wheel {
            Some(wheel) => wheel.interval(interval),
            None => {
                proof {
                    reveal_with_fuel(crate::aggregator::fold_opt, 1);
                }
                None
            },
        }
    }

    /// The total where `interval` reaches back to the last rotation or beyond, else the interval.
    pub fn interval_or_total(&self, interval: usize) -> (r: Option<A::PartialAggregate>)
        requires
            self.wf(),
        ensures
            r == self@.interval_or_total(interval as nat),
    {
        match &self.wheel {
            Some(wheel) => wheel.interval_or_total(interval),
            None => None,
        }
    }

    /// The combination of everything inserted since the last rotation.
    pub fn total(&self) -> (r: Option<A::PartialAggregate>)
        ensures
            r == self@.total,
    {
        match &self.wheel {
            Some(wheel) => wheel.total(),
            None => None,
        }
    }

    /// Number of ticks since the last rotation.
    pub fn rotation_count(&self) -> (c: usize)
        ensures
            c == self@.rotation_count,
    {
        match &self.wheel {
            Some(wheel) => wheel.rotation_count(),
            None => 0,
        }
    }

    /// Number of ticks that make one rotation.
    pub fn capacity(&self) -> (c: usize)
        requires
            self.wf(),
        ensures
            c == self@.capacity,
    {
        self.slots
    }

    /// Number of completed slots.
    pub fn len(&self) -> (n: usize)
        requires
            self.wf(),
        ensures
            n == self@.len(),
    {
        match &self.wheel {
            Some(wheel) => wheel.len(),
            None => 0,
        }
    }

    /// The wheel, where it has been allocated.
    pub fn as_deref(&self) -> (r: Option<&AggregationWheel<A>>)
        ensures
            r is Some == self.is_allocated(),
            r matches Some(wheel) ==> *wheel == self.allocated(),
    {
        self.wheel.as_ref()
    }

    /// Allocates the wheel where that has not been done.
    fn allocate(&mut self)
        requires
            old(self).wf(),
        ensures
            final(self).wf(),
            final(self).is_allocated(),
            final(self)@ == old(self)@,
    {
        if self.wheel.is_none() {
            let wheel = if self.drill_down {
                AggregationWheel::with_capacity_and_drill_down(self.slots)
            } else {
                AggregationWheel::with_capacity(self.slots)
            };
            self.wheel = Some(wheel);
        }
    }

    /// The wheel, which is allocated where that has not been done.
    pub fn get_or_insert(&mut self) -> (wheel: &mut AggregationWheel<A>)
        requires
            old(self).wf(),
        ensures
            wheel.wf(),
            wheel@ == old(self)@,
            final(self).is_allocated(),
            final(self).allocated() == *final(wheel),
            final(self)@ == final(wheel)@,
            final(wheel).wf() && final(wheel)@.capacity == old(self)@.capacity
                && final(wheel)@.drill_down == old(self)@.drill_down ==> final(self).wf(),
    {
        self.allocate();
        match &mut self.wheel {
            Some(wheel) => wheel,
            None => vstd::pervasive::unreached(),
        }
    }

    /// Combines `entry` into the slot at the head of the wheel.
    pub fn insert_head(&mut self, entry: A::PartialAggregate)
        requires
            old(self).wf(),
        ensures
            final(self).wf(),
            final(self).is_allocated(),
            final(self)@ == old(self)@.insert_head(entry),
    {
        self.allocate();
        match &mut self.wheel {
            Some(wheel) => {
                wheel.insert_head(entry);
            },
            None => {},
        }
    }

    /// Takes in what the next finer wheel handed up at its rotation.
    pub fn insert_rotation_data(&mut self, data: RotationData<A>)
        requires
            old(self).wf(),
        ensures
            final(self).wf(),
            final(self).is_allocated(),
            final(self)@ == old(self)@.insert_rotation_data(
                data.total,
                drill_view::<A>(data.drill_down_slots),
            ),
    {
        self.allocate();
        match &mut self.wheel {
            Some(wheel) => {
                wheel.insert_rotation_data(data);
            },
            None => {},
        }
    }

    /// Completes the slot at the head and moves on to the next.
    pub fn tick(&mut self) -> (rotation: Option<RotationData<A>>)
        requires
            old(self).wf(),
        ensures
            final(self).wf(),
            final(self).is_allocated(),
            final(self)@ == old(self)@.tick(),
            old(self)@.rotates() <==> rotation is Some,
            rotation matches Some(data) ==> data.total == old(self)@.rotation_total()
                && drill_view::<A>(data.drill_down_slots) == old(self)@.rotation_drill(),
    {
        self.allocate();
        match &mut self.wheel {
            Some(wheel) => wheel.tick(),
            None => None,
        }
    }

    /// Moves the wheel on by one tick less than a rotation, nothing being inserted in between.
    pub fn fast_skip_tick(&mut self)
        requires
            old(self).wf(),
            old(self)@.rotation_count == 0,
        ensures
            final(self).wf(),
            final(self).is_allocated(),
            final(self)@ == old(self)@.ticks((old(self)@.capacity - 1) as nat),
    {
        self.allocate();
        match &mut self.wheel {
            Some(wheel) => {
                wheel.fast_skip_tick();
                proof {
                    lemma_ticks_keep_shape::<A>(old(self)@, (old(self)@.capacity - 1) as nat);
                }
            },
            None => {},
        }
    }
}

/// Ticks change neither the capacity of a wheel nor whether it keeps drill-down data.
pub proof fn lemma_ticks_keep_shape<A: Aggregator>(wheel: WheelView<A>, n: nat)
    ensures
        wheel.ticks(n).capacity == wheel.capacity,
        wheel.ticks(n).drill_down == wheel.drill_down,
    decreases n,
{
    if n > 0 {
        lemma_ticks_keep_shape::<A>(wheel, (n - 1) as nat);
    }
}

/// What a wheel that may not have been allocated holds, as plain values.
pub struct MaybeParts<A: Aggregator> {
    /// Number of ticks that make one rotation.
    pub capacity: usize,
    /// Whether the wheel keeps drill-down data.
    pub drill_down: bool,
    /// What the wheel holds, where it has been allocated.
    pub wheel: Option<WheelParts<A>>,
}

impl<A: Aggregator> View for MaybeParts<A> {
    type V = WheelView<A>;

    open spec fn view(&self) -> WheelView<A> {
        match self.wheel {
            Some(parts) => parts@,
            None => WheelView::<A>::empty(self.capacity as nat, self.drill_down),
        }
    }
}

impl<A: Aggregator> MaybeParts<A> {
    /// The parts fit together, so that a wheel can be made of them.
    pub open spec fn valid(&self) -> bool {
        &&& 1 <= self.capacity < MAX_SLOTS
        &&& self.wheel matches Some(parts) ==> parts@.wf() && parts.capacity == self.capacity
            && parts.drill_down == self.drill_down
    }

    /// Tells whether the parts fit together.
    pub fn is_valid(&self) -> (b: bool)
        ensures
            b == self.valid(),
    {
        if self.capacity < 1 || self.capacity >= MAX_SLOTS {
            return false;
        }
        match &self.wheel {
            Some(parts) => parts.is_valid() && parts.capacity == self.capacity && parts.drill_down
                == self.drill_down,
            None => true,
        }
    }
}

impl<A: Aggregator> MaybeWheel<A> {
    /// What the wheel holds, as plain values.
    pub fn to_parts(&self) -> (parts: MaybeParts<A>)
        requires
            self.wf(),
        ensures
            parts.valid(),
            parts@ == self@,
            parts.wheel is Some == self.is_allocated(),
    {
        let wheel = match &self.wheel {
            Some(wheel) => Some(wheel.to_parts()),
            None => None,
        };
        MaybeParts { capacity: self.slots, drill_down: self.drill_down, wheel }
    }

    /// The wheel that holds what `parts` say, where they fit together.
    pub fn from_parts(parts: &MaybeParts<A>) -> (wheel: Option<Self>)
        ensures
            wheel is Some <==> parts.valid(),
            wheel matches Some(w) ==> w.wf() && w@ == parts@ && w.is_allocated()
                == parts.wheel is Some,
    {
        if !parts.is_valid() {
            return None;
        }
        let wheel = match &parts.wheel {
            Some(inner) => AggregationWheel::from_parts(inner),
            None => None,
        };
        Some(MaybeWheel { slots: parts.capacity, drill_down: parts.drill_down, wheel })
    }
}

} // verus!
