//! Drill-down data and the slots that it was gathered for.
use crate::aggregation::{fold_drills, slots_or_identity, zip_combine, WheelView};
use crate::aggregator::{combine_opt, fold_opt, fold_partials, or_identity, Aggregator};
use crate::hierarchical::{emission, fed, fed_emission, freeze_opt, Clockwork, HawView, Rotation};
use crate::history::{
    days_of, follows, handed_over, hours_of, lemma_follows_tick, lemma_ticks_track, minutes_of,
    tracks, weeks_of,
};
use vstd::prelude::*;

verus! {

/// Empty slots count as the identity when slots are combined.
pub proof fn lemma_or_identity_combine<A: Aggregator>(
    a: Option<A::PartialAggregate>,
    b: Option<A::PartialAggregate>,
)
    ensures
        A::combine_spec(or_identity::<A>(a), or_identity::<A>(b)) == or_identity::<A>(
            combine_opt::<A>(a, b),
        ),
{
    A::combine_identity(or_identity::<A>(b));
    A::combine_identity(or_identity::<A>(a));
    A::combine_commutative(or_identity::<A>(a), A::identity_spec());
}

/// The fold of slots as partials is the fold of the slots, as a partial.
pub proof fn lemma_fold_slots_or_identity<A: Aggregator>(slots: Seq<Option<A::PartialAggregate>>)
    ensures
        fold_partials::<A>(slots_or_identity::<A>(slots)) == or_identity::<A>(
            fold_opt::<A>(slots),
        ),
    decreases slots.len(),
{
    if slots.len() > 0 {
        lemma_fold_slots_or_identity::<A>(slots.drop_last());
        assert(slots_or_identity::<A>(slots).drop_last() =~= slots_or_identity::<A>(
            slots.drop_last(),
        ));
        lemma_or_identity_combine::<A>(fold_opt::<A>(slots.drop_last()), slots.last());
    }
}

/// The fold of two vectors combined element by element is the combination of their folds.
pub proof fn lemma_fold_zip_combine<A: Aggregator>(
    a: Seq<A::PartialAggregate>,
    b: Seq<A::PartialAggregate>,
)
    requires
        a.len() == b.len(),
    ensures
        fold_partials::<A>(zip_combine::<A>(a, b)) == A::combine_spec(
            fold_partials::<A>(a),
            fold_partials::<A>(b),
        ),
    decreases a.len(),
{
    if a.len() == 0 {
        A::combine_identity(A::identity_spec());
    } else {
        lemma_fold_zip_combine::<A>(a.drop_last(), b.drop_last());
        assert(zip_combine::<A>(a, b).drop_last() =~= zip_combine::<A>(
            a.drop_last(),
            b.drop_last(),
        ));
        let x = fold_partials::<A>(a.drop_last());
        let y = fold_partials::<A>(b.drop_last());
        let p = a.last();
        let q = b.last();
        A::combine_associative(x, y, A::combine_spec(p, q));
        A::combine_associative(y, p, q);
        A::combine_commutative(y, p);
        A::combine_associative(p, y, q);
        A::combine_associative(x, p, A::combine_spec(y, q));
    }
}

/// Every completed slot of the wheel has drill-down data of `width`
/// elements, and the data folds to the slot.
pub open spec fn drills_match<A: Aggregator>(wheel: WheelView<A>, width: nat) -> bool {
    forall|i: int|
        0 <= i < wheel.drills.len() ==> (#[trigger] wheel.drills[i]) is Some
            && wheel.drills[i]->0.len() == width && fold_partials::<A>(wheel.drills[i]->0)
            == or_identity::<A>(wheel.slots[i])
}

/// What a wheel hands up comes with drill-down data of `width` elements that folds to its total.
pub open spec fn sound<A: Aggregator>(rotation: Option<Rotation<A>>, width: nat) -> bool {
    rotation is Some ==> rotation->0.drill is Some && rotation->0.drill->0.len() == width
        && fold_partials::<A>(rotation->0.drill->0) == or_identity::<A>(rotation->0.total)
}

/// All six wheels keep drill-down data, and every completed slot of the
/// wheels above the seconds wheel has the data that it was gathered from.
pub open spec fn keeps_drills<A: Aggregator>(haw: HawView<A>) -> bool {
    &&& haw.seconds.drill_down
    &&& haw.minutes.drill_down
    &&& haw.hours.drill_down
    &&& haw.days.drill_down
    &&& haw.weeks.drill_down
    &&& haw.years.drill_down
    &&& drills_match(haw.minutes, 60)
    &&& drills_match(haw.hours, 60)
    &&& drills_match(haw.days, 24)
    &&& drills_match(haw.weeks, 7)
    &&& drills_match(haw.years, 52)
}

/// What a wheel that follows a history and keeps drill-down data hands up at a rotation is sound.
proof fn lemma_emission_sound<A: Aggregator>(
    wheel: WheelView<A>,
    hist: Seq<Option<A::PartialAggregate>>,
    part: Option<A::PartialAggregate>,
    filled: WheelView<A>,
)
    requires
        wheel.wf(),
        follows(wheel, hist),
        filled.capacity == wheel.capacity,
        filled.slots == wheel.slots,
        filled.rotation_count == wheel.rotation_count,
        filled.head == part,
        filled.total == combine_opt::<A>(wheel.total, part),
        filled.drill_down,
    ensures
        sound(emission(filled), wheel.capacity),
{
    lemma_follows_tick(wheel, hist, part, filled);
    lemma_fold_slots_or_identity::<A>(filled.slots_after_tick());
}

/// A wheel whose slots have their drill-down data still has after the
/// wheel below it has ticked, provided that what was handed up is sound.
proof fn lemma_fed_keeps_drills<A: Aggregator>(
    wheel: WheelView<A>,
    below: Option<Rotation<A>>,
    width: nat,
)
    requires
        wheel.wf(),
        wheel.drill_down,
        wheel.head is None,
        drills_match(wheel, width),
        sound(below, width),
    ensures
        drills_match(fed(wheel, below), width),
        fed(wheel, below).drill_down,
{
    if below is Some {
        let rotation = below->0;
        let filled = wheel.insert_rotation_data(rotation.total, rotation.drill);
        let after = filled.tick();
        assert forall|i: int| 0 <= i < after.drills.len() implies (#[trigger] after.drills[i])
            is Some && after.drills[i]->0.len() == width && fold_partials::<A>(after.drills[i]->0)
            == or_identity::<A>(after.slots[i]) by {
            if i == after.drills.len() - 1 {
            } else if wheel.slots.len() >= wheel.capacity {
                assert(after.drills[i] == wheel.drills[i + 1]);
            } else {
                assert(after.drills[i] == wheel.drills[i]);
            }
        }
    }
}

/// A wheel that keeps drill-down data and in which nothing has happened
/// yet has no slot without its data.
pub proof fn lemma_empty_keeps_drills<A: Aggregator>(watermark: u64)
    ensures
        keeps_drills(HawView::<A>::empty(watermark, true)),
{
}

/// A tick leaves every slot with the data that it was gathered from.
pub proof fn lemma_tick_keeps_drills<A: Aggregator>(
    haw: HawView<A>,
    seconds: Seq<Option<A::PartialAggregate>>,
    part: Option<A::PartialAggregate>,
)
    requires
        haw.wf(),
        tracks(haw, seconds),
        keeps_drills(haw),
    ensures
        keeps_drills(haw.tick(part)),
{
    let filled = haw.seconds_with(part);
    lemma_emission_sound(haw.seconds, seconds, part, filled);
    let from_seconds = emission(filled);
    lemma_fed_keeps_drills(haw.minutes, from_seconds, 60);
    lemma_fed_sound(haw.minutes, minutes_of::<A>(seconds), from_seconds);
    let from_minutes = fed_emission(haw.minutes, from_seconds);
    lemma_fed_keeps_drills(haw.hours, from_minutes, 60);
    lemma_fed_sound(haw.hours, hours_of::<A>(seconds), from_minutes);
    let from_hours = fed_emission(haw.hours, from_minutes);
    lemma_fed_keeps_drills(haw.days, from_hours, 24);
    lemma_fed_sound(haw.days, days_of::<A>(seconds), from_hours);
    let from_days = fed_emission(haw.days, from_hours);
    lemma_fed_keeps_drills(haw.weeks, from_days, 7);
    lemma_fed_sound(haw.weeks, weeks_of::<A>(seconds), from_days);
    let from_weeks = fed_emission(haw.weeks, from_days);
    lemma_fed_keeps_drills(haw.years, from_weeks, 52);
}

/// What a wheel hands up after the wheel below it has ticked is sound.
proof fn lemma_fed_sound<A: Aggregator>(
    wheel: WheelView<A>,
    hist: Seq<Option<A::PartialAggregate>>,
    below: Option<Rotation<A>>,
)
    requires
        wheel.wf(),
        wheel.drill_down,
        follows(wheel, hist),
    ensures
        sound(fed_emission(wheel, below), wheel.capacity),
{
    if below is Some {
        let rotation = below->0;
        let filled = wheel.insert_rotation_data(rotation.total, rotation.drill);
        lemma_emission_sound(wheel, hist, rotation.total, filled);
    }
}

/// The drill-down data of a range of slots, combined element by element,
/// folds to the combination of those slots: nothing is lost and nothing is
/// counted twice between a slot and the data that it was gathered from.
/// The range is taken as far as there are completed slots in it; where
/// there are any, the combined data has as many elements as each slot's.
pub proof fn law_drill_down_folds_to_slots<A: Aggregator>(
    wheel: WheelView<A>,
    width: nat,
    start: nat,
    end: nat,
)
    requires
        wheel.drills.len() == wheel.slots.len(),
        drills_match(wheel, width),
    ensures
        fold_partials::<A>(wheel.drill_down_range(start, end)) == or_identity::<A>(
            wheel.combine_range(start, end),
        ),
        wheel.range_start(start, end) < wheel.range_end(end) ==> wheel.drill_down_range(
            start,
            end,
        ).len() == width,
{
    lemma_drills_fold_to_slots::<A>(
        wheel,
        width,
        wheel.range_start(start, end),
        wheel.range_end(end),
    );
}

/// The drill-down data of the last `n` slots, combined element by element,
/// folds to the interval of `n` slots. The range may be given as reaching
/// beyond the completed slots.
pub proof fn law_drill_down_folds_to_interval<A: Aggregator>(
    wheel: WheelView<A>,
    width: nat,
    n: nat,
    end: nat,
)
    requires
        wheel.drills.len() == wheel.slots.len(),
        drills_match(wheel, width),
        n <= wheel.capacity,
        end >= wheel.slots.len(),
    ensures
        fold_partials::<A>(
            wheel.drill_down_range(
                if n <= wheel.slots.len() {
                    (wheel.slots.len() - n) as nat
                } else {
                    0
                },
                end,
            ),
        ) == or_identity::<A>(wheel.interval(n)),
{
    let len = wheel.slots.len();
    let start: nat = if n <= len {
        (len - n) as nat
    } else {
        0
    };
    law_drill_down_folds_to_slots::<A>(wheel, width, start, end);
    assert(wheel.slots.subrange(start as int, len as int) =~= crate::aggregation::last_n(
        wheel.slots,
        n,
    ));
}

/// The drill-down data of a range of completed slots folds to the combination of those slots.
proof fn lemma_drills_fold_to_slots<A: Aggregator>(
    wheel: WheelView<A>,
    width: nat,
    start: int,
    end: int,
)
    requires
        wheel.drills.len() == wheel.slots.len(),
        drills_match(wheel, width),
        0 <= start <= end <= wheel.slots.len(),
    ensures
        fold_partials::<A>(
            match fold_drills::<A>(wheel.drills.subrange(start, end)) {
                Some(combined) => combined,
                None => Seq::empty(),
            },
        ) == or_identity::<A>(fold_opt::<A>(wheel.slots.subrange(start, end))),
        start < end ==> fold_drills::<A>(wheel.drills.subrange(start, end)) is Some
            && fold_drills::<A>(wheel.drills.subrange(start, end))->0.len() == width,
        start == end ==> fold_drills::<A>(wheel.drills.subrange(start, end)) is None,
    decreases end - start,
{
    let drills = wheel.drills.subrange(start, end);
    let slots = wheel.slots.subrange(start, end);
    if start < end {
        lemma_drills_fold_to_slots::<A>(wheel, width, start, end - 1);
        assert(drills.drop_last() =~= wheel.drills.subrange(start, end - 1));
        assert(slots.drop_last() =~= wheel.slots.subrange(start, end - 1));
        let last = wheel.drills[end - 1];
        assert(drills.last() == last);
        assert(slots.last() == wheel.slots[end - 1]);
        let before = fold_drills::<A>(drills.drop_last());
        if before is Some {
            lemma_fold_zip_combine::<A>(before->0, last->0);
            lemma_or_identity_combine::<A>(fold_opt::<A>(slots.drop_last()), slots.last());
        } else {
            assert(slots.drop_last().len() == 0);
        }
    }
}

/// Ticks leave every slot with the data that it was gathered from.
pub proof fn lemma_ticks_keep_drills<A: Aggregator>(
    wheels: Clockwork<A>,
    seconds: Seq<Option<A::PartialAggregate>>,
    n: nat,
)
    requires
        wheels.haw.wf(),
        tracks(wheels.haw, seconds),
        keeps_drills(wheels.haw),
    ensures
        keeps_drills(wheels.ticks(n).haw),
    decreases n,
{
    if n > 0 {
        let m = (n - 1) as nat;
        lemma_ticks_keep_drills(wheels, seconds, m);
        lemma_ticks_track(wheels, seconds, m);
        let before = wheels.ticks(m);
        lemma_tick_keeps_drills(
            before.haw,
            seconds + handed_over(wheels.waw, m),
            freeze_opt::<A>(before.waw.front()),
        );
    }
}

} // verus!
