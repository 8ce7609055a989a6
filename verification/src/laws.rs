//! Laws that relate the operations of the wheels to one another.
use crate::aggregation::WheelView;
use crate::aggregator::{
    combine_opt, lemma_combine_opt_associative, lemma_fold_opt_update, lemma_fold_opt_zip,
    zip_opt, Aggregator,
};
use crate::entry::Entry;
use crate::hierarchical::{
    emission, fed, fed_emission, freeze_opt, Clockwork, HawView, Rotation, CYCLE_LENGTH_SECS,
};
use crate::aggregator::InverseExt;
use crate::window::eager::EagerWindowWheel;
use crate::window::lazy::LazyWindowWheel;
use crate::window::{WindowOp, WindowView, WindowWheel};
use crate::write::{combine_or_lift_spec, WriteAheadView};
use vstd::prelude::*;

verus! {

/// The write-ahead horizon is sharp: the last millisecond before it is
/// neither late nor beyond the horizon, so that an insert there succeeds;
/// the horizon itself, and every timestamp after it, is beyond it.
pub proof fn law_overflow_boundary<A: Aggregator>(wheel: WriteAheadView<A>, later: u64)
    requires
        wheel.write_ahead_len() >= 1,
        wheel.max_write_ahead_ts() <= later,
    ensures
        !wheel.is_late((wheel.max_write_ahead_ts() - 1) as u64),
        !wheel.overflows((wheel.max_write_ahead_ts() - 1) as u64),
        wheel.overflows(wheel.max_write_ahead_ts() as u64),
        wheel.overflows(later),
{
}

/// The watermark is the line between late and on time: one millisecond
/// below it an entry is late, so that an insert fails; at the watermark it is
/// neither late nor beyond the horizon, so that an insert succeeds.
pub proof fn law_late_boundary<A: Aggregator>(wheel: WriteAheadView<A>)
    requires
        wheel.write_ahead_len() >= 1,
        wheel.watermark >= 1,
    ensures
        wheel.is_late((wheel.watermark - 1) as u64),
        !wheel.overflows((wheel.watermark - 1) as u64),
        !wheel.is_late(wheel.watermark),
        !wheel.overflows(wheel.watermark),
{
}

/// An advance by more than a cycle leaves every wheel without a completed
/// slot and at the start of a rotation.
pub proof fn law_long_advance_clears<A: Aggregator>(wheels: Clockwork<A>, secs: nat)
    requires
        secs > CYCLE_LENGTH_SECS,
    ensures
        ({
            let after = wheels.advance(secs).haw;
            &&& after.seconds.rotation_count == 0 && after.seconds.len() == 0
            &&& after.minutes.rotation_count == 0 && after.minutes.len() == 0
            &&& after.hours.rotation_count == 0 && after.hours.len() == 0
            &&& after.days.rotation_count == 0 && after.days.len() == 0
            &&& after.weeks.rotation_count == 0 && after.weeks.len() == 0
            &&& after.years.rotation_count == 0 && after.years.len() == 0
            &&& after.len() == 0
            &&& after.landmark() is None
        }),
{
    let after = wheels.advance(secs).haw;
    let totals = seq![
        after.seconds.total,
        after.minutes.total,
        after.hours.total,
        after.days.total,
        after.weeks.total,
        after.years.total,
    ];
    crate::aggregator::lemma_fold_opt_all_empty::<A>(totals);
}

/// The totals of the six wheels, from seconds to years.
pub open spec fn totals<A: Aggregator>(haw: HawView<A>) -> Seq<Option<A::PartialAggregate>> {
    seq![
        haw.seconds.total,
        haw.minutes.total,
        haw.hours.total,
        haw.days.total,
        haw.weeks.total,
        haw.years.total,
    ]
}

/// The landmark of two merged wheels is the combination of their landmarks.
pub proof fn law_merge_landmark<A: Aggregator>(a: HawView<A>, b: HawView<A>)
    ensures
        a.merge(b).landmark() == combine_opt::<A>(a.landmark(), b.landmark()),
{
    assert(totals(a.merge(b)) =~= zip_opt::<A>(totals(a), totals(b)));
    lemma_fold_opt_zip::<A>(totals(a), totals(b));
}

/// What two wheels hand up differs by `part`: both hand up something or
/// neither does, and the total of the second is that of the first combined with `part`.
pub open spec fn carries<A: Aggregator>(
    first: Option<Rotation<A>>,
    second: Option<Rotation<A>>,
    part: A::PartialAggregate,
) -> bool {
    &&& first is Some <==> second is Some
    &&& first is Some ==> second->0.total == combine_opt::<A>(first->0.total, Some(part))
}

/// A wheel that is fed a total with `part` combined into it either keeps
/// `part` in its own total or hands it up with its rotation.
proof fn lemma_fed_carries<A: Aggregator>(
    wheel: WheelView<A>,
    first: Option<Rotation<A>>,
    second: Option<Rotation<A>>,
    part: A::PartialAggregate,
)
    requires
        carries(first, second, part),
    ensures
        carries(fed_emission(wheel, first), fed_emission(wheel, second), part),
        first is None ==> fed(wheel, second).total == fed(wheel, first).total,
        first is Some && fed_emission(wheel, first) is None ==> fed(wheel, second).total
            == combine_opt::<A>(fed(wheel, first).total, Some(part)),
        fed_emission(wheel, first) is Some ==> fed(wheel, second).total is None && fed(
            wheel,
            first,
        ).total is None,
{
    if first is Some {
        lemma_combine_opt_associative::<A>(wheel.total, first->0.total, Some(part));
    }
}

/// A tick that takes `part` in besides `partial`, and does not end the
/// cycle, combines `part` into the landmark.
pub proof fn lemma_tick_carries<A: Aggregator>(
    haw: HawView<A>,
    partial: Option<A::PartialAggregate>,
    part: A::PartialAggregate,
)
    requires
        !haw.completes_cycle(),
    ensures
        haw.tick(combine_opt::<A>(partial, Some(part))).landmark() == combine_opt::<A>(
            haw.tick(partial).landmark(),
            Some(part),
        ),
{
    let both = combine_opt::<A>(partial, Some(part));
    let first = haw.tick(partial);
    let second = haw.tick(both);
    lemma_combine_opt_associative::<A>(haw.seconds.total, partial, Some(part));
    let s1 = emission(haw.seconds_with(partial));
    let s2 = emission(haw.seconds_with(both));
    assert(carries(s1, s2, part));
    lemma_fed_carries(haw.minutes, s1, s2, part);
    let m1 = fed_emission(haw.minutes, s1);
    let m2 = fed_emission(haw.minutes, s2);
    lemma_fed_carries(haw.hours, m1, m2, part);
    let h1 = fed_emission(haw.hours, m1);
    let h2 = fed_emission(haw.hours, m2);
    lemma_fed_carries(haw.days, h1, h2, part);
    let d1 = fed_emission(haw.days, h1);
    let d2 = fed_emission(haw.days, h2);
    lemma_fed_carries(haw.weeks, d1, d2, part);
    let w1 = fed_emission(haw.weeks, d1);
    let w2 = fed_emission(haw.weeks, d2);
    lemma_fed_carries(haw.years, w1, w2, part);
    let index: int = if s1 is None {
        0
    } else if m1 is None {
        1
    } else if h1 is None {
        2
    } else if d1 is None {
        3
    } else if w1 is None {
        4
    } else {
        5
    };
    assert(fed_emission(haw.years, w1) is None);
    assert(totals(second) =~= totals(first).update(
        index,
        combine_opt::<A>(totals(first)[index], Some(part)),
    ));
    lemma_fold_opt_update::<A>(totals(first), index, Some(part));
}

/// The write-ahead wheel with `slot` in place of what is pending `offset` seconds ahead.
pub open spec fn with_slot<A: Aggregator>(
    waw: WriteAheadView<A>,
    offset: int,
    slot: Option<A::MutablePartialAggregate>,
) -> WriteAheadView<A> {
    WriteAheadView { pending: waw.pending.update(offset, slot), ..waw }
}

/// What is pending further ahead than the ticks reach changes nothing in
/// the hierarchical wheel: it only comes closer.
proof fn lemma_ticks_before_slot<A: Aggregator>(
    wheels: Clockwork<A>,
    offset: int,
    slot: Option<A::MutablePartialAggregate>,
    n: nat,
)
    requires
        n <= offset < wheels.waw.pending.len(),
    ensures
        wheels.ticks(n).waw.pending.len() == wheels.waw.pending.len(),
        wheels.ticks(n).waw.pending[offset - n] == wheels.waw.pending[offset],
        (Clockwork { waw: with_slot(wheels.waw, offset, slot), ..wheels }).ticks(n) == (Clockwork {
            waw: with_slot(wheels.ticks(n).waw, offset - n, slot),
            ..wheels.ticks(n)
        }),
    decreases n,
{
    if n > 0 {
        let m = (n - 1) as nat;
        lemma_ticks_before_slot(wheels, offset, slot, m);
        let before = wheels.ticks(m);
        let changed = Clockwork { waw: with_slot(before.waw, offset - m, slot), ..before };
        assert(changed.waw.front() == before.waw.front());
        assert(changed.tick().waw.pending =~= with_slot(
            before.tick().waw,
            offset - n,
            slot,
        ).pending);
    }
}

/// An entry that is inserted at or above the watermark and within the
/// write-ahead horizon is counted in the landmark exactly once, as soon as
/// the wheel has advanced past its second: the landmark is then that of the
/// wheel without the entry, combined with the frozen lift of the entry's
/// data. The tick that takes the entry in must not be the one that ends the
/// cycle, and the advance must be short enough to be ticked.
pub proof fn law_insert_counts_once<A: Aggregator>(wheels: Clockwork<A>, entry: Entry<A::Input>)
    requires
        wheels.waw.watermark == wheels.haw.watermark,
        !wheels.waw.is_late(entry.timestamp),
        !wheels.waw.overflows(entry.timestamp),
        entry.timestamp + 1000 <= u64::MAX,
        wheels.waw.offset_of(entry.timestamp) < CYCLE_LENGTH_SECS,
        !wheels.ticks(wheels.waw.offset_of(entry.timestamp) as nat).haw.completes_cycle(),
    ensures
        (Clockwork { waw: wheels.waw.insert(entry), ..wheels }).advance_to(
            (entry.timestamp + 1000) as u64,
        ).haw.landmark() == combine_opt::<A>(
            wheels.advance_to((entry.timestamp + 1000) as u64).haw.landmark(),
            Some(A::freeze_spec(A::lift_spec(entry.data))),
        ),
{
    let offset = wheels.waw.offset_of(entry.timestamp);
    let n = offset as nat;
    let waiting = wheels.waw.pending[offset];
    let slot = Some(combine_or_lift_spec::<A>(waiting, entry.data));
    let with_entry = Clockwork { waw: wheels.waw.insert(entry), ..wheels };
    assert(with_entry.waw == with_slot(wheels.waw, offset, slot));
    assert(((entry.timestamp + 1000) as u64 - wheels.haw.watermark) / 1000 == offset + 1);
    assert(with_entry.advance_to((entry.timestamp + 1000) as u64) == with_entry.ticks(n + 1));
    assert(wheels.advance_to((entry.timestamp + 1000) as u64) == wheels.ticks(n + 1));
    lemma_ticks_before_slot(wheels, offset, slot, n);
    let before = wheels.ticks(n);
    let part = A::freeze_spec(A::lift_spec(entry.data));
    assert(before.waw.front() == waiting);
    if waiting is Some {
        A::freeze_combine_mutable(waiting->0, entry.data);
    }
    assert(freeze_opt::<A>(slot) == combine_opt::<A>(freeze_opt::<A>(waiting), Some(part)));
    lemma_tick_carries(before.haw, freeze_opt::<A>(waiting), part);
}

/// A lazy and an eager window wheel that hold the same complete the same
/// windows on the same stream: after each of the calls of any sequence of
/// inserts and advances, made on both, they hold the same, and so the same
/// results in the same order. Wheels made for the same time, range and
/// slide hold the same to begin with. Each call on a wheel of either kind
/// is verified to change what the wheel holds as `after_op` says.
pub proof fn law_window_wheels_agree<A: InverseExt>(
    lazy: LazyWindowWheel<A>,
    eager: EagerWindowWheel<A>,
    ops: Seq<WindowOp<A>>,
    calls: int,
)
    requires
        lazy.window_view() == eager.window_view(),
        0 <= calls <= ops.len(),
    ensures
        lazy.window_view().after_ops(ops.take(calls)) == eager.window_view().after_ops(
            ops.take(calls),
        ),
        lazy.window_view().after_ops(ops.take(calls)).results == eager.window_view().after_ops(
            ops.take(calls),
        ).results,
{
}

/// Calls made one after the other are a sequence of calls: what a wheel
/// holds after a sequence and one more call is what `after_op` makes of what
/// it held after the sequence.
pub proof fn lemma_window_ops_step<A: Aggregator>(
    view: WindowView<A>,
    ops: Seq<WindowOp<A>>,
    op: WindowOp<A>,
)
    ensures
        view.after_ops(ops.push(op)) == view.after_ops(ops).after_op(op),
        view.after_ops(Seq::empty()) == view,
{
    assert(ops.push(op).drop_last() =~= ops);
}

} // verus!
