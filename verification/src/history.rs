//! The hierarchical wheel as a record of the seconds that have passed:
//! what each wheel holds is a function of what was handed to the seconds
//! wheel, second by second, since the wheel was made or last cleared.
use crate::aggregation::{last_n, WheelView};
use crate::aggregator::{
    combine_opt, fold_opt, lemma_combine_opt_commutative, lemma_fold_opt_concat,
    lemma_fold_opt_single, lemma_fold_opt_zip, zip_opt, Aggregator,
};
use crate::hierarchical::{
    capped, emission, fed, fed_emission, freeze_opt, time_parts, Clockwork, HawView, Rotation,
    TimeParts, TOTAL_SECS_IN_WHEEL,
};
use crate::write::WriteAheadView;
use vstd::prelude::*;

verus! {

/// The history cut into chunks of `size` slots, each folded into one slot.
/// Slots that do not fill a chunk are left out.
#[verifier::opaque]
pub open spec fn chunks<A: Aggregator>(hist: Seq<Option<A::PartialAggregate>>, size: nat) -> Seq<
    Option<A::PartialAggregate>,
> {
    Seq::new(
        hist.len() / size,
        |j: int| fold_opt::<A>(hist.subrange(j * size, (j + 1) * size)),
    )
}

/// A wheel holds what a history of its slots says: its completed slots
/// are the last of the history, its rotation count is the number of slots
/// since the last full round, its total is their combination, and nothing
/// is in the slot at its head.
pub open spec fn follows<A: Aggregator>(
    wheel: WheelView<A>,
    hist: Seq<Option<A::PartialAggregate>>,
) -> bool {
    &&& wheel.slots == last_n(hist, wheel.capacity)
    &&& wheel.rotation_count == hist.len() % wheel.capacity
    &&& wheel.total == fold_opt::<A>(last_n(hist, wheel.rotation_count))
    &&& wheel.head is None
}

/// What the remainder does when one is added.
pub proof fn lemma_mod_step(n: nat, c: nat)
    requires
        c > 0,
    ensures
        (n + 1) % c == if n % c + 1 == c {
            0
        } else {
            n % c + 1
        },
        (n + 1) / c == if n % c + 1 == c {
            n / c + 1
        } else {
            n / c
        },
{
    vstd::arithmetic::div_mod::lemma_fundamental_div_mod(n as int, c as int);
    vstd::arithmetic::div_mod::lemma_mod_bound(n as int, c as int);
    let q = n / c;
    let r = n % c;
    assert(n == c * q + r);
    if r + 1 == c {
        assert(n + 1 == (q + 1) * c + 0) by (nonlinear_arith)
            requires
                n == c * q + r,
                r + 1 == c,
        ;
        vstd::arithmetic::div_mod::lemma_fundamental_div_mod_converse(
            (n + 1) as int,
            c as int,
            (q + 1) as int,
            0,
        );
    } else {
        assert(n + 1 == q * c + (r + 1)) by (nonlinear_arith)
            requires
                n == c * q + r,
        ;
        vstd::arithmetic::div_mod::lemma_fundamental_div_mod_converse(
            (n + 1) as int,
            c as int,
            q as int,
            (r + 1) as int,
        );
    }
}

/// A wheel that follows a history still does after a tick in which `part`
/// came into the slot at its head: the history is then one slot longer. The
/// wheel rotates where the history has become a multiple of its capacity,
/// and hands up the combination of the last round.
pub proof fn lemma_follows_tick<A: Aggregator>(
    wheel: WheelView<A>,
    hist: Seq<Option<A::PartialAggregate>>,
    part: Option<A::PartialAggregate>,
    filled: WheelView<A>,
)
    requires
        wheel.wf(),
        follows(wheel, hist),
        filled.capacity == wheel.capacity,
        filled.slots == wheel.slots,
        filled.rotation_count == wheel.rotation_count,
        filled.head == part,
        filled.total == combine_opt::<A>(wheel.total, part),
    ensures
        follows(filled.tick(), hist.push(part)),
        filled.rotates() <==> (hist.len() + 1) % wheel.capacity == 0,
        filled.rotates() ==> filled.rotation_total() == fold_opt::<A>(
            last_n(hist.push(part), wheel.capacity),
        ),
        filled.slots_after_tick() == last_n(hist.push(part), wheel.capacity),
        filled.rotates() ==> filled.slots_after_tick().len() == wheel.capacity,
{
    let longer = hist.push(part);
    let after = filled.tick();
    lemma_mod_step(hist.len(), wheel.capacity);
    if filled.rotates() {
        vstd::arithmetic::div_mod::lemma_fundamental_div_mod(
            (hist.len() + 1) as int,
            wheel.capacity as int,
        );
        let rounds = (hist.len() + 1) as int / (wheel.capacity as int);
        assert(longer.len() >= wheel.capacity) by (nonlinear_arith)
            requires
                longer.len() == wheel.capacity * rounds,
                longer.len() > 0,
                wheel.capacity > 0,
        ;
    }
    assert(after.slots =~= last_n(longer, wheel.capacity));
    let round = last_n(longer, wheel.rotation_count + 1);
    assert(round.drop_last() =~= last_n(hist, wheel.rotation_count));
    assert(round.last() == part);
    if filled.rotates() {
        assert(last_n(longer, 0) =~= Seq::<Option<A::PartialAggregate>>::empty());
    }
}

/// What one more slot does to the chunks of a history: where it fills a
/// chunk, the fold of that chunk joins them; else they stay.
pub proof fn lemma_chunks_push<A: Aggregator>(
    hist: Seq<Option<A::PartialAggregate>>,
    part: Option<A::PartialAggregate>,
    size: nat,
)
    requires
        size > 0,
    ensures
        chunks::<A>(hist.push(part), size) == if (hist.len() + 1) % size == 0 {
            chunks::<A>(hist, size).push(fold_opt::<A>(last_n(hist.push(part), size)))
        } else {
            chunks::<A>(hist, size)
        },
{
    reveal(chunks);
    let longer = hist.push(part);
    let before = chunks::<A>(hist, size);
    let after = chunks::<A>(longer, size);
    lemma_mod_step(hist.len(), size);
    vstd::arithmetic::div_mod::lemma_fundamental_div_mod(hist.len() as int, size as int);
    assert forall|j: int| 0 <= j < before.len() implies after[j] == before[j] by {
        assert((j + 1) * size <= hist.len()) by (nonlinear_arith)
            requires
                0 <= j < hist.len() / size,
                hist.len() == size * (hist.len() / size) + hist.len() % size,
                hist.len() % size >= 0,
                size > 0,
        ;
        assert(0 <= j * size) by (nonlinear_arith)
            requires
                0 <= j,
                size > 0,
        ;
        assert(j * size <= (j + 1) * size) by (nonlinear_arith)
            requires
                0 <= j,
                size > 0,
        ;
        assert(longer.subrange(j * size, (j + 1) * size) =~= hist.subrange(
            j * size,
            (j + 1) * size,
        ));
    }
    if (hist.len() + 1) % size == 0 {
        let j = (hist.len() / size) as int;
        assert((j + 1) * size == hist.len() + 1) by (nonlinear_arith)
            requires
                hist.len() == size * j + hist.len() % size,
                hist.len() % size + 1 == size,
        ;
        assert(j * size == hist.len() + 1 - size) by (nonlinear_arith)
            requires
                (j + 1) * size == hist.len() + 1,
        ;
        assert(longer.subrange(j * size, (j + 1) * size) =~= last_n(longer, size));
        assert(after =~= before.push(fold_opt::<A>(last_n(longer, size))));
    } else {
        assert(after =~= before);
    }
}

/// The history of the minutes wheel: one slot for every sixty seconds.
pub open spec fn minutes_of<A: Aggregator>(seconds: Seq<Option<A::PartialAggregate>>) -> Seq<
    Option<A::PartialAggregate>,
> {
    chunks::<A>(seconds, 60)
}

/// The history of the hours wheel: one slot for every sixty minutes.
pub open spec fn hours_of<A: Aggregator>(seconds: Seq<Option<A::PartialAggregate>>) -> Seq<
    Option<A::PartialAggregate>,
> {
    chunks::<A>(minutes_of::<A>(seconds), 60)
}

/// The history of the days wheel: one slot for every twenty-four hours.
pub open spec fn days_of<A: Aggregator>(seconds: Seq<Option<A::PartialAggregate>>) -> Seq<
    Option<A::PartialAggregate>,
> {
    chunks::<A>(hours_of::<A>(seconds), 24)
}

/// The history of the weeks wheel: one slot for every seven days.
pub open spec fn weeks_of<A: Aggregator>(seconds: Seq<Option<A::PartialAggregate>>) -> Seq<
    Option<A::PartialAggregate>,
> {
    chunks::<A>(days_of::<A>(seconds), 7)
}

/// The history of the years wheel: one slot for every fifty-two weeks.
pub open spec fn years_of<A: Aggregator>(seconds: Seq<Option<A::PartialAggregate>>) -> Seq<
    Option<A::PartialAggregate>,
> {
    chunks::<A>(weeks_of::<A>(seconds), 52)
}

/// How many slots the histories of the wheels have.
pub proof fn lemma_history_lens<A: Aggregator>(seconds: Seq<Option<A::PartialAggregate>>)
    ensures
        minutes_of::<A>(seconds).len() == seconds.len() / 60,
        hours_of::<A>(seconds).len() == seconds.len() / 3600,
        days_of::<A>(seconds).len() == seconds.len() / 86400,
        weeks_of::<A>(seconds).len() == seconds.len() / 604800,
        years_of::<A>(seconds).len() == seconds.len() / 31449600,
        hours_of::<A>(seconds).len() == minutes_of::<A>(seconds).len() / 60,
        days_of::<A>(seconds).len() == hours_of::<A>(seconds).len() / 24,
        weeks_of::<A>(seconds).len() == days_of::<A>(seconds).len() / 7,
        years_of::<A>(seconds).len() == weeks_of::<A>(seconds).len() / 52,
{
    reveal(chunks);
    let n = seconds.len() as int;
    vstd::arithmetic::div_mod::lemma_div_denominator(n, 60, 60);
    vstd::arithmetic::div_mod::lemma_div_denominator(n, 3600, 24);
    vstd::arithmetic::div_mod::lemma_div_denominator(n, 86400, 7);
    vstd::arithmetic::div_mod::lemma_div_denominator(n, 604800, 52);
}

/// The hierarchical wheel holds what the record `seconds` says: one slot
/// for each second that has passed since the wheel was made or last
/// cleared, with what was handed to the seconds wheel for that second.
pub open spec fn tracks<A: Aggregator>(
    haw: HawView<A>,
    seconds: Seq<Option<A::PartialAggregate>>,
) -> bool {
    &&& follows(haw.seconds, seconds)
    &&& follows(haw.minutes, minutes_of::<A>(seconds))
    &&& follows(haw.hours, hours_of::<A>(seconds))
    &&& follows(haw.days, days_of::<A>(seconds))
    &&& follows(haw.weeks, weeks_of::<A>(seconds))
    &&& follows(haw.years, years_of::<A>(seconds))
}

/// The total that a wheel hands up, where it hands up anything.
pub open spec fn handed_up<A: Aggregator>(rotation: Option<Rotation<A>>) -> Option<
    A::PartialAggregate,
> {
    match rotation {
        Some(r) => r.total,
        None => None,
    }
}

/// A wheel that follows a history still does after the wheel below it has
/// ticked: where that one rotated, the history is one slot longer, by what
/// was handed up.
proof fn lemma_fed_follows<A: Aggregator>(
    wheel: WheelView<A>,
    hist: Seq<Option<A::PartialAggregate>>,
    below: Option<Rotation<A>>,
)
    requires
        wheel.wf(),
        follows(wheel, hist),
    ensures
        below is None ==> fed(wheel, below) == wheel && fed_emission(wheel, below) is None,
        below is Some ==> follows(fed(wheel, below), hist.push(handed_up(below))),
        below is Some ==> (fed_emission(wheel, below) is Some <==> (hist.len() + 1)
            % wheel.capacity == 0),
        fed_emission(wheel, below) is Some ==> handed_up(fed_emission(wheel, below)) == fold_opt::<
            A,
        >(last_n(hist.push(handed_up(below)), wheel.capacity)),
{
    if below is Some {
        let rotation = below->0;
        let filled = wheel.insert_rotation_data(rotation.total, rotation.drill);
        lemma_follows_tick(wheel, hist, rotation.total, filled);
    }
}

/// A wheel in which nothing has happened yet holds an empty record.
pub proof fn lemma_empty_tracks<A: Aggregator>(watermark: u64, drill_down: bool)
    ensures
        tracks(HawView::<A>::empty(watermark, drill_down), Seq::empty()),
{
    reveal(chunks);
    let none = Seq::<Option<A::PartialAggregate>>::empty();
    assert(minutes_of::<A>(none) =~= none);
    assert(hours_of::<A>(none) =~= none);
    assert(days_of::<A>(none) =~= none);
    assert(weeks_of::<A>(none) =~= none);
    assert(years_of::<A>(none) =~= none);
    assert(last_n(none, 60) =~= none);
    assert(last_n(none, 24) =~= none);
    assert(last_n(none, 7) =~= none);
    assert(last_n(none, 52) =~= none);
    assert(last_n(none, 10) =~= none);
    assert(last_n(none, 0) =~= none);
}

/// A tick keeps the record: it is then one second longer, by what was
/// handed to the seconds wheel.
pub proof fn lemma_tick_tracks<A: Aggregator>(
    haw: HawView<A>,
    seconds: Seq<Option<A::PartialAggregate>>,
    part: Option<A::PartialAggregate>,
)
    requires
        haw.wf(),
        tracks(haw, seconds),
    ensures
        tracks(haw.tick(part), seconds.push(part)),
{
    let longer = seconds.push(part);
    let filled = haw.seconds_with(part);
    lemma_follows_tick(haw.seconds, seconds, part, filled);
    let from_seconds = emission(filled);
    lemma_chunks_push::<A>(seconds, part, 60);
    lemma_fed_follows(haw.minutes, minutes_of::<A>(seconds), from_seconds);
    let from_minutes = fed_emission(haw.minutes, from_seconds);
    lemma_chunks_push::<A>(minutes_of::<A>(seconds), handed_up(from_seconds), 60);
    lemma_fed_follows(haw.hours, hours_of::<A>(seconds), from_minutes);
    let from_hours = fed_emission(haw.hours, from_minutes);
    lemma_chunks_push::<A>(hours_of::<A>(seconds), handed_up(from_minutes), 24);
    lemma_fed_follows(haw.days, days_of::<A>(seconds), from_hours);
    let from_days = fed_emission(haw.days, from_hours);
    lemma_chunks_push::<A>(days_of::<A>(seconds), handed_up(from_hours), 7);
    lemma_fed_follows(haw.weeks, weeks_of::<A>(seconds), from_days);
    let from_weeks = fed_emission(haw.weeks, from_days);
    lemma_chunks_push::<A>(weeks_of::<A>(seconds), handed_up(from_days), 52);
    lemma_fed_follows(haw.years, years_of::<A>(seconds), from_weeks);
}

/// Folding a range of chunks is folding the slots that they are made of.
pub proof fn lemma_chunks_range<A: Aggregator>(
    hist: Seq<Option<A::PartialAggregate>>,
    size: nat,
    from: int,
    to: int,
)
    requires
        size > 0,
        0 <= from <= to <= hist.len() / size,
    ensures
        from * size <= to * size <= hist.len(),
        chunks::<A>(hist, size).len() == hist.len() / size,
        fold_opt::<A>(chunks::<A>(hist, size).subrange(from, to)) == fold_opt::<A>(
            hist.subrange(from * size, to * size),
        ),
    decreases to - from,
{
    reveal(chunks);
    vstd::arithmetic::div_mod::lemma_fundamental_div_mod(hist.len() as int, size as int);
    assert(to * size <= hist.len()) by (nonlinear_arith)
        requires
            0 <= to <= hist.len() / size,
            hist.len() == size * (hist.len() / size) + hist.len() % size,
            hist.len() % size >= 0,
            size > 0,
    ;
    assert(from * size <= to * size) by (nonlinear_arith)
        requires
            0 <= from <= to,
            size > 0,
    ;
    assert(0 <= from * size) by (nonlinear_arith)
        requires
            0 <= from,
            size > 0,
    ;
    let folded = chunks::<A>(hist, size);
    if from == to {
        assert(folded.subrange(from, to) =~= Seq::<Option<A::PartialAggregate>>::empty());
        assert(hist.subrange(from * size, to * size) =~= Seq::<
            Option<A::PartialAggregate>,
        >::empty());
    } else {
        lemma_chunks_range::<A>(hist, size, from, to - 1);
        assert((to - 1) * size + size == to * size) by (nonlinear_arith);
        assert(from * size <= (to - 1) * size) by (nonlinear_arith)
            requires
                0 <= from <= to - 1,
                size > 0,
        ;
        assert(folded.subrange(from, to).drop_last() =~= folded.subrange(from, to - 1));
        assert(folded.subrange(from, to).last() == fold_opt::<A>(
            hist.subrange((to - 1) * size, to * size),
        ));
        assert(hist.subrange(from * size, to * size) =~= hist.subrange(
            from * size,
            (to - 1) * size,
        ) + hist.subrange((to - 1) * size, to * size));
        lemma_fold_opt_concat::<A>(
            hist.subrange(from * size, (to - 1) * size),
            hist.subrange((to - 1) * size, to * size),
        );
    }
}

/// Folding a range of minutes is folding its seconds.
pub proof fn lemma_minutes_range<A: Aggregator>(
    seconds: Seq<Option<A::PartialAggregate>>,
    from: int,
    to: int,
)
    requires
        0 <= from <= to <= minutes_of::<A>(seconds).len(),
    ensures
        0 <= from * 60 <= to * 60 <= seconds.len(),
        fold_opt::<A>(minutes_of::<A>(seconds).subrange(from, to)) == fold_opt::<A>(
            seconds.subrange(from * 60, to * 60),
        ),
{
    lemma_history_lens::<A>(seconds);
    lemma_chunks_range::<A>(seconds, 60, from, to);
}

/// Folding a range of hours is folding its seconds.
pub proof fn lemma_hours_range<A: Aggregator>(
    seconds: Seq<Option<A::PartialAggregate>>,
    from: int,
    to: int,
)
    requires
        0 <= from <= to <= hours_of::<A>(seconds).len(),
    ensures
        0 <= from * 3600 <= to * 3600 <= seconds.len(),
        fold_opt::<A>(hours_of::<A>(seconds).subrange(from, to)) == fold_opt::<A>(
            seconds.subrange(from * 3600, to * 3600),
        ),
{
    lemma_history_lens::<A>(seconds);
    lemma_chunks_range::<A>(minutes_of::<A>(seconds), 60, from, to);
    lemma_minutes_range::<A>(seconds, from * 60, to * 60);
}

/// Folding a range of days is folding its seconds.
pub proof fn lemma_days_range<A: Aggregator>(
    seconds: Seq<Option<A::PartialAggregate>>,
    from: int,
    to: int,
)
    requires
        0 <= from <= to <= days_of::<A>(seconds).len(),
    ensures
        0 <= from * 86400 <= to * 86400 <= seconds.len(),
        fold_opt::<A>(days_of::<A>(seconds).subrange(from, to)) == fold_opt::<A>(
            seconds.subrange(from * 86400, to * 86400),
        ),
{
    lemma_history_lens::<A>(seconds);
    lemma_chunks_range::<A>(hours_of::<A>(seconds), 24, from, to);
    lemma_hours_range::<A>(seconds, from * 24, to * 24);
}

/// Folding a range of weeks is folding its seconds.
pub proof fn lemma_weeks_range<A: Aggregator>(
    seconds: Seq<Option<A::PartialAggregate>>,
    from: int,
    to: int,
)
    requires
        0 <= from <= to <= weeks_of::<A>(seconds).len(),
    ensures
        0 <= from * 604800 <= to * 604800 <= seconds.len(),
        fold_opt::<A>(weeks_of::<A>(seconds).subrange(from, to)) == fold_opt::<A>(
            seconds.subrange(from * 604800, to * 604800),
        ),
{
    lemma_history_lens::<A>(seconds);
    lemma_chunks_range::<A>(days_of::<A>(seconds), 7, from, to);
    lemma_days_range::<A>(seconds, from * 7, to * 7);
}

/// Folding a range of years is folding its seconds.
pub proof fn lemma_years_range<A: Aggregator>(
    seconds: Seq<Option<A::PartialAggregate>>,
    from: int,
    to: int,
)
    requires
        0 <= from <= to <= years_of::<A>(seconds).len(),
    ensures
        0 <= from * 31449600 <= to * 31449600 <= seconds.len(),
        fold_opt::<A>(years_of::<A>(seconds).subrange(from, to)) == fold_opt::<A>(
            seconds.subrange(from * 31449600, to * 31449600),
        ),
{
    lemma_history_lens::<A>(seconds);
    lemma_chunks_range::<A>(weeks_of::<A>(seconds), 52, from, to);
    lemma_weeks_range::<A>(seconds, from * 52, to * 52);
}

/// The fold of 2 slots, written out.
proof fn lemma_fold2<A: Aggregator>(
    a: Option<A::PartialAggregate>,
    b: Option<A::PartialAggregate>,
)
    ensures
        fold_opt::<A>(seq![a, b]) == combine_opt::<A>(a, b),
{
    assert(seq![a, b].drop_last() =~= seq![a]);
    lemma_fold_opt_single::<A>(a);
}

/// The fold of 3 slots, written out.
proof fn lemma_fold3<A: Aggregator>(
    a: Option<A::PartialAggregate>,
    b: Option<A::PartialAggregate>,
    c: Option<A::PartialAggregate>,
)
    ensures
        fold_opt::<A>(seq![a, b, c]) == combine_opt::<A>(combine_opt::<A>(a, b), c),
{
    assert(seq![a, b, c].drop_last() =~= seq![a, b]);
    lemma_fold2::<A>(a, b);
}

/// The fold of 4 slots, written out.
proof fn lemma_fold4<A: Aggregator>(
    a: Option<A::PartialAggregate>,
    b: Option<A::PartialAggregate>,
    c: Option<A::PartialAggregate>,
    d: Option<A::PartialAggregate>,
)
    ensures
        fold_opt::<A>(seq![a, b, c, d]) == combine_opt::<A>(combine_opt::<A>(combine_opt::<A>(a, b), c), d),
{
    assert(seq![a, b, c, d].drop_last() =~= seq![a, b, c]);
    lemma_fold3::<A>(a, b, c);
}

/// The fold of 5 slots, written out.
proof fn lemma_fold5<A: Aggregator>(
    a: Option<A::PartialAggregate>,
    b: Option<A::PartialAggregate>,
    c: Option<A::PartialAggregate>,
    d: Option<A::PartialAggregate>,
    e: Option<A::PartialAggregate>,
)
    ensures
        fold_opt::<A>(seq![a, b, c, d, e]) == combine_opt::<A>(combine_opt::<A>(combine_opt::<A>(combine_opt::<A>(a, b), c), d), e),
{
    assert(seq![a, b, c, d, e].drop_last() =~= seq![a, b, c, d]);
    lemma_fold4::<A>(a, b, c, d);
}

/// The fold of 6 slots, written out.
proof fn lemma_fold6<A: Aggregator>(
    a: Option<A::PartialAggregate>,
    b: Option<A::PartialAggregate>,
    c: Option<A::PartialAggregate>,
    d: Option<A::PartialAggregate>,
    e: Option<A::PartialAggregate>,
    f: Option<A::PartialAggregate>,
)
    ensures
        fold_opt::<A>(seq![a, b, c, d, e, f]) == combine_opt::<A>(combine_opt::<A>(combine_opt::<A>(combine_opt::<A>(combine_opt::<A>(a, b), c), d), e), f),
{
    assert(seq![a, b, c, d, e, f].drop_last() =~= seq![a, b, c, d, e]);
    lemma_fold5::<A>(a, b, c, d, e);
}

/// What was recorded from second `from` on, folded.
pub open spec fn since<A: Aggregator>(seconds: Seq<Option<A::PartialAggregate>>, from: int) -> Option<
    A::PartialAggregate,
> {
    fold_opt::<A>(seconds.subrange(from, seconds.len() as int))
}

/// The last of the last is the last.
proof fn lemma_last_n_twice<T>(s: Seq<T>, outer: nat, inner: nat)
    requires
        inner <= outer,
    ensures
        last_n(last_n(s, outer), inner) == last_n(s, inner),
{
    assert(last_n(last_n(s, outer), inner) =~= last_n(s, inner));
}

/// What a wheel that follows a history answers: the interval of `n` slots
/// is the fold of the last `n` of the history; asked together with a
/// coarser wheel for as many slots as it has gathered since its last
/// rotation, it answers with its total.
proof fn lemma_wheel_answers<A: Aggregator>(
    wheel: WheelView<A>,
    hist: Seq<Option<A::PartialAggregate>>,
    n: nat,
)
    requires
        wheel.wf(),
        follows(wheel, hist),
    ensures
        n <= wheel.capacity ==> wheel.interval(n) == fold_opt::<A>(last_n(hist, n)),
        n == wheel.rotation_count ==> capped(wheel, n) == wheel.total,
        wheel.rotation_count == 0 ==> wheel.total is None,
        wheel.rotation_count <= hist.len(),
{
    vstd::arithmetic::div_mod::lemma_fundamental_div_mod(hist.len() as int, wheel.capacity as int);
    assert(wheel.rotation_count <= hist.len()) by (nonlinear_arith)
        requires
            hist.len() == wheel.capacity * (hist.len() / wheel.capacity) + wheel.rotation_count,
            hist.len() / wheel.capacity >= 0,
            wheel.capacity > 0,
    ;
    if n <= wheel.capacity {
        lemma_last_n_twice(hist, wheel.capacity, n);
    }
    if wheel.rotation_count == 0 {
        assert(last_n(hist, 0).len() == 0);
    }
}

/// Putting what is older before what is newer gives what was recorded since the older began.
proof fn lemma_since_step<A: Aggregator>(
    seconds: Seq<Option<A::PartialAggregate>>,
    older: Option<A::PartialAggregate>,
    from: int,
    to: int,
    newer: Option<A::PartialAggregate>,
)
    requires
        0 <= from <= to <= seconds.len(),
        older == fold_opt::<A>(seconds.subrange(from, to)),
        newer == since::<A>(seconds, to),
    ensures
        combine_opt::<A>(newer, older) == since::<A>(seconds, from),
{
    let n = seconds.len() as int;
    assert(seconds.subrange(from, n) =~= seconds.subrange(from, to) + seconds.subrange(to, n));
    lemma_fold_opt_concat::<A>(seconds.subrange(from, to), seconds.subrange(to, n));
    lemma_combine_opt_commutative::<A>(newer, older);
}

/// The total of a wheel that follows a history is the fold of the slots
/// of the history since the last full round.
proof fn lemma_total_range<A: Aggregator>(
    wheel: WheelView<A>,
    hist: Seq<Option<A::PartialAggregate>>,
)
    requires
        wheel.wf(),
        follows(wheel, hist),
    ensures
        0 <= hist.len() - hist.len() % wheel.capacity <= hist.len(),
        wheel.total == fold_opt::<A>(
            hist.subrange(hist.len() - hist.len() % wheel.capacity, hist.len() as int),
        ),
{
    lemma_wheel_answers(wheel, hist, 0);
    assert(last_n(hist, wheel.rotation_count) =~= hist.subrange(
        hist.len() - wheel.rotation_count,
        hist.len() as int,
    ));
}

/// Where the round of a wheel begins, in the slots of the wheel below
/// which it is `unit` slots of each.
proof fn lemma_round_start(len: int, cap: int, unit: int)
    requires
        0 <= len,
        0 < cap,
        0 < unit,
    ensures
        (len - len % cap) * unit == (len / cap) * (cap * unit),
{
    vstd::arithmetic::div_mod::lemma_fundamental_div_mod(len, cap);
    assert((cap * (len / cap)) * unit == (len / cap) * (cap * unit)) by (nonlinear_arith);
}

/// The total of the seconds wheel is what was recorded since the last full minute.
proof fn lemma_seconds_total<A: Aggregator>(
    haw: HawView<A>,
    seconds: Seq<Option<A::PartialAggregate>>,
)
    requires
        haw.seconds.wf(),
        haw.seconds.capacity == 60,
        follows(haw.seconds, seconds),
    ensures
        haw.seconds.total == since::<A>(seconds, (seconds.len() as int / 60) * 60),
{
    lemma_total_range(haw.seconds, seconds);
    lemma_round_start(seconds.len() as int, 60, 1);
}

/// The total of the minutes wheel is what was recorded in the minutes since its last rotation.
proof fn lemma_minutes_total<A: Aggregator>(
    haw: HawView<A>,
    seconds: Seq<Option<A::PartialAggregate>>,
)
    requires
        haw.minutes.wf(),
        haw.minutes.capacity == 60,
        follows(haw.minutes, minutes_of::<A>(seconds)),
    ensures
        0 <= (seconds.len() as int / 3600) * 3600 <= (seconds.len() as int / 60) * 60
            <= seconds.len(),
        haw.minutes.total == fold_opt::<A>(
            seconds.subrange(
                (seconds.len() as int / 3600) * 3600,
                (seconds.len() as int / 60) * 60,
            ),
        ),
{
    let hist = minutes_of::<A>(seconds);
    let len = hist.len() as int;
    lemma_history_lens::<A>(seconds);
    lemma_total_range(haw.minutes, hist);
    lemma_minutes_range::<A>(seconds, len - len % 60, len);
    lemma_round_start(len, 60, 60);
    vstd::arithmetic::div_mod::lemma_div_denominator(seconds.len() as int, 60, 60);
}

/// The total of the hours wheel is what was recorded in the hours since its last rotation.
proof fn lemma_hours_total<A: Aggregator>(
    haw: HawView<A>,
    seconds: Seq<Option<A::PartialAggregate>>,
)
    requires
        haw.hours.wf(),
        haw.hours.capacity == 24,
        follows(haw.hours, hours_of::<A>(seconds)),
    ensures
        0 <= (seconds.len() as int / 86400) * 86400 <= (seconds.len() as int / 3600) * 3600
            <= seconds.len(),
        haw.hours.total == fold_opt::<A>(
            seconds.subrange(
                (seconds.len() as int / 86400) * 86400,
                (seconds.len() as int / 3600) * 3600,
            ),
        ),
{
    let hist = hours_of::<A>(seconds);
    let len = hist.len() as int;
    lemma_history_lens::<A>(seconds);
    lemma_total_range(haw.hours, hist);
    lemma_hours_range::<A>(seconds, len - len % 24, len);
    lemma_round_start(len, 24, 3600);
    vstd::arithmetic::div_mod::lemma_div_denominator(seconds.len() as int, 3600, 24);
}

/// The total of the days wheel is what was recorded in the days since its last rotation.
proof fn lemma_days_total<A: Aggregator>(
    haw: HawView<A>,
    seconds: Seq<Option<A::PartialAggregate>>,
)
    requires
        haw.days.wf(),
        haw.days.capacity == 7,
        follows(haw.days, days_of::<A>(seconds)),
    ensures
        0 <= (seconds.len() as int / 604800) * 604800 <= (seconds.len() as int / 86400) * 86400
            <= seconds.len(),
        haw.days.total == fold_opt::<A>(
            seconds.subrange(
                (seconds.len() as int / 604800) * 604800,
                (seconds.len() as int / 86400) * 86400,
            ),
        ),
{
    let hist = days_of::<A>(seconds);
    let len = hist.len() as int;
    lemma_history_lens::<A>(seconds);
    lemma_total_range(haw.days, hist);
    lemma_days_range::<A>(seconds, len - len % 7, len);
    lemma_round_start(len, 7, 86400);
    vstd::arithmetic::div_mod::lemma_div_denominator(seconds.len() as int, 86400, 7);
}

/// The total of the weeks wheel is what was recorded in the weeks since its last rotation.
proof fn lemma_weeks_total<A: Aggregator>(
    haw: HawView<A>,
    seconds: Seq<Option<A::PartialAggregate>>,
)
    requires
        haw.weeks.wf(),
        haw.weeks.capacity == 52,
        follows(haw.weeks, weeks_of::<A>(seconds)),
    ensures
        0 <= (seconds.len() as int / 31449600) * 31449600 <= (seconds.len() as int / 604800) * 604800
            <= seconds.len(),
        haw.weeks.total == fold_opt::<A>(
            seconds.subrange(
                (seconds.len() as int / 31449600) * 31449600,
                (seconds.len() as int / 604800) * 604800,
            ),
        ),
{
    let hist = weeks_of::<A>(seconds);
    let len = hist.len() as int;
    lemma_history_lens::<A>(seconds);
    lemma_total_range(haw.weeks, hist);
    lemma_weeks_range::<A>(seconds, len - len % 52, len);
    lemma_round_start(len, 52, 604800);
    vstd::arithmetic::div_mod::lemma_div_denominator(seconds.len() as int, 604800, 52);
}

/// What the rotation counts of a wheel that keeps a record are.
pub proof fn lemma_rotation_counts<A: Aggregator>(
    haw: HawView<A>,
    seconds: Seq<Option<A::PartialAggregate>>,
)
    requires
        haw.wf(),
        tracks(haw, seconds),
    ensures
        haw.seconds.rotation_count == seconds.len() % 60,
        haw.minutes.rotation_count == (seconds.len() / 60) % 60,
        haw.hours.rotation_count == (seconds.len() / 3600) % 24,
        haw.days.rotation_count == (seconds.len() / 86400) % 7,
        haw.weeks.rotation_count == (seconds.len() / 604800) % 52,
        haw.years.rotation_count == (seconds.len() / 31449600) % 10,
{
    lemma_history_lens::<A>(seconds);
}

/// Asked together with a coarser wheel for as many slots as it has
/// gathered since its last rotation, a wheel answers with its total, which
/// is nothing where it has just rotated.
proof fn lemma_lower_answers<A: Aggregator>(
    haw: HawView<A>,
    seconds: Seq<Option<A::PartialAggregate>>,
)
    requires
        haw.wf(),
        tracks(haw, seconds),
    ensures
        capped(haw.seconds, haw.seconds.rotation_count) == haw.seconds.total,
        capped(haw.minutes, haw.minutes.rotation_count) == haw.minutes.total,
        capped(haw.hours, haw.hours.rotation_count) == haw.hours.total,
        capped(haw.days, haw.days.rotation_count) == haw.days.total,
        capped(haw.weeks, haw.weeks.rotation_count) == haw.weeks.total,
        haw.seconds.rotation_count == 0 ==> haw.seconds.total is None,
        haw.minutes.rotation_count == 0 ==> haw.minutes.total is None,
        haw.hours.rotation_count == 0 ==> haw.hours.total is None,
        haw.days.rotation_count == 0 ==> haw.days.total is None,
        haw.weeks.rotation_count == 0 ==> haw.weeks.total is None,
{
    lemma_wheel_answers(haw.seconds, seconds, haw.seconds.rotation_count);
    lemma_wheel_answers(haw.minutes, minutes_of::<A>(seconds), haw.minutes.rotation_count);
    lemma_wheel_answers(haw.hours, hours_of::<A>(seconds), haw.hours.rotation_count);
    lemma_wheel_answers(haw.days, days_of::<A>(seconds), haw.days.rotation_count);
    lemma_wheel_answers(haw.weeks, weeks_of::<A>(seconds), haw.weeks.rotation_count);
}

/// What the totals of the wheels below a level combine to, from the finest up.
#[verifier::opaque]
pub open spec fn below<A: Aggregator>(haw: HawView<A>, level: nat) -> Option<A::PartialAggregate> {
    let s0 = haw.seconds.total;
    let s1 = combine_opt::<A>(s0, haw.minutes.total);
    let s2 = combine_opt::<A>(s1, haw.hours.total);
    let s3 = combine_opt::<A>(s2, haw.days.total);
    let s4 = combine_opt::<A>(s3, haw.weeks.total);
    if level == 0 {
        None
    } else if level == 1 {
        s0
    } else if level == 2 {
        s1
    } else if level == 3 {
        s2
    } else if level == 4 {
        s3
    } else {
        s4
    }
}

/// What the wheels below a level have gathered since their last
/// rotations is what was recorded since the last rotation of the coarsest of them.
proof fn lemma_suffixes<A: Aggregator>(haw: HawView<A>, seconds: Seq<Option<A::PartialAggregate>>)
    requires
        haw.wf(),
        tracks(haw, seconds),
    ensures
        below(haw, 0) == since::<A>(seconds, seconds.len() as int),
        below(haw, 1) == since::<A>(seconds, (seconds.len() as int / 60) * 60),
        below(haw, 2) == since::<A>(seconds, (seconds.len() as int / 3600) * 3600),
        below(haw, 3) == since::<A>(seconds, (seconds.len() as int / 86400) * 86400),
        below(haw, 4) == since::<A>(seconds, (seconds.len() as int / 604800) * 604800),
        below(haw, 5) == since::<A>(seconds, (seconds.len() as int / 31449600) * 31449600),
{
    reveal(below);
    let n = seconds.len() as int;
    let s0 = haw.seconds.total;
    let s1 = combine_opt::<A>(s0, haw.minutes.total);
    let s2 = combine_opt::<A>(s1, haw.hours.total);
    let s3 = combine_opt::<A>(s2, haw.days.total);
    assert(seconds.subrange(n, n).len() == 0);
    lemma_seconds_total(haw, seconds);
    lemma_minutes_total(haw, seconds);
    lemma_since_step::<A>(seconds, haw.minutes.total, (n / 3600) * 3600, (n / 60) * 60, s0);
    lemma_hours_total(haw, seconds);
    lemma_since_step::<A>(seconds, haw.hours.total, (n / 86400) * 86400, (n / 3600) * 3600, s1);
    lemma_days_total(haw, seconds);
    lemma_since_step::<A>(seconds, haw.days.total, (n / 604800) * 604800, (n / 86400) * 86400, s2);
    lemma_weeks_total(haw, seconds);
    lemma_since_step::<A>(
        seconds,
        haw.weeks.total,
        (n / 31449600) * 31449600,
        (n / 604800) * 604800,
        s3,
    );
}

/// What the seconds wheel answers as the coarsest wheel of a query, put
/// before what the finer wheels have gathered, is what was recorded since
/// the first of the slots that it was asked for.
proof fn lemma_top_seconds<A: Aggregator>(
    haw: HawView<A>,
    seconds: Seq<Option<A::PartialAggregate>>,
    n: nat,
) -> (top: Option<A::PartialAggregate>)
    requires
        haw.wf(),
        tracks(haw, seconds),
        n <= 60,
    ensures
        haw.seconds.interval(n) == top,
        combine_opt::<A>(top, below(haw, 0)) == since::<A>(
            seconds,
            start_of_last(seconds.len() as int / 1, n as int) * 1,
        ),
{
    let hist = seconds;
    let len = hist.len() as int;
    let from = start_of_last(len, n as int);
    let top = fold_opt::<A>(last_n(hist, n));
    lemma_wheel_answers(haw.seconds, hist, n);
    assert(last_n(hist, n) =~= hist.subrange(from, len));
    lemma_suffixes(haw, seconds);
    lemma_since_step::<A>(seconds, top, from * 1, len * 1, below(haw, 0));
    lemma_combine_opt_commutative::<A>(below(haw, 0), top);
    top
}

/// What the minutes wheel answers as the coarsest wheel of a query, put
/// before what the finer wheels have gathered, is what was recorded since
/// the first of the slots that it was asked for.
proof fn lemma_top_minutes<A: Aggregator>(
    haw: HawView<A>,
    seconds: Seq<Option<A::PartialAggregate>>,
    n: nat,
) -> (top: Option<A::PartialAggregate>)
    requires
        haw.wf(),
        tracks(haw, seconds),
        n <= 60,
    ensures
        haw.minutes.interval(n) == top,
        combine_opt::<A>(top, below(haw, 1)) == since::<A>(
            seconds,
            start_of_last(seconds.len() as int / 60, n as int) * 60,
        ),
{
    let hist = minutes_of::<A>(seconds);
    let len = hist.len() as int;
    let from = start_of_last(len, n as int);
    let top = fold_opt::<A>(last_n(hist, n));
    lemma_history_lens::<A>(seconds);
    lemma_wheel_answers(haw.minutes, hist, n);
    assert(last_n(hist, n) =~= hist.subrange(from, len));
    lemma_minutes_range::<A>(seconds, from, len);
    lemma_suffixes(haw, seconds);
    lemma_since_step::<A>(seconds, top, from * 60, len * 60, below(haw, 1));
    lemma_combine_opt_commutative::<A>(below(haw, 1), top);
    top
}

/// What the hours wheel answers as the coarsest wheel of a query, put
/// before what the finer wheels have gathered, is what was recorded since
/// the first of the slots that it was asked for.
proof fn lemma_top_hours<A: Aggregator>(
    haw: HawView<A>,
    seconds: Seq<Option<A::PartialAggregate>>,
    n: nat,
) -> (top: Option<A::PartialAggregate>)
    requires
        haw.wf(),
        tracks(haw, seconds),
        n <= 24,
    ensures
        haw.hours.interval(n) == top,
        combine_opt::<A>(top, below(haw, 2)) == since::<A>(
            seconds,
            start_of_last(seconds.len() as int / 3600, n as int) * 3600,
        ),
{
    let hist = hours_of::<A>(seconds);
    let len = hist.len() as int;
    let from = start_of_last(len, n as int);
    let top = fold_opt::<A>(last_n(hist, n));
    lemma_history_lens::<A>(seconds);
    lemma_wheel_answers(haw.hours, hist, n);
    assert(last_n(hist, n) =~= hist.subrange(from, len));
    lemma_hours_range::<A>(seconds, from, len);
    lemma_suffixes(haw, seconds);
    lemma_since_step::<A>(seconds, top, from * 3600, len * 3600, below(haw, 2));
    lemma_combine_opt_commutative::<A>(below(haw, 2), top);
    top
}

/// What the days wheel answers as the coarsest wheel of a query, put
/// before what the finer wheels have gathered, is what was recorded since
/// the first of the slots that it was asked for.
proof fn lemma_top_days<A: Aggregator>(
    haw: HawView<A>,
    seconds: Seq<Option<A::PartialAggregate>>,
    n: nat,
) -> (top: Option<A::PartialAggregate>)
    requires
        haw.wf(),
        tracks(haw, seconds),
        n <= 7,
    ensures
        haw.days.interval(n) == top,
        combine_opt::<A>(top, below(haw, 3)) == since::<A>(
            seconds,
            start_of_last(seconds.len() as int / 86400, n as int) * 86400,
        ),
{
    let hist = days_of::<A>(seconds);
    let len = hist.len() as int;
    let from = start_of_last(len, n as int);
    let top = fold_opt::<A>(last_n(hist, n));
    lemma_history_lens::<A>(seconds);
    lemma_wheel_answers(haw.days, hist, n);
    assert(last_n(hist, n) =~= hist.subrange(from, len));
    lemma_days_range::<A>(seconds, from, len);
    lemma_suffixes(haw, seconds);
    lemma_since_step::<A>(seconds, top, from * 86400, len * 86400, below(haw, 3));
    lemma_combine_opt_commutative::<A>(below(haw, 3), top);
    top
}

/// What the weeks wheel answers as the coarsest wheel of a query, put
/// before what the finer wheels have gathered, is what was recorded since
/// the first of the slots that it was asked for.
proof fn lemma_top_weeks<A: Aggregator>(
    haw: HawView<A>,
    seconds: Seq<Option<A::PartialAggregate>>,
    n: nat,
) -> (top: Option<A::PartialAggregate>)
    requires
        haw.wf(),
        tracks(haw, seconds),
        n <= 52,
    ensures
        haw.weeks.interval(n) == top,
        combine_opt::<A>(top, below(haw, 4)) == since::<A>(
            seconds,
            start_of_last(seconds.len() as int / 604800, n as int) * 604800,
        ),
{
    let hist = weeks_of::<A>(seconds);
    let len = hist.len() as int;
    let from = start_of_last(len, n as int);
    let top = fold_opt::<A>(last_n(hist, n));
    lemma_history_lens::<A>(seconds);
    lemma_wheel_answers(haw.weeks, hist, n);
    assert(last_n(hist, n) =~= hist.subrange(from, len));
    lemma_weeks_range::<A>(seconds, from, len);
    lemma_suffixes(haw, seconds);
    lemma_since_step::<A>(seconds, top, from * 604800, len * 604800, below(haw, 4));
    lemma_combine_opt_commutative::<A>(below(haw, 4), top);
    top
}

/// What the years wheel answers as the coarsest wheel of a query, put
/// before what the finer wheels have gathered, is what was recorded since
/// the first of the slots that it was asked for.
proof fn lemma_top_years<A: Aggregator>(
    haw: HawView<A>,
    seconds: Seq<Option<A::PartialAggregate>>,
    n: nat,
) -> (top: Option<A::PartialAggregate>)
    requires
        haw.wf(),
        tracks(haw, seconds),
        n <= 10,
    ensures
        haw.years.interval(n) == top,
        combine_opt::<A>(top, below(haw, 5)) == since::<A>(
            seconds,
            start_of_last(seconds.len() as int / 31449600, n as int) * 31449600,
        ),
{
    let hist = years_of::<A>(seconds);
    let len = hist.len() as int;
    let from = start_of_last(len, n as int);
    let top = fold_opt::<A>(last_n(hist, n));
    lemma_history_lens::<A>(seconds);
    lemma_wheel_answers(haw.years, hist, n);
    assert(last_n(hist, n) =~= hist.subrange(from, len));
    lemma_years_range::<A>(seconds, from, len);
    lemma_suffixes(haw, seconds);
    lemma_since_step::<A>(seconds, top, from * 31449600, len * 31449600, below(haw, 5));
    lemma_combine_opt_commutative::<A>(below(haw, 5), top);
    top
}

/// The slot of a history at which its last `n` slots begin.
pub open spec fn start_of_last(len: int, n: int) -> int {
    if n >= len {
        0
    } else {
        len - n
    }
}

/// A component of a span as a number: zero where it is absent.
pub open spec fn part_or_zero(part: Option<usize>) -> nat {
    match part {
        Some(n) => n as nat,
        None => 0,
    }
}

/// The level of the coarsest wheel that a query of these components asks.
pub open spec fn top_level(parts: TimeParts) -> nat {
    if parts.year is Some {
        5
    } else if parts.week is Some {
        4
    } else if parts.day is Some {
        3
    } else if parts.hour is Some {
        2
    } else if parts.minute is Some {
        1
    } else {
        0
    }
}

/// The component of the coarsest wheel that a query of these components asks.
pub open spec fn top_part(parts: TimeParts) -> nat {
    if parts.year is Some {
        part_or_zero(parts.year)
    } else if parts.week is Some {
        part_or_zero(parts.week)
    } else if parts.day is Some {
        part_or_zero(parts.day)
    } else if parts.hour is Some {
        part_or_zero(parts.hour)
    } else if parts.minute is Some {
        part_or_zero(parts.minute)
    } else {
        part_or_zero(parts.second)
    }
}

/// The query fits the state of the wheel: below the coarsest wheel that it
/// asks, each component is the rotation count of its wheel, so that the
/// span ends where the wheel stands and starts at a slot of the coarsest wheel.
pub open spec fn aligned<A: Aggregator>(haw: HawView<A>, parts: TimeParts) -> bool {
    let level = top_level(parts);
    &&& level > 0 ==> part_or_zero(parts.second) == haw.seconds.rotation_count
    &&& level > 1 ==> part_or_zero(parts.minute) == haw.minutes.rotation_count
    &&& level > 2 ==> part_or_zero(parts.hour) == haw.hours.rotation_count
    &&& level > 3 ==> part_or_zero(parts.day) == haw.days.rotation_count
    &&& level > 4 ==> part_or_zero(parts.week) == haw.weeks.rotation_count
}

/// The answer of the coarsest wheel that a query of these components asks.
pub open spec fn top_answer<A: Aggregator>(haw: HawView<A>, parts: TimeParts) -> Option<
    A::PartialAggregate,
> {
    let level = top_level(parts);
    let n = top_part(parts);
    let wheel = if level == 5 {
        haw.years
    } else if level == 4 {
        haw.weeks
    } else if level == 3 {
        haw.days
    } else if level == 2 {
        haw.hours
    } else if level == 1 {
        haw.minutes
    } else {
        haw.seconds
    };
    wheel.interval(n)
}

/// The answer to an aligned query is that of its coarsest wheel, put
/// before what the finer wheels have gathered since their last rotations.
proof fn lemma_aligned_answer<A: Aggregator>(haw: HawView<A>, parts: TimeParts)
    requires
        parts.is_supported(),
        aligned(haw, parts),
        capped(haw.seconds, haw.seconds.rotation_count) == haw.seconds.total,
        capped(haw.minutes, haw.minutes.rotation_count) == haw.minutes.total,
        capped(haw.hours, haw.hours.rotation_count) == haw.hours.total,
        capped(haw.days, haw.days.rotation_count) == haw.days.total,
        capped(haw.weeks, haw.weeks.rotation_count) == haw.weeks.total,
        haw.seconds.rotation_count == 0 ==> haw.seconds.total is None,
        haw.minutes.rotation_count == 0 ==> haw.minutes.total is None,
        haw.hours.rotation_count == 0 ==> haw.hours.total is None,
        haw.days.rotation_count == 0 ==> haw.days.total is None,
        haw.weeks.rotation_count == 0 ==> haw.weeks.total is None,
    ensures
        haw.combine_time(parts) == combine_opt::<A>(
            top_answer(haw, parts),
            below(haw, top_level(parts)),
        ),
{
    reveal(below);
    let top = top_answer(haw, parts);
    let t0 = haw.seconds.total;
    let t1 = haw.minutes.total;
    let t2 = haw.hours.total;
    let t3 = haw.days.total;
    let t4 = haw.weeks.total;
    let newer = below(haw, top_level(parts));
    lemma_combine_opt_commutative::<A>(newer, top);
    let level = top_level(parts);
    if level == 5 {
        lemma_fold2::<A>(top, t4);
        lemma_fold6::<A>(t0, t1, t2, t3, t4, top);
    } else if level == 4 {
        lemma_fold5::<A>(t0, t1, t2, t3, top);
    } else if level == 3 {
        lemma_fold2::<A>(t2, top);
        lemma_fold3::<A>(t1, t2, top);
        lemma_fold4::<A>(t0, t1, t2, top);
    } else if level == 2 {
        lemma_fold2::<A>(top, t0);
        lemma_fold2::<A>(t1, top);
        lemma_fold3::<A>(t0, t1, top);
    } else if level == 1 {
        lemma_fold2::<A>(top, t0);
    }
}

/// A number of seconds taken apart into minutes, hours, days, weeks and years.
proof fn lemma_mixed_radix(x: int)
    requires
        0 <= x,
    ensures
        x % 3600 == 60 * ((x / 60) % 60) + x % 60,
        x % 86400 == 3600 * ((x / 3600) % 24) + x % 3600,
        x % 604800 == 86400 * ((x / 86400) % 7) + x % 86400,
        x % 31449600 == 604800 * ((x / 604800) % 52) + x % 604800,
        (x / 604800) / 52 == x / 31449600,
        x == 60 * (x / 60) + x % 60,
        x == 3600 * (x / 3600) + x % 3600,
        x == 86400 * (x / 86400) + x % 86400,
        x == 604800 * (x / 604800) + x % 604800,
        x == 31449600 * (x / 31449600) + x % 31449600,
{
    vstd::arithmetic::div_mod::lemma_mod_breakdown(x, 60, 60);
    vstd::arithmetic::div_mod::lemma_mod_breakdown(x, 3600, 24);
    vstd::arithmetic::div_mod::lemma_mod_breakdown(x, 86400, 7);
    vstd::arithmetic::div_mod::lemma_mod_breakdown(x, 604800, 52);
    vstd::arithmetic::div_mod::lemma_div_denominator(x, 604800, 52);
}

/// Where a span starts that ends with the history and begins at a slot of
/// a wheel of `unit` seconds, `top` slots back.
proof fn lemma_aligned_start(n: int, secs: int, unit: int, top: int)
    requires
        0 <= n,
        0 <= secs,
        0 < unit,
        0 <= top,
        secs == unit * top + secs % unit,
        n == unit * (n / unit) + n % unit,
        secs % unit == n % unit,
    ensures
        start_of_last(n / unit, top) * unit == start_of_last(n, secs),
{
    let q = n / unit;
    if top >= q {
        assert(unit * top >= unit * q) by (nonlinear_arith)
            requires
                top >= q,
                unit > 0,
        ;
    } else {
        assert(unit * top < unit * q) by (nonlinear_arith)
            requires
                top < q,
                unit > 0,
        ;
        assert((q - top) * unit == unit * q - unit * top) by (nonlinear_arith);
    }
}

/// The seconds of one slot of the wheel of a level.
pub open spec fn unit_of(level: nat) -> int {
    if level == 0 {
        1
    } else if level == 1 {
        60
    } else if level == 2 {
        3600
    } else if level == 3 {
        86400
    } else if level == 4 {
        604800
    } else {
        31449600
    }
}

/// Where the span of an aligned query starts: at the slot of the coarsest
/// wheel that it asks which lies as many slots back as its component says.
proof fn lemma_query_start(n: int, secs: int, level: nat, top: int)
    requires
        0 <= n,
        0 <= secs < 314496000,
        level <= 5,
        level == 0 ==> top == secs % 60 && secs < 60,
        level == 1 ==> top == (secs / 60) % 60 && secs < 3600,
        level == 2 ==> top == (secs / 3600) % 24 && secs < 86400,
        level == 3 ==> top == (secs / 86400) % 7 && secs < 604800,
        level == 4 ==> top == (secs / 604800) % 52 && secs < 31449600,
        level == 5 ==> top == ((secs / 604800) / 52) % 10,
        level > 0 ==> secs % 60 == n % 60,
        level > 1 ==> (secs / 60) % 60 == (n / 60) % 60,
        level > 2 ==> (secs / 3600) % 24 == (n / 3600) % 24,
        level > 3 ==> (secs / 86400) % 7 == (n / 86400) % 7,
        level > 4 ==> (secs / 604800) % 52 == (n / 604800) % 52,
    ensures
        start_of_last(n / unit_of(level), top) * unit_of(level) == start_of_last(n, secs),
{
    lemma_mixed_radix(n);
    lemma_mixed_radix(secs);
    if level == 0 {
    } else if level == 1 {
        lemma_aligned_start(n, secs, 60, top);
    } else if level == 2 {
        lemma_aligned_start(n, secs, 3600, top);
    } else if level == 3 {
        lemma_aligned_start(n, secs, 86400, top);
    } else if level == 4 {
        lemma_aligned_start(n, secs, 604800, top);
    } else {
        lemma_aligned_start(n, secs, 31449600, top);
    }
}

/// The answer to an aligned query is what was recorded since the slot of
/// the coarsest wheel that it asks which lies as many slots back as its
/// component says.
proof fn lemma_answer_is_since<A: Aggregator>(
    haw: HawView<A>,
    seconds: Seq<Option<A::PartialAggregate>>,
    parts: TimeParts,
)
    requires
        haw.wf(),
        tracks(haw, seconds),
        parts.is_supported(),
        aligned(haw, parts),
        part_or_zero(parts.second) < 60,
        part_or_zero(parts.minute) < 60,
        part_or_zero(parts.hour) < 24,
        part_or_zero(parts.day) < 7,
        part_or_zero(parts.week) < 52,
        part_or_zero(parts.year) < 10,
    ensures
        haw.combine_time(parts) == since::<A>(
            seconds,
            start_of_last(
                seconds.len() as int / unit_of(top_level(parts)),
                top_part(parts) as int,
            ) * unit_of(top_level(parts)),
        ),
{
    let level = top_level(parts);
    let top = top_part(parts);
    lemma_lower_answers(haw, seconds);
    lemma_aligned_answer(haw, parts);
    if level == 5 {
        let _ = lemma_top_years(haw, seconds, top);
    } else if level == 4 {
        let _ = lemma_top_weeks(haw, seconds, top);
    } else if level == 3 {
        let _ = lemma_top_days(haw, seconds, top);
    } else if level == 2 {
        let _ = lemma_top_hours(haw, seconds, top);
    } else if level == 1 {
        let _ = lemma_top_minutes(haw, seconds, top);
    } else {
        let _ = lemma_top_seconds(haw, seconds, top);
    }
}

/// The answer to a query for the last `secs` seconds is the fold of what
/// was recorded for those seconds, or for all seconds where fewer have
/// passed, provided that the query is aligned with the wheel and spans less
/// than the wheels hold.
pub proof fn law_interval_is_fold_of_record<A: Aggregator>(
    haw: HawView<A>,
    seconds: Seq<Option<A::PartialAggregate>>,
    secs: nat,
)
    requires
        haw.wf(),
        tracks(haw, seconds),
        secs < TOTAL_SECS_IN_WHEEL,
        time_parts(secs).is_supported(),
        aligned(haw, time_parts(secs)),
    ensures
        haw.interval(secs) == fold_opt::<A>(last_n(seconds, secs)),
{
    let n = seconds.len() as int;
    let parts = time_parts(secs);
    assert(last_n(seconds, secs) =~= seconds.subrange(start_of_last(n, secs as int), n));
    lemma_rotation_counts(haw, seconds);
    lemma_parts_of(secs);
    lemma_answer_is_since(haw, seconds, parts);
    lemma_query_start(n, secs as int, top_level(parts), top_part(parts) as int);
}

/// What the components of a span are as numbers.
proof fn lemma_parts_of(secs: nat)
    requires
        secs < TOTAL_SECS_IN_WHEEL,
    ensures
        part_or_zero(time_parts(secs).second) == secs % 60,
        part_or_zero(time_parts(secs).minute) == (secs / 60) % 60,
        part_or_zero(time_parts(secs).hour) == (secs / 3600) % 24,
        part_or_zero(time_parts(secs).day) == (secs / 86400) % 7,
        part_or_zero(time_parts(secs).week) == (secs / 604800) % 52,
        part_or_zero(time_parts(secs).year) == ((secs / 604800) / 52) % 10,
        time_parts(secs).second is Some <==> secs % 60 != 0,
        time_parts(secs).minute is Some <==> (secs / 60) % 60 != 0,
        time_parts(secs).hour is Some <==> (secs / 3600) % 24 != 0,
        time_parts(secs).day is Some <==> (secs / 86400) % 7 != 0,
        time_parts(secs).week is Some <==> (secs / 604800) % 52 != 0,
        time_parts(secs).year is Some <==> ((secs / 604800) / 52) % 10 != 0,
{
}

/// A wheel that was cleared holds an empty record.
pub proof fn lemma_clear_tracks<A: Aggregator>(haw: HawView<A>)
    requires
        haw.wf(),
    ensures
        tracks(haw.clear(), Seq::empty()),
        haw.clear().wf(),
{
    reveal(chunks);
    let none = Seq::<Option<A::PartialAggregate>>::empty();
    assert(minutes_of::<A>(none) =~= none);
    assert(hours_of::<A>(none) =~= none);
    assert(days_of::<A>(none) =~= none);
    assert(weeks_of::<A>(none) =~= none);
    assert(years_of::<A>(none) =~= none);
    assert(last_n(none, 60) =~= none);
    assert(last_n(none, 24) =~= none);
    assert(last_n(none, 7) =~= none);
    assert(last_n(none, 52) =~= none);
    assert(last_n(none, 10) =~= none);
    assert(last_n(none, 0) =~= none);
}

/// A tick leaves the wheel well-formed.
pub proof fn lemma_tick_wf<A: Aggregator>(haw: HawView<A>, part: Option<A::PartialAggregate>)
    requires
        haw.wf(),
    ensures
        haw.tick(part).wf(),
{
}

/// What the write-ahead wheel hands over in `n` ticks: its first `n`
/// slots, frozen, and nothing for ticks beyond its horizon.
pub open spec fn handed_over<A: Aggregator>(waw: WriteAheadView<A>, n: nat) -> Seq<
    Option<A::PartialAggregate>,
> {
    Seq::new(
        n,
        |i: int|
            if i < waw.pending.len() {
                freeze_opt::<A>(waw.pending[i])
            } else {
                None
            },
    )
}

/// What is pending in the write-ahead wheel after `n` ticks: what was
/// pending `n` slots further ahead, and nothing beyond the horizon.
proof fn lemma_pending_after_ticks<A: Aggregator>(wheels: Clockwork<A>, n: nat)
    ensures
        wheels.ticks(n).waw.pending.len() == wheels.waw.pending.len(),
        forall|i: int|
            0 <= i < wheels.waw.pending.len() ==> #[trigger] wheels.ticks(n).waw.pending[i] == (if i
                + n < wheels.waw.pending.len() {
                wheels.waw.pending[i + n]
            } else {
                None
            }),
    decreases n,
{
    if n > 0 {
        lemma_pending_after_ticks(wheels, (n - 1) as nat);
    }
}

/// Ticks keep the record: after `n` ticks it is longer by what the
/// write-ahead wheel handed over, second by second.
pub proof fn lemma_ticks_track<A: Aggregator>(
    wheels: Clockwork<A>,
    seconds: Seq<Option<A::PartialAggregate>>,
    n: nat,
)
    requires
        wheels.haw.wf(),
        tracks(wheels.haw, seconds),
    ensures
        wheels.ticks(n).haw.wf(),
        tracks(wheels.ticks(n).haw, seconds + handed_over(wheels.waw, n)),
    decreases n,
{
    if n == 0 {
        assert(seconds + handed_over(wheels.waw, 0) =~= seconds);
    } else {
        let m = (n - 1) as nat;
        lemma_ticks_track(wheels, seconds, m);
        lemma_pending_after_ticks(wheels, m);
        let before = wheels.ticks(m);
        let part = freeze_opt::<A>(before.waw.front());
        lemma_tick_wf(before.haw, part);
        lemma_tick_tracks(before.haw, seconds + handed_over(wheels.waw, m), part);
        assert((seconds + handed_over(wheels.waw, m)).push(part) =~= seconds + handed_over(
            wheels.waw,
            n,
        ));
    }
}

/// The total of the years wheel is what was recorded in the years of the current cycle.
proof fn lemma_years_total<A: Aggregator>(
    haw: HawView<A>,
    seconds: Seq<Option<A::PartialAggregate>>,
)
    requires
        haw.years.wf(),
        haw.years.capacity == 10,
        follows(haw.years, years_of::<A>(seconds)),
    ensures
        0 <= (seconds.len() as int / 314496000) * 314496000 <= (seconds.len() as int / 31449600)
            * 31449600 <= seconds.len(),
        haw.years.total == fold_opt::<A>(
            seconds.subrange(
                (seconds.len() as int / 314496000) * 314496000,
                (seconds.len() as int / 31449600) * 31449600,
            ),
        ),
{
    let hist = years_of::<A>(seconds);
    let len = hist.len() as int;
    lemma_history_lens::<A>(seconds);
    lemma_total_range(haw.years, hist);
    lemma_years_range::<A>(seconds, len - len % 10, len);
    lemma_round_start(len, 10, 31449600);
    vstd::arithmetic::div_mod::lemma_div_denominator(seconds.len() as int, 31449600, 10);
}

/// The landmark is the fold of what was recorded in the current cycle:
/// since the wheel was made or last cleared, or since the years wheel last
/// went round.
pub proof fn law_landmark_is_fold_of_cycle<A: Aggregator>(
    haw: HawView<A>,
    seconds: Seq<Option<A::PartialAggregate>>,
)
    requires
        haw.wf(),
        tracks(haw, seconds),
    ensures
        haw.landmark() == since::<A>(seconds, (seconds.len() as int / 314496000) * 314496000),
{
    reveal(below);
    let n = seconds.len() as int;
    lemma_suffixes(haw, seconds);
    lemma_years_total(haw, seconds);
    lemma_fold6::<A>(
        haw.seconds.total,
        haw.minutes.total,
        haw.hours.total,
        haw.days.total,
        haw.weeks.total,
        haw.years.total,
    );
    lemma_since_step::<A>(
        seconds,
        haw.years.total,
        (n / 314496000) * 314496000,
        (n / 31449600) * 31449600,
        below(haw, 5),
    );
}

/// Two wheels of one capacity that follow histories of one length merge
/// into the wheel that follows the histories combined slot by slot.
proof fn lemma_merge_follows<A: Aggregator>(
    a: WheelView<A>,
    b: WheelView<A>,
    hist_a: Seq<Option<A::PartialAggregate>>,
    hist_b: Seq<Option<A::PartialAggregate>>,
)
    requires
        a.wf(),
        b.wf(),
        a.capacity == b.capacity,
        follows(a, hist_a),
        follows(b, hist_b),
        hist_a.len() == hist_b.len(),
    ensures
        follows(a.merge(b), zip_opt::<A>(hist_a, hist_b)),
{
    let both = zip_opt::<A>(hist_a, hist_b);
    let merged = a.merge(b);
    assert(merged.slots =~= last_n(both, a.capacity));
    let round_a = last_n(hist_a, a.rotation_count);
    let round_b = last_n(hist_b, a.rotation_count);
    assert(last_n(both, a.rotation_count) =~= zip_opt::<A>(round_a, round_b));
    lemma_fold_opt_zip::<A>(round_a, round_b);
}

/// The chunks of histories combined slot by slot are their chunks combined slot by slot.
proof fn lemma_chunks_zip<A: Aggregator>(
    hist_a: Seq<Option<A::PartialAggregate>>,
    hist_b: Seq<Option<A::PartialAggregate>>,
    size: nat,
)
    requires
        size > 0,
        hist_a.len() == hist_b.len(),
    ensures
        chunks::<A>(zip_opt::<A>(hist_a, hist_b), size) == zip_opt::<A>(
            chunks::<A>(hist_a, size),
            chunks::<A>(hist_b, size),
        ),
        chunks::<A>(hist_a, size).len() == chunks::<A>(hist_b, size).len(),
{
    reveal(chunks);
    let both = zip_opt::<A>(hist_a, hist_b);
    let left = chunks::<A>(both, size);
    let right = zip_opt::<A>(chunks::<A>(hist_a, size), chunks::<A>(hist_b, size));
    assert forall|j: int| 0 <= j < left.len() implies left[j] == right[j] by {
        lemma_chunks_range::<A>(hist_a, size, j, j + 1);
        let part_a = hist_a.subrange(j * size, (j + 1) * size);
        let part_b = hist_b.subrange(j * size, (j + 1) * size);
        assert(both.subrange(j * size, (j + 1) * size) =~= zip_opt::<A>(part_a, part_b));
        lemma_fold_opt_zip::<A>(part_a, part_b);
    }
    assert(left =~= right);
}

/// Two wheels that hold records of the same seconds merge into the wheel
/// that holds the two records combined second by second.
pub proof fn law_merge_tracks<A: Aggregator>(
    a: HawView<A>,
    b: HawView<A>,
    seconds_a: Seq<Option<A::PartialAggregate>>,
    seconds_b: Seq<Option<A::PartialAggregate>>,
)
    requires
        a.wf(),
        b.wf(),
        tracks(a, seconds_a),
        tracks(b, seconds_b),
        seconds_a.len() == seconds_b.len(),
    ensures
        tracks(a.merge(b), zip_opt::<A>(seconds_a, seconds_b)),
{
    lemma_merge_follows(a.seconds, b.seconds, seconds_a, seconds_b);
    lemma_chunks_zip::<A>(seconds_a, seconds_b, 60);
    lemma_merge_follows(
        a.minutes,
        b.minutes,
        minutes_of::<A>(seconds_a),
        minutes_of::<A>(seconds_b),
    );
    lemma_chunks_zip::<A>(minutes_of::<A>(seconds_a), minutes_of::<A>(seconds_b), 60);
    lemma_merge_follows(a.hours, b.hours, hours_of::<A>(seconds_a), hours_of::<A>(seconds_b));
    lemma_chunks_zip::<A>(hours_of::<A>(seconds_a), hours_of::<A>(seconds_b), 24);
    lemma_merge_follows(a.days, b.days, days_of::<A>(seconds_a), days_of::<A>(seconds_b));
    lemma_chunks_zip::<A>(days_of::<A>(seconds_a), days_of::<A>(seconds_b), 7);
    lemma_merge_follows(a.weeks, b.weeks, weeks_of::<A>(seconds_a), weeks_of::<A>(seconds_b));
    lemma_chunks_zip::<A>(weeks_of::<A>(seconds_a), weeks_of::<A>(seconds_b), 52);
    lemma_merge_follows(a.years, b.years, years_of::<A>(seconds_a), years_of::<A>(seconds_b));
}

} // verus!
