//! The hierarchical aggregation wheel: six wheels, from seconds to years,
//! each fed by the rotations of the one below it.
use crate::aggregation::{drill_view, AggregationWheel, RotationData, WheelView};
use crate::aggregator::{fold_opt, reduce, Aggregator};
use crate::duration::Duration;
use crate::maybe::{MaybeParts, MaybeWheel};
use crate::write::{WriteAheadView, WriteAheadWheel};
use vstd::prelude::*;

verus! {

/// Slots of the seconds wheel.
pub const SECONDS: usize = 60;

/// Slots of the minutes wheel.
pub const MINUTES: usize = 60;

/// Slots of the hours wheel.
pub const HOURS: usize = 24;

/// Slots of the days wheel.
pub const DAYS: usize = 7;

/// Slots of the weeks wheel.
pub const WEEKS: usize = 52;

/// Slots of the years wheel.
pub const YEARS: usize = 10;

/// Milliseconds in one second.
pub const SECOND_AS_MS: u64 = 1000;

/// Seconds in one slot of the minutes wheel.
pub const MINUTES_AS_SECS: u64 = 60;

/// Seconds in one slot of the hours wheel.
pub const HOURS_AS_SECS: u64 = 3600;

/// Seconds in one slot of the days wheel.
pub const DAYS_AS_SECS: u64 = 86400;

/// Seconds in one slot of the weeks wheel.
pub const WEEK_AS_SECS: u64 = 604800;

/// Seconds in one slot of the years wheel: fifty-two weeks.
pub const YEAR_AS_SECS: u64 = 31449600;

/// Seconds after which every wheel has gone round.
pub const TOTAL_SECS_IN_WHEEL: u64 = 314496000;

/// The longest advance, in seconds, that is carried out tick by tick: what
/// the six wheels hold, one after the other. A longer one clears the wheels.
pub const CYCLE_LENGTH_SECS: u64 = 346640460;

/// Number of slots of all six wheels together.
pub const TOTAL_WHEEL_SLOTS: usize = 213;

/// What a wheel hands up at a rotation.
pub struct Rotation<A: Aggregator> {
    pub total: Option<A::PartialAggregate>,
    pub drill: Option<Seq<A::PartialAggregate>>,
}

/// What a rotation of `wheel` hands up, if its next tick completes one.
pub open spec fn emission<A: Aggregator>(wheel: WheelView<A>) -> Option<Rotation<A>> {
    if wheel.rotates() {
        Some(Rotation { total: wheel.rotation_total(), drill: wheel.rotation_drill() })
    } else {
        None
    }
}

/// A wheel after the wheel below it has ticked: where that one rotated, this
/// one takes in what was handed up and ticks in turn.
pub open spec fn fed<A: Aggregator>(wheel: WheelView<A>, below: Option<Rotation<A>>) -> WheelView<A> {
    match below {
        Some(rotation) => wheel.insert_rotation_data(rotation.total, rotation.drill).tick(),
        None => wheel,
    }
}

/// What a wheel hands up after the wheel below it has ticked.
pub open spec fn fed_emission<A: Aggregator>(
    wheel: WheelView<A>,
    below: Option<Rotation<A>>,
) -> Option<Rotation<A>> {
    match below {
        Some(rotation) => emission(wheel.insert_rotation_data(rotation.total, rotation.drill)),
        None => None,
    }
}

/// The frozen form of what the write-ahead wheel hands out.
pub open spec fn freeze_opt<A: Aggregator>(slot: Option<A::MutablePartialAggregate>) -> Option<
    A::PartialAggregate,
> {
    match slot {
        Some(mutable) => Some(A::freeze_spec(mutable)),
        None => None,
    }
}

/// The smaller of two numbers.
pub open spec fn min_nat(a: nat, b: nat) -> nat {
    if a <= b {
        a
    } else {
        b
    }
}

/// What `wheel` contributes to a query that also asks a coarser wheel: its
/// last `n` slots, and no more than it has gathered since its last rotation.
pub open spec fn capped<A: Aggregator>(wheel: WheelView<A>, n: nat) -> Option<A::PartialAggregate> {
    wheel.interval_or_total(min_nat(wheel.rotation_count, n))
}

/// The components of a span of `secs` seconds, each taken modulo the
/// capacity of its wheel; a component of zero is absent.
pub struct TimeParts {
    pub second: Option<usize>,
    pub minute: Option<usize>,
    pub hour: Option<usize>,
    pub day: Option<usize>,
    pub week: Option<usize>,
    pub year: Option<usize>,
}

/// A component of a span: absent where it is zero.
pub open spec fn to_part(n: nat) -> Option<usize> {
    if n == 0 {
        None
    } else {
        Some(n as usize)
    }
}

/// The components of a span of `secs` seconds.
pub open spec fn time_parts(secs: nat) -> TimeParts {
    TimeParts {
        second: to_part(secs % 60),
        minute: to_part((secs / 60) % 60),
        hour: to_part((secs / 3600) % 24),
        day: to_part((secs / 86400) % 7),
        week: to_part((secs / 604800) % 52),
        year: to_part(((secs / 604800) / 52) % 10),
    }
}

impl TimeParts {
    /// The components are one of the combinations that a query can be made of.
    pub open spec fn is_supported(self) -> bool {
        let y = self.year is Some;
        let w = self.week is Some;
        let d = self.day is Some;
        let h = self.hour is Some;
        let m = self.minute is Some;
        let s = self.second is Some;
        ||| (y && w && d && h && m && s)
        ||| (!y && w && d && h && m && s)
        ||| (!y && !w && d && h && m && s)
        ||| (!y && !w && d && h && m && !s)
        ||| (!y && !w && d && h && !m && !s)
        ||| (!y && !w && d && !h && !m && !s)
        ||| (!y && !w && !d && h && m && s)
        ||| (!y && !w && !d && h && m && !s)
        ||| (y && w && !d && !h && !m && !s)
        ||| (y && !w && !d && !h && !m && !s)
        ||| (!y && w && !d && !h && !m && !s)
        ||| (!y && !w && !d && h && !m && !s)
        ||| (!y && !w && !d && h && !m && s)
        ||| (!y && !w && !d && !h && m && s)
        ||| (!y && !w && !d && !h && m && !s)
        ||| (!y && !w && !d && !h && !m && s)
    }
}

/// What a hierarchical wheel holds: its watermark and its six wheels.
pub struct HawView<A: Aggregator> {
    pub watermark: u64,
    pub seconds: WheelView<A>,
    pub minutes: WheelView<A>,
    pub hours: WheelView<A>,
    pub days: WheelView<A>,
    pub weeks: WheelView<A>,
    pub years: WheelView<A>,
}

impl<A: Aggregator> HawView<A> {
    /// The six wheels are well-formed and have the capacities of their granularities.
    pub open spec fn wf(self) -> bool {
        &&& self.seconds.wf() && self.seconds.capacity == SECONDS
        &&& self.minutes.wf() && self.minutes.capacity == MINUTES
        &&& self.hours.wf() && self.hours.capacity == HOURS
        &&& self.days.wf() && self.days.capacity == DAYS
        &&& self.weeks.wf() && self.weeks.capacity == WEEKS
        &&& self.years.wf() && self.years.capacity == YEARS
    }

    /// A wheel at `watermark` in which nothing has happened yet.
    pub open spec fn empty(watermark: u64, drill_down: bool) -> Self {
        HawView {
            watermark,
            seconds: WheelView::empty(SECONDS as nat, drill_down),
            minutes: WheelView::empty(MINUTES as nat, drill_down),
            hours: WheelView::empty(HOURS as nat, drill_down),
            days: WheelView::empty(DAYS as nat, drill_down),
            weeks: WheelView::empty(WEEKS as nat, drill_down),
            years: WheelView::empty(YEARS as nat, drill_down),
        }
    }

    /// Number of completed slots of all wheels together.
    pub open spec fn len(self) -> nat {
        self.seconds.len() + self.minutes.len() + self.hours.len() + self.days.len()
            + self.weeks.len() + self.years.len()
    }

    /// Seconds that have passed in the current cycle.
    pub open spec fn time_in_cycle(self) -> nat {
        self.seconds.rotation_count + self.minutes.rotation_count * 60 + self.hours.rotation_count
            * 3600 + self.days.rotation_count * 86400 + self.weeks.rotation_count * 604800
            + self.years.rotation_count * 31449600
    }

    /// The seconds wheel with `partial`, where there is one, in the slot at its head.
    pub open spec fn seconds_with(self, partial: Option<A::PartialAggregate>) -> WheelView<A> {
        match partial {
            Some(p) => self.seconds.insert_head(p),
            None => self.seconds,
        }
    }

    /// The wheel one second later, `partial` being what was inserted for
    /// the second that has passed. A wheel that completes a rotation hands
    /// its total to the next coarser wheel, which then ticks in turn; what
    /// the years wheel hands up is dropped.
    pub open spec fn tick(self, partial: Option<A::PartialAggregate>) -> Self {
        let seconds = self.seconds_with(partial);
        let from_seconds = emission(seconds);
        let from_minutes = fed_emission(self.minutes, from_seconds);
        let from_hours = fed_emission(self.hours, from_minutes);
        let from_days = fed_emission(self.days, from_hours);
        let from_weeks = fed_emission(self.weeks, from_days);
        HawView {
            watermark: (self.watermark + 1000) as u64,
            seconds: seconds.tick(),
            minutes: fed(self.minutes, from_seconds),
            hours: fed(self.hours, from_minutes),
            days: fed(self.days, from_hours),
            weeks: fed(self.weeks, from_days),
            years: fed(self.years, from_weeks),
        }
    }

    /// Seconds that have passed since the minutes wheel last ticked.
    pub open spec fn secs_into_minute(self) -> nat {
        self.seconds.rotation_count
    }

    /// Seconds that have passed since the hours wheel last ticked.
    pub open spec fn secs_into_hour(self) -> nat {
        self.secs_into_minute() + self.minutes.rotation_count * 60
    }

    /// Seconds that have passed since the days wheel last ticked.
    pub open spec fn secs_into_day(self) -> nat {
        self.secs_into_hour() + self.hours.rotation_count * 3600
    }

    /// Seconds that have passed since the weeks wheel last ticked.
    pub open spec fn secs_into_week(self) -> nat {
        self.secs_into_day() + self.days.rotation_count * 86400
    }

    /// Seconds that have passed since the years wheel last ticked.
    pub open spec fn secs_into_year(self) -> nat {
        self.secs_into_week() + self.weeks.rotation_count * 604800
    }

    /// The next tick completes a minute, so that the minutes wheel is written to.
    pub open spec fn completes_minute(self) -> bool {
        self.seconds.rotates()
    }

    /// The next tick completes an hour, so that the hours wheel is written to.
    pub open spec fn completes_hour(self) -> bool {
        self.completes_minute() && self.minutes.rotates()
    }

    /// The next tick completes a day, so that the days wheel is written to.
    pub open spec fn completes_day(self) -> bool {
        self.completes_hour() && self.hours.rotates()
    }

    /// The next tick completes a week, so that the weeks wheel is written to.
    pub open spec fn completes_week(self) -> bool {
        self.completes_day() && self.days.rotates()
    }

    /// The next tick completes a year, so that the years wheel is written to.
    pub open spec fn completes_year(self) -> bool {
        self.completes_week() && self.weeks.rotates()
    }

    /// The next tick completes the rotation of every wheel, the years wheel
    /// included: the cycle ends and what it gathered is dropped.
    pub open spec fn completes_cycle(self) -> bool {
        &&& self.seconds.rotates()
        &&& self.minutes.rotates()
        &&& self.hours.rotates()
        &&& self.days.rotates()
        &&& self.weeks.rotates()
        &&& self.years.rotates()
    }

    /// The wheel with all six wheels emptied; the watermark stays.
    pub open spec fn clear(self) -> Self {
        HawView {
            watermark: self.watermark,
            seconds: self.seconds.clear(),
            minutes: self.minutes.clear(),
            hours: self.hours.clear(),
            days: self.days.clear(),
            weeks: self.weeks.clear(),
            years: self.years.clear(),
        }
    }

    /// The answer to a query made of the given components: the coarsest
    /// wheel asked contributes the interval of its component, each finer one
    /// what it has gathered since its last rotation at most.
    pub open spec fn combine_time(self, parts: TimeParts) -> Option<A::PartialAggregate> {
        match (parts.year, parts.week, parts.day, parts.hour, parts.minute, parts.second) {
            (Some(year), Some(week), Some(day), Some(hour), Some(minute), Some(second)) => fold_opt::<
                A,
            >(
                seq![
                    capped(self.seconds, second as nat),
                    capped(self.minutes, minute as nat),
                    capped(self.hours, hour as nat),
                    capped(self.days, day as nat),
                    capped(self.weeks, week as nat),
                    self.years.interval(year as nat),
                ],
            ),
            (None, Some(week), Some(day), Some(hour), Some(minute), Some(second)) => fold_opt::<A>(
                seq![
                    capped(self.seconds, second as nat),
                    capped(self.minutes, minute as nat),
                    capped(self.hours, hour as nat),
                    capped(self.days, day as nat),
                    self.weeks.interval(week as nat),
                ],
            ),
            (None, None, Some(day), Some(hour), Some(minute), Some(second)) => fold_opt::<A>(
                seq![
                    capped(self.seconds, second as nat),
                    capped(self.minutes, minute as nat),
                    capped(self.hours, hour as nat),
                    self.days.interval(day as nat),
                ],
            ),
            (None, None, Some(day), Some(hour), Some(minute), None) => fold_opt::<A>(
                seq![
                    capped(self.minutes, minute as nat),
                    capped(self.hours, hour as nat),
                    self.days.interval(day as nat),
                ],
            ),
            (None, None, Some(day), Some(hour), None, None) => fold_opt::<A>(
                seq![capped(self.hours, hour as nat), self.days.interval(day as nat)],
            ),
            (None, None, Some(day), None, None, None) => self.days.interval(day as nat),
            (None, None, None, Some(hour), Some(minute), Some(second)) => fold_opt::<A>(
                seq![
                    capped(self.seconds, second as nat),
                    capped(self.minutes, minute as nat),
                    self.hours.interval(hour as nat),
                ],
            ),
            (None, None, None, Some(hour), Some(minute), None) => fold_opt::<A>(
                seq![capped(self.minutes, minute as nat), self.hours.interval(hour as nat)],
            ),
            (Some(year), Some(week), None, None, None, None) => fold_opt::<A>(
                seq![self.years.interval(year as nat), capped(self.weeks, week as nat)],
            ),
            (Some(year), None, None, None, None, None) => self.years.interval(year as nat),
            (None, Some(week), None, None, None, None) => self.weeks.interval(week as nat),
            (None, None, None, Some(hour), None, None) => self.hours.interval(hour as nat),
            (None, None, None, Some(hour), None, Some(second)) => fold_opt::<A>(
                seq![self.hours.interval(hour as nat), capped(self.seconds, second as nat)],
            ),
            (None, None, None, None, Some(minute), Some(second)) => fold_opt::<A>(
                seq![self.minutes.interval(minute as nat), capped(self.seconds, second as nat)],
            ),
            (None, None, None, None, Some(minute), None) => self.minutes.interval(minute as nat),
            (None, None, None, None, None, Some(second)) => self.seconds.interval(second as nat),
            _ => None,
        }
    }

    /// The answer to a query for the last `secs` seconds.
    pub open spec fn interval(self, secs: nat) -> Option<A::PartialAggregate> {
        self.combine_time(time_parts(secs))
    }

    /// Combination of the totals of all six wheels.
    pub open spec fn landmark(self) -> Option<A::PartialAggregate> {
        fold_opt::<A>(
            seq![
                self.seconds.total,
                self.minutes.total,
                self.hours.total,
                self.days.total,
                self.weeks.total,
                self.years.total,
            ],
        )
    }

    /// The wheel after an advance to `watermark` during which nothing is inserted.
    pub open spec fn aligned_to(self, watermark: u64) -> Self {
        (Clockwork {
            haw: self,
            waw: WriteAheadView {
                watermark: 0,
                pending: Seq::new(
                    crate::write::DEFAULT_WRITE_AHEAD_SLOTS as nat,
                    |i: int| None::<A::MutablePartialAggregate>,
                ),
            },
        }).advance_to(watermark).haw
    }

    /// The wheel after `other` was merged into it, wheel by wheel.
    pub open spec fn merge(self, other: Self) -> Self {
        HawView {
            watermark: self.watermark,
            seconds: self.seconds.merge(other.seconds),
            minutes: self.minutes.merge(other.minutes),
            hours: self.hours.merge(other.hours),
            days: self.days.merge(other.days),
            weeks: self.weeks.merge(other.weeks),
            years: self.years.merge(other.years),
        }
    }
}

/// A hierarchical wheel together with the write-ahead wheel that feeds it.
pub struct Clockwork<A: Aggregator> {
    pub haw: HawView<A>,
    pub waw: WriteAheadView<A>,
}

impl<A: Aggregator> Clockwork<A> {
    /// Both wheels one second later: the write-ahead wheel hands its first
    /// slot, frozen, to the seconds wheel.
    pub open spec fn tick(self) -> Self {
        Clockwork { haw: self.haw.tick(freeze_opt::<A>(self.waw.front())), waw: self.waw.tick() }
    }

    /// Both wheels `n` seconds later.
    pub open spec fn ticks(self, n: nat) -> Self
        decreases n,
    {
        if n == 0 {
            self
        } else {
            self.ticks((n - 1) as nat).tick()
        }
    }

    /// Both wheels after an advance by `secs` seconds: as many ticks, or,
    /// where that is more than a cycle, the hierarchical wheel cleared.
    pub open spec fn advance(self, secs: nat) -> Self {
        if secs <= CYCLE_LENGTH_SECS {
            self.ticks(secs)
        } else {
            Clockwork { haw: self.haw.clear(), waw: self.waw }
        }
    }

    /// Both wheels after an advance to `watermark`, as measured by the
    /// hierarchical wheel: nothing happens where it has been reached.
    pub open spec fn advance_to(self, watermark: u64) -> Self {
        if watermark <= self.haw.watermark {
            self
        } else {
            self.advance(((watermark - self.haw.watermark) / 1000) as nat)
        }
    }
}

impl TimeParts {
    /// The components of `duration`, which counts by its whole seconds.
    pub fn from_duration(duration: Duration) -> (parts: Self)
        ensures
            parts == time_parts(duration.secs()),
    {
        let second: u64 = duration.whole_seconds() % 60;
        let minute: u64 = duration.whole_minutes() % 60;
        let hour: u64 = duration.whole_hours() % 24;
        let day: u64 = duration.whole_days() % 7;
        let week: u64 = duration.whole_weeks() % 52;
        let year: u64 = (duration.whole_weeks() / 52) % 10;
        TimeParts {
            second: to_option(second),
            minute: to_option(minute),
            hour: to_option(hour),
            day: to_option(day),
            week: to_option(week),
            year: to_option(year),
        }
    }

    /// Tells whether the components are a combination that a query can be made of.
    pub fn supported(&self) -> (b: bool)
        ensures
            b == self.is_supported(),
    {
        let y = self.year.is_some();
        let w = self.week.is_some();
        let d = self.day.is_some();
        let h = self.hour.is_some();
        let m = self.minute.is_some();
        let s = self.second.is_some();
        match (y, w, d, h, m, s) {
            (true, true, true, true, true, true) => true,
            (false, true, true, true, true, true) => true,
            (false, false, true, true, true, true) => true,
            (false, false, true, true, true, false) => true,
            (false, false, true, true, false, false) => true,
            (false, false, true, false, false, false) => true,
            (false, false, false, true, true, true) => true,
            (false, false, false, true, true, false) => true,
            (true, true, false, false, false, false) => true,
            (true, false, false, false, false, false) => true,
            (false, true, false, false, false, false) => true,
            (false, false, false, true, false, false) => true,
            (false, false, false, true, false, true) => true,
            (false, false, false, false, true, true) => true,
            (false, false, false, false, true, false) => true,
            (false, false, false, false, false, true) => true,
            _ => false,
        }
    }
}

/// A component of a span: absent where it is zero.
fn to_option(num: u64) -> (part: Option<usize>)
    requires
        num < 60,
    ensures
        part == to_part(num as nat),
{
    if num == 0 {
        None
    } else {
        Some(num as usize)
    }
}

/// What a hierarchical wheel is made with.
#[derive(Debug, Clone, Copy)]
pub struct Options {
    drill_down: bool,
}

impl Options {
    /// Whether the wheels keep drill-down data.
    pub closed spec fn drill_down(self) -> bool {
        self.drill_down
    }

    /// The same options, with drill-down data kept.
    pub fn with_drill_down(self) -> (options: Self)
        ensures
            options.drill_down(),
    {
        Options { drill_down: true }
    }
}

impl Default for Options {
    fn default() -> (options: Self)
        ensures
            !options.drill_down(),
    {
        Options { drill_down: false }
    }
}

/// The hierarchical aggregation wheel.
pub struct Haw<A: Aggregator> {
    watermark: u64,
    seconds_wheel: MaybeWheel<A>,
    minutes_wheel: MaybeWheel<A>,
    hours_wheel: MaybeWheel<A>,
    days_wheel: MaybeWheel<A>,
    weeks_wheel: MaybeWheel<A>,
    years_wheel: MaybeWheel<A>,
}

impl<A: Aggregator> View for Haw<A> {
    type V = HawView<A>;

    closed spec fn view(&self) -> HawView<A> {
        HawView {
            watermark: self.watermark,
            seconds: self.seconds_wheel@,
            minutes: self.minutes_wheel@,
            hours: self.hours_wheel@,
            days: self.days_wheel@,
            weeks: self.weeks_wheel@,
            years: self.years_wheel@,
        }
    }
}

/// What `wheel` contributes to a query that also asks a coarser wheel.
fn capped_interval<A: Aggregator>(wheel: &MaybeWheel<A>, n: usize) -> (r: Option<
    A::PartialAggregate,
>)
    requires
        wheel.wf(),
    ensures
        r == capped(wheel@, n as nat),
{
    let count = wheel.rotation_count();
    let n = if count <= n {
        count
    } else {
        n
    };
    wheel.interval_or_total(n)
}

impl<A: Aggregator> Haw<A> {
    /// The six wheels are well-formed and have the capacities of their granularities.
    pub closed spec fn wf(&self) -> bool {
        &&& self.seconds_wheel.wf()
        &&& self.minutes_wheel.wf()
        &&& self.hours_wheel.wf()
        &&& self.days_wheel.wf()
        &&& self.weeks_wheel.wf()
        &&& self.years_wheel.wf()
        &&& self@.wf()
    }

    /// A well-formed wheel has a well-formed view.
    pub proof fn lemma_wf(&self)
        requires
            self.wf(),
        ensures
            self@.wf(),
    {
    }

    /// None of the six wheels has been allocated.
    pub open spec fn has_no_wheels(&self) -> bool {
        &&& !self.has_seconds()
        &&& !self.has_minutes()
        &&& !self.has_hours()
        &&& !self.has_days()
        &&& !self.has_weeks()
        &&& !self.has_years()
    }

    /// Each wheel above the seconds wheel either is allocated in `after`, or
    /// has in `after` gone `secs` seconds further towards its next tick than in `before`.
    pub open spec fn has_counted(before: HawView<A>, secs: nat, after: &Self) -> bool {
        &&& after.has_minutes() || after@.secs_into_minute() == before.secs_into_minute() + secs
        &&& after.has_hours() || after@.secs_into_hour() == before.secs_into_hour() + secs
        &&& after.has_days() || after@.secs_into_day() == before.secs_into_day() + secs
        &&& after.has_weeks() || after@.secs_into_week() == before.secs_into_week() + secs
        &&& after.has_years() || after@.secs_into_year() == before.secs_into_year() + secs
    }

    /// Each wheel that was written to in the `secs` seconds that passed
    /// after `before` is allocated in `after`: the seconds wheel where a
    /// second has passed, the minutes wheel where a minute was completed,
    /// and so on up to the years wheel.
    pub open spec fn has_reached(before: HawView<A>, secs: nat, after: &Self) -> bool {
        &&& secs >= 1 ==> after.has_seconds()
        &&& before.secs_into_minute() + secs >= 60 ==> after.has_minutes()
        &&& before.secs_into_hour() + secs >= 3600 ==> after.has_hours()
        &&& before.secs_into_day() + secs >= 86400 ==> after.has_days()
        &&& before.secs_into_week() + secs >= 604800 ==> after.has_weeks()
        &&& before.secs_into_year() + secs >= 31449600 ==> after.has_years()
    }

    /// A wheel that has not been allocated stands for an empty wheel: a
    /// wheel in which anything has happened since it was made or cleared is allocated.
    pub proof fn lemma_allocated(&self)
        requires
            self.wf(),
        ensures
            !self.has_seconds() ==> self@.seconds == WheelView::<A>::empty(
                SECONDS as nat,
                self@.seconds.drill_down,
            ),
            !self.has_minutes() ==> self@.minutes == WheelView::<A>::empty(
                MINUTES as nat,
                self@.minutes.drill_down,
            ),
            !self.has_hours() ==> self@.hours == WheelView::<A>::empty(
                HOURS as nat,
                self@.hours.drill_down,
            ),
            !self.has_days() ==> self@.days == WheelView::<A>::empty(
                DAYS as nat,
                self@.days.drill_down,
            ),
            !self.has_weeks() ==> self@.weeks == WheelView::<A>::empty(
                WEEKS as nat,
                self@.weeks.drill_down,
            ),
            !self.has_years() ==> self@.years == WheelView::<A>::empty(
                YEARS as nat,
                self@.years.drill_down,
            ),
    {
        self.seconds_wheel.lemma_wf();
        self.minutes_wheel.lemma_wf();
        self.hours_wheel.lemma_wf();
        self.days_wheel.lemma_wf();
        self.weeks_wheel.lemma_wf();
        self.years_wheel.lemma_wf();
    }

    /// Every wheel that `before` has allocated is allocated in `after`.
    pub open spec fn keeps_wheels(before: &Self, after: &Self) -> bool {
        &&& before.has_seconds() ==> after.has_seconds()
        &&& before.has_minutes() ==> after.has_minutes()
        &&& before.has_hours() ==> after.has_hours()
        &&& before.has_days() ==> after.has_days()
        &&& before.has_weeks() ==> after.has_weeks()
        &&& before.has_years() ==> after.has_years()
    }

    /// A wheel that starts at `time`, in milliseconds, and keeps drill-down data.
    pub fn with_drill_down(time: u64) -> (haw: Self)
        ensures
            haw.wf(),
            haw@ == HawView::<A>::empty(time, true),
            haw.has_no_wheels(),
    {
        let opts = Options::default().with_drill_down();
        Self::with_options(time, opts)
    }

    /// A wheel that starts at `time`, in milliseconds.
    pub fn new(time: u64) -> (haw: Self)
        ensures
            haw.wf(),
            haw@ == HawView::<A>::empty(time, false),
            haw.has_no_wheels(),
    {
        Self::base(time)
    }

    /// A wheel that starts at `time`, in milliseconds, made with `options`.
    pub fn with_options(time: u64, options: Options) -> (haw: Self)
        ensures
            haw.wf(),
            haw@ == HawView::<A>::empty(time, options.drill_down()),
            haw.has_no_wheels(),
    {
        if options.drill_down {
            Self::base_drill_down(time)
        } else {
            Self::base(time)
        }
    }

    fn base(time: u64) -> (haw: Self)
        ensures
            haw.wf(),
            haw@ == HawView::<A>::empty(time, false),
            haw.has_no_wheels(),
    {
        Haw {
            watermark: time,
            seconds_wheel: MaybeWheel::with_capacity(SECONDS),
            minutes_wheel: MaybeWheel::with_capacity(MINUTES),
            hours_wheel: MaybeWheel::with_capacity(HOURS),
            days_wheel: MaybeWheel::with_capacity(DAYS),
            weeks_wheel: MaybeWheel::with_capacity(WEEKS),
            years_wheel: MaybeWheel::with_capacity(YEARS),
        }
    }

    fn base_drill_down(time: u64) -> (haw: Self)
        ensures
            haw.wf(),
            haw@ == HawView::<A>::empty(time, true),
            haw.has_no_wheels(),
    {
        Haw {
            watermark: time,
            seconds_wheel: MaybeWheel::with_capacity_and_drill_down(SECONDS),
            minutes_wheel: MaybeWheel::with_capacity_and_drill_down(MINUTES),
            hours_wheel: MaybeWheel::with_capacity_and_drill_down(HOURS),
            days_wheel: MaybeWheel::with_capacity_and_drill_down(DAYS),
            weeks_wheel: MaybeWheel::with_capacity_and_drill_down(WEEKS),
            years_wheel: MaybeWheel::with_capacity_and_drill_down(YEARS),
        }
    }

    /// Number of completed slots of all wheels together.
    pub fn len(&self) -> (n: usize)
        requires
            self.wf(),
        ensures
            n == self@.len(),
            n <= TOTAL_WHEEL_SLOTS,
    {
        self.seconds_wheel.len() + self.minutes_wheel.len() + self.hours_wheel.len()
            + self.days_wheel.len() + self.weeks_wheel.len() + self.years_wheel.len()
    }

    /// Tells whether no slot of any wheel has been completed.
    pub fn is_empty(&self) -> (b: bool)
        requires
            self.wf(),
        ensures
            b == (self@.len() == 0),
    {
        self.len() == 0
    }

    /// Tells whether every wheel keeps as many completed slots as it can.
    pub fn is_full(&self) -> (b: bool)
        requires
            self.wf(),
        ensures
            b == (self@.len() == TOTAL_WHEEL_SLOTS),
    {
        self.len() == TOTAL_WHEEL_SLOTS
    }

    /// Number of seconds until every wheel has gone round.
    pub fn remaining_ticks(&self) -> (n: u64)
        requires
            self.wf(),
        ensures
            n == TOTAL_SECS_IN_WHEEL - self@.time_in_cycle(),
            n >= 1,
    {
        TOTAL_SECS_IN_WHEEL - self.current_time_in_cycle().whole_seconds()
    }

    /// Where the wheel is in its cycle.
    pub fn current_time_in_cycle(&self) -> (d: Duration)
        requires
            self.wf(),
        ensures
            d.secs() == self@.time_in_cycle(),
            d.subsec_nanos() == 0,
            self@.time_in_cycle() < TOTAL_SECS_IN_WHEEL,
    {
        let secs: u64 = self.seconds_wheel.rotation_count() as u64;
        let min_secs: u64 = self.minutes_wheel.rotation_count() as u64 * MINUTES_AS_SECS;
        let hr_secs: u64 = self.hours_wheel.rotation_count() as u64 * HOURS_AS_SECS;
        let day_secs: u64 = self.days_wheel.rotation_count() as u64 * DAYS_AS_SECS;
        let week_secs: u64 = self.weeks_wheel.rotation_count() as u64 * WEEK_AS_SECS;
        let year_secs: u64 = self.years_wheel.rotation_count() as u64 * YEAR_AS_SECS;
        let cycle_time: u64 = secs + min_secs + hr_secs + day_secs + week_secs + year_secs;
        Duration::seconds(cycle_time)
    }

    /// The current watermark, in milliseconds.
    pub fn watermark(&self) -> (w: u64)
        ensures
            w == self@.watermark,
    {
        self.watermark
    }

    /// Empties all six wheels. The watermark stays.
    pub fn clear(&mut self)
        requires
            old(self).wf(),
        ensures
            final(self).wf(),
            final(self)@ == old(self)@.clear(),
            Self::keeps_wheels(old(self), final(self)),
    {
        self.seconds_wheel.clear();
        self.minutes_wheel.clear();
        self.hours_wheel.clear();
        self.days_wheel.clear();
        self.weeks_wheel.clear();
        self.years_wheel.clear();
    }

    /// Moves the wheel on by one second. What the write-ahead wheel holds
    /// for that second is frozen and inserted into the seconds wheel, which
    /// then ticks; each wheel that completes a rotation feeds the next.
    pub fn tick(&mut self, waw: &mut WriteAheadWheel<A>)
        requires
            old(self).wf(),
            old(waw).wf(),
            old(self)@.watermark + 1000 <= u64::MAX,
            old(waw)@.watermark + 1000 <= u64::MAX,
        ensures
            final(self).wf(),
            final(waw).wf(),
            final(waw).capacity_spec() == old(waw).capacity_spec(),
            (Clockwork { haw: final(self)@, waw: final(waw)@ }) == (Clockwork {
                haw: old(self)@,
                waw: old(waw)@,
            }).tick(),
            final(self).has_seconds(),
            old(self)@.completes_minute() ==> final(self).has_minutes(),
            old(self)@.completes_hour() ==> final(self).has_hours(),
            old(self)@.completes_day() ==> final(self).has_days(),
            old(self)@.completes_week() ==> final(self).has_weeks(),
            old(self)@.completes_year() ==> final(self).has_years(),
            Self::has_counted(old(self)@, 1, final(self)),
            Self::has_reached(old(self)@, 1, final(self)),
            Self::keeps_wheels(old(self), final(self)),
    {
        proof {
            lemma_tick_counts(old(self)@, freeze_opt::<A>(old(waw)@.front()));
        }
        self.turn(waw);
    }

    /// Takes over the second that has passed and lets the wheels turn.
    fn turn(&mut self, waw: &mut WriteAheadWheel<A>)
        requires
            old(self).wf(),
            old(waw).wf(),
            old(self)@.watermark + 1000 <= u64::MAX,
            old(waw)@.watermark + 1000 <= u64::MAX,
        ensures
            final(self).wf(),
            final(waw).wf(),
            final(waw).capacity_spec() == old(waw).capacity_spec(),
            (Clockwork { haw: final(self)@, waw: final(waw)@ }) == (Clockwork {
                haw: old(self)@,
                waw: old(waw)@,
            }).tick(),
            final(self).has_seconds(),
            old(self)@.completes_minute() ==> final(self).has_minutes(),
            old(self)@.completes_hour() ==> final(self).has_hours(),
            old(self)@.completes_day() ==> final(self).has_days(),
            old(self)@.completes_week() ==> final(self).has_weeks(),
            old(self)@.completes_year() ==> final(self).has_years(),
            Self::keeps_wheels(old(self), final(self)),
    {
        self.watermark = self.watermark + SECOND_AS_MS;
        if let Some(window) = waw.tick() {
            let partial_agg = A::freeze(window);
            self.seconds_wheel.insert_head(partial_agg);
        }
        let from_seconds = self.seconds_wheel.tick();
        let from_minutes = feed(&mut self.minutes_wheel, from_seconds);
        let from_hours = feed(&mut self.hours_wheel, from_minutes);
        let from_days = feed(&mut self.days_wheel, from_hours);
        let from_weeks = feed(&mut self.weeks_wheel, from_days);
        let _ = feed(&mut self.years_wheel, from_weeks);
    }

    /// Moves the wheel on by `ticks` seconds, one by one.
    fn tick_n(&mut self, ticks: u64, waw: &mut WriteAheadWheel<A>)
        requires
            old(self).wf(),
            old(waw).wf(),
            old(self)@.watermark + ticks * 1000 <= u64::MAX,
            old(waw)@.watermark + ticks * 1000 <= u64::MAX,
        ensures
            final(self).wf(),
            final(waw).wf(),
            final(waw).capacity_spec() == old(waw).capacity_spec(),
            final(self)@.watermark == old(self)@.watermark + ticks * 1000,
            final(waw)@.watermark == old(waw)@.watermark + ticks * 1000,
            (Clockwork { haw: final(self)@, waw: final(waw)@ }) == (Clockwork {
                haw: old(self)@,
                waw: old(waw)@,
            }).ticks(ticks as nat),
            ticks >= 1 ==> final(self).has_seconds(),
            Self::has_counted(old(self)@, ticks as nat, final(self)),
            Self::keeps_wheels(old(self), final(self)),
    {
        let ghost start = Clockwork { haw: self@, waw: waw@ };
        let mut i: u64 = 0;
        while i < ticks
            invariant
                self.wf(),
                waw.wf(),
                i >= 1 ==> self.has_seconds(),
                Self::has_counted(start.haw, i as nat, self),
                Self::keeps_wheels(old(self), self),
                waw.capacity_spec() == old(waw).capacity_spec(),
                i <= ticks,
                self@.watermark == start.haw.watermark + i * 1000,
                waw@.watermark == start.waw.watermark + i * 1000,
                start.haw.watermark + ticks * 1000 <= u64::MAX,
                start.waw.watermark + ticks * 1000 <= u64::MAX,
                (Clockwork { haw: self@, waw: waw@ }) == start.ticks(i as nat),
            decreases ticks - i,
        {
            self.tick(waw);
            i += 1;
        }
    }

    /// Moves the wheel on by the whole seconds of `duration`.
    ///
    /// Up to a minute is ticked second by second. A longer advance first
    /// completes the rotation of the seconds wheel; each further minute is
    /// then taken in one step where the write-ahead wheel holds nothing, and
    /// second by second where it does. An advance of more than a cycle
    /// clears the wheel and leaves the watermark where it is.
    pub fn advance(&mut self, duration: Duration, waw: &mut WriteAheadWheel<A>)
        requires
            old(self).wf(),
            old(waw).wf(),
            duration.secs() <= CYCLE_LENGTH_SECS ==> old(self)@.watermark + duration.secs() * 1000
                <= u64::MAX && old(waw)@.watermark + duration.secs() * 1000 <= u64::MAX,
        ensures
            final(self).wf(),
            final(waw).wf(),
            final(waw).capacity_spec() == old(waw).capacity_spec(),
            (Clockwork { haw: final(self)@, waw: final(waw)@ }) == (Clockwork {
                haw: old(self)@,
                waw: old(waw)@,
            }).advance(duration.secs()),
            1 <= duration.secs() <= CYCLE_LENGTH_SECS ==> final(self).has_seconds(),
            duration.secs() <= CYCLE_LENGTH_SECS ==> Self::has_reached(
                old(self)@,
                duration.secs(),
                final(self),
            ),
            Self::keeps_wheels(old(self), final(self)),
    {
        let ghost start = Clockwork { haw: self@, waw: waw@ };
        let total: u64 = duration.whole_seconds();
        let mut ticks: u64 = total;
        if ticks <= SECONDS as u64 {
            self.tick_n(ticks, waw);
        } else if ticks <= CYCLE_LENGTH_SECS {
            let rem_ticks: u64 = (self.seconds_wheel.capacity()
                - self.seconds_wheel.rotation_count()) as u64;
            self.tick_n(rem_ticks, waw);
            ticks = ticks - rem_ticks;
            proof {
                lemma_seconds_after_ticks(start, rem_ticks as nat);
            }
            let fast_ticks: u64 = ticks / (SECONDS as u64);
            let mut drained = waw.is_drained();
            let mut i: u64 = 0;
            while i < fast_ticks
                invariant
                    self.wf(),
                    waw.wf(),
                    waw.capacity_spec() == old(waw).capacity_spec(),
                    i <= fast_ticks,
                    ticks <= total,
                    ticks >= (fast_ticks - i) * 60,
                    drained ==> waw@.is_drained(),
                    self.has_seconds(),
                    Self::keeps_wheels(old(self), self),
                    Self::has_counted(start.haw, (total - ticks) as nat, self),
                    self@.seconds.rotation_count == 0,
                    self@.watermark == start.haw.watermark + (total - ticks) * 1000,
                    waw@.watermark == start.waw.watermark + (total - ticks) * 1000,
                    start.haw.watermark + total * 1000 <= u64::MAX,
                    start.waw.watermark + total * 1000 <= u64::MAX,
                    (Clockwork { haw: self@, waw: waw@ }) == start.ticks((total - ticks) as nat),
                decreases fast_ticks - i,
            {
                let ghost here = Clockwork { haw: self@, waw: waw@ };
                if drained {
                    let fast_tick_ms: u64 = (SECONDS as u64 - 1) * SECOND_AS_MS;
                    self.seconds_wheel.fast_skip_tick();
                    self.watermark = self.watermark + fast_tick_ms;
                    let watermark = waw.watermark_mut();
                    *watermark = *watermark + fast_tick_ms;
                    proof {
                        lemma_skip_seconds(here, 59);
                        self.seconds_wheel.lemma_wf();
                        crate::maybe::lemma_ticks_keep_shape(here.haw.seconds, 59);
                        lemma_wheel_ticks_count(here.haw.seconds, 59);
                        assert((Clockwork { haw: self@, waw: waw@ }) == here.ticks(59));
                    }
                    self.tick(waw);
                    proof {
                        assert(here.ticks(60) == here.ticks(59).tick());
                        let last = here.ticks(59).waw;
                        if last.pending.len() > 0 {
                            assert(last.pending.drop_first().push(None) =~= last.pending);
                        }
                    }
                } else {
                    self.tick_n(SECONDS as u64, waw);
                    drained = waw.is_drained();
                }
                proof {
                    lemma_seconds_after_ticks(here, 60);
                    lemma_ticks_add(start, (total - ticks) as nat, 60);
                }
                ticks = ticks - SECONDS as u64;
                i += 1;
            }
            let ghost here = Clockwork { haw: self@, waw: waw@ };
            self.tick_n(ticks, waw);
            proof {
                lemma_ticks_add(start, (total - ticks) as nat, ticks as nat);
            }
        } else {
            self.clear();
        }
        proof {
            self.lemma_wf();
        }
    }

    /// Moves the wheel on to `watermark`, by the whole seconds that lie
    /// between. Nothing happens where the wheel has reached it.
    pub fn advance_to(&mut self, watermark: u64, waw: &mut WriteAheadWheel<A>)
        requires
            old(self).wf(),
            old(waw).wf(),
            old(waw)@.watermark <= old(self)@.watermark,
        ensures
            final(self).wf(),
            final(waw).wf(),
            final(waw).capacity_spec() == old(waw).capacity_spec(),
            (Clockwork { haw: final(self)@, waw: final(waw)@ }) == (Clockwork {
                haw: old(self)@,
                waw: old(waw)@,
            }).advance_to(watermark),
            watermark >= old(self)@.watermark + 1000 && (watermark - old(self)@.watermark) / 1000
                <= CYCLE_LENGTH_SECS ==> final(self).has_seconds(),
            watermark >= old(self)@.watermark && (watermark - old(self)@.watermark) / 1000
                <= CYCLE_LENGTH_SECS ==> Self::has_reached(
                old(self)@,
                ((watermark - old(self)@.watermark) / 1000) as nat,
                final(self),
            ),
            Self::keeps_wheels(old(self), final(self)),
    {
        let diff: u64 = if watermark >= self.watermark {
            watermark - self.watermark
        } else {
            0
        };
        self.advance(Duration::milliseconds(diff), waw);
    }

    /// The aggregate of the last whole seconds of `dur`, lowered.
    pub fn interval_and_lower(&self, dur: Duration) -> (r: Option<A::Aggregate>)
        requires
            self.wf(),
            time_parts(dur.secs()).is_supported(),
        ensures
            r == match self@.interval(dur.secs()) {
                Some(partial) => Some(A::lower_spec(partial)),
                None => None,
            },
    {
        match self.interval(dur) {
            Some(partial) => Some(A::lower(partial)),
            None => None,
        }
    }

    /// The partial aggregate of the last whole seconds of `dur`. The span
    /// is taken apart into its components, which must be a combination that
    /// a query can be made of.
    pub fn interval(&self, dur: Duration) -> (r: Option<A::PartialAggregate>)
        requires
            self.wf(),
            time_parts(dur.secs()).is_supported(),
        ensures
            r == self@.interval(dur.secs()),
    {
        let parts = TimeParts::from_duration(dur);
        self.combine_time(
            parts.second,
            parts.minute,
            parts.hour,
            parts.day,
            parts.week,
            parts.year,
        )
    }

    /// The answer to a query made of the given components: the coarsest
    /// wheel asked contributes the interval of its component, each finer one
    /// what it has gathered since its last rotation at most, so that nothing
    /// is counted by two wheels.
    pub fn combine_time(
        &self,
        second: Option<usize>,
        minute: Option<usize>,
        hour: Option<usize>,
        day: Option<usize>,
        week: Option<usize>,
        year: Option<usize>,
    ) -> (r: Option<A::PartialAggregate>)
        requires
            self.wf(),
            (TimeParts { second, minute, hour, day, week, year }).is_supported(),
        ensures
            r == self@.combine_time(TimeParts { second, minute, hour, day, week, year }),
    {
        match (year, week, day, hour, minute, second) {
            // ywdhms
            (Some(year), Some(week), Some(day), Some(hour), Some(minute), Some(second)) => {
                let sec = capped_interval(&self.seconds_wheel, second);
                let min = capped_interval(&self.minutes_wheel, minute);
                let hr = capped_interval(&self.hours_wheel, hour);
                let day = capped_interval(&self.days_wheel, day);
                let week = capped_interval(&self.weeks_wheel, week);
                let year = self.years_wheel.interval(year);
                reduce::<A>(vec![sec, min, hr, day, week, year].as_slice())
            },
            // wdhms
            (None, Some(week), Some(day), Some(hour), Some(minute), Some(second)) => {
                let sec = capped_interval(&self.seconds_wheel, second);
                let min = capped_interval(&self.minutes_wheel, minute);
                let hr = capped_interval(&self.hours_wheel, hour);
                let day = capped_interval(&self.days_wheel, day);
                let week = self.weeks_wheel.interval(week);
                reduce::<A>(vec![sec, min, hr, day, week].as_slice())
            },
            // dhms
            (None, None, Some(day), Some(hour), Some(minute), Some(second)) => {
                let sec = capped_interval(&self.seconds_wheel, second);
                let min = capped_interval(&self.minutes_wheel, minute);
                let hr = capped_interval(&self.hours_wheel, hour);
                let day = self.days_wheel.interval(day);
                reduce::<A>(vec![sec, min, hr, day].as_slice())
            },
            // dhm
            (None, None, Some(day), Some(hour), Some(minute), None) => {
                let min = capped_interval(&self.minutes_wheel, minute);
                let hr = capped_interval(&self.hours_wheel, hour);
                let day = self.days_wheel.interval(day);
                reduce::<A>(vec![min, hr, day].as_slice())
            },
            // dh
            (None, None, Some(day), Some(hour), None, None) => {
                let hr = capped_interval(&self.hours_wheel, hour);
                let day = self.days_wheel.interval(day);
                reduce::<A>(vec![hr, day].as_slice())
            },
            // d
            (None, None, Some(day), None, None, None) => self.days_wheel.interval(day),
            // hms
            (None, None, None, Some(hour), Some(minute), Some(second)) => {
                let sec = capped_interval(&self.seconds_wheel, second);
                let min = capped_interval(&self.minutes_wheel, minute);
                let hr = self.hours_wheel.interval(hour);
                reduce::<A>(vec![sec, min, hr].as_slice())
            },
            // hm
            (None, None, None, Some(hour), Some(minute), None) => {
                let min = capped_interval(&self.minutes_wheel, minute);
                let hr = self.hours_wheel.interval(hour);
                reduce::<A>(vec![min, hr].as_slice())
            },
            // yw
            (Some(year), Some(week), None, None, None, None) => {
                let week = capped_interval(&self.weeks_wheel, week);
                let year = self.years_wheel.interval(year);
                reduce::<A>(vec![year, week].as_slice())
            },
            // y
            (Some(year), None, None, None, None, None) => self.years_wheel.interval(year),
            // w
            (None, Some(week), None, None, None, None) => self.weeks_wheel.interval(week),
            // h
            (None, None, None, Some(hour), None, None) => self.hours_wheel.interval(hour),
            // hs
            (None, None, None, Some(hour), None, Some(second)) => {
                let sec = capped_interval(&self.seconds_wheel, second);
                let hour = self.hours_wheel.interval(hour);
                reduce::<A>(vec![hour, sec].as_slice())
            },
            // ms
            (None, None, None, None, Some(minute), Some(second)) => {
                let sec = capped_interval(&self.seconds_wheel, second);
                let min = self.minutes_wheel.interval(minute);
                reduce::<A>(vec![min, sec].as_slice())
            },
            // m
            (None, None, None, None, Some(minute), None) => self.minutes_wheel.interval(minute),
            // s
            (None, None, None, None, None, Some(second)) => self.seconds_wheel.interval(second),
            _ => None,
        }
    }

    /// Combination of the totals of all six wheels: everything inserted in the current cycle.
    pub fn landmark(&self) -> (r: Option<A::PartialAggregate>)
        requires
            self.wf(),
        ensures
            r == self@.landmark(),
    {
        let wheels = vec![
            self.seconds_wheel.total(),
            self.minutes_wheel.total(),
            self.hours_wheel.total(),
            self.days_wheel.total(),
            self.weeks_wheel.total(),
            self.years_wheel.total(),
        ];
        reduce::<A>(wheels.as_slice())
    }

    /// The landmark, lowered.
    pub fn landmark_and_lower(&self) -> (r: Option<A::Aggregate>)
        requires
            self.wf(),
        ensures
            r == match self@.landmark() {
                Some(partial) => Some(A::lower_spec(partial)),
                None => None,
            },
    {
        match self.landmark() {
            Some(partial) => Some(A::lower(partial)),
            None => None,
        }
    }

    /// The seconds wheel has been allocated.
    pub closed spec fn has_seconds(&self) -> bool {
        self.seconds_wheel.is_allocated()
    }

    /// The minutes wheel has been allocated.
    pub closed spec fn has_minutes(&self) -> bool {
        self.minutes_wheel.is_allocated()
    }

    /// The hours wheel has been allocated.
    pub closed spec fn has_hours(&self) -> bool {
        self.hours_wheel.is_allocated()
    }

    /// The days wheel has been allocated.
    pub closed spec fn has_days(&self) -> bool {
        self.days_wheel.is_allocated()
    }

    /// The weeks wheel has been allocated.
    pub closed spec fn has_weeks(&self) -> bool {
        self.weeks_wheel.is_allocated()
    }

    /// The years wheel has been allocated.
    pub closed spec fn has_years(&self) -> bool {
        self.years_wheel.is_allocated()
    }

    /// The seconds wheel, where it has been allocated.
    pub fn seconds(&self) -> (r: Option<&AggregationWheel<A>>)
        requires
            self.wf(),
        ensures
            r is Some == self.has_seconds(),
            r matches Some(wheel) ==> wheel.wf() && wheel@ == self@.seconds,
            self@.seconds.len() > 0 ==> r is Some,
    {
        proof {
            self.seconds_wheel.lemma_wf();
        }
        self.seconds_wheel.as_deref()
    }

    /// The seconds wheel, which has been allocated.
    pub fn seconds_unchecked(&self) -> (wheel: &AggregationWheel<A>)
        requires
            self.wf(),
            self.has_seconds(),
        ensures
            wheel.wf(),
            wheel@ == self@.seconds,
    {
        self.seconds().unwrap()
    }

    /// The minutes wheel, where it has been allocated.
    pub fn minutes(&self) -> (r: Option<&AggregationWheel<A>>)
        requires
            self.wf(),
        ensures
            r is Some == self.has_minutes(),
            r matches Some(wheel) ==> wheel.wf() && wheel@ == self@.minutes,
            self@.minutes.len() > 0 ==> r is Some,
    {
        proof {
            self.minutes_wheel.lemma_wf();
        }
        self.minutes_wheel.as_deref()
    }

    /// The minutes wheel, which has been allocated.
    pub fn minutes_unchecked(&self) -> (wheel: &AggregationWheel<A>)
        requires
            self.wf(),
            self.has_minutes(),
        ensures
            wheel.wf(),
            wheel@ == self@.minutes,
    {
        self.minutes().unwrap()
    }

    /// The hours wheel, where it has been allocated.
    pub fn hours(&self) -> (r: Option<&AggregationWheel<A>>)
        requires
            self.wf(),
        ensures
            r is Some == self.has_hours(),
            r matches Some(wheel) ==> wheel.wf() && wheel@ == self@.hours,
            self@.hours.len() > 0 ==> r is Some,
    {
        proof {
            self.hours_wheel.lemma_wf();
        }
        self.hours_wheel.as_deref()
    }

    /// The hours wheel, which has been allocated.
    pub fn hours_unchecked(&self) -> (wheel: &AggregationWheel<A>)
        requires
            self.wf(),
            self.has_hours(),
        ensures
            wheel.wf(),
            wheel@ == self@.hours,
    {
        self.hours().unwrap()
    }

    /// The days wheel, where it has been allocated.
    pub fn days(&self) -> (r: Option<&AggregationWheel<A>>)
        requires
            self.wf(),
        ensures
            r is Some == self.has_days(),
            r matches Some(wheel) ==> wheel.wf() && wheel@ == self@.days,
            self@.days.len() > 0 ==> r is Some,
    {
        proof {
            self.days_wheel.lemma_wf();
        }
        self.days_wheel.as_deref()
    }

    /// The days wheel, which has been allocated.
    pub fn days_unchecked(&self) -> (wheel: &AggregationWheel<A>)
        requires
            self.wf(),
            self.has_days(),
        ensures
            wheel.wf(),
            wheel@ == self@.days,
    {
        self.days().unwrap()
    }

    /// The weeks wheel, where it has been allocated.
    pub fn weeks(&self) -> (r: Option<&AggregationWheel<A>>)
        requires
            self.wf(),
        ensures
            r is Some == self.has_weeks(),
            r matches Some(wheel) ==> wheel.wf() && wheel@ == self@.weeks,
            self@.weeks.len() > 0 ==> r is Some,
    {
        proof {
            self.weeks_wheel.lemma_wf();
        }
        self.weeks_wheel.as_deref()
    }

    /// The weeks wheel, which has been allocated.
    pub fn weeks_unchecked(&self) -> (wheel: &AggregationWheel<A>)
        requires
            self.wf(),
            self.has_weeks(),
        ensures
            wheel.wf(),
            wheel@ == self@.weeks,
    {
        self.weeks().unwrap()
    }

    /// The years wheel, where it has been allocated.
    pub fn years(&self) -> (r: Option<&AggregationWheel<A>>)
        requires
            self.wf(),
        ensures
            r is Some == self.has_years(),
            r matches Some(wheel) ==> wheel.wf() && wheel@ == self@.years,
            self@.years.len() > 0 ==> r is Some,
    {
        proof {
            self.years_wheel.lemma_wf();
        }
        self.years_wheel.as_deref()
    }

    /// The years wheel, which has been allocated.
    pub fn years_unchecked(&self) -> (wheel: &AggregationWheel<A>)
        requires
            self.wf(),
            self.has_years(),
        ensures
            wheel.wf(),
            wheel@ == self@.years,
    {
        self.years().unwrap()
    }

    /// Merges `other` into the wheel. The wheel with the lower watermark is
    /// first advanced to the watermark of the other, nothing being inserted
    /// on the way; then the wheels are merged one by one.
    pub fn merge(&mut self, other: &mut Self)
        requires
            old(self).wf(),
            old(other).wf(),
        ensures
            final(self).wf(),
            final(other).wf(),
            final(other)@ == (if old(self)@.watermark > old(other)@.watermark {
                old(other)@.aligned_to(old(self)@.watermark)
            } else {
                old(other)@
            }),
            final(self)@ == (if old(self)@.watermark > old(other)@.watermark {
                old(self)@
            } else {
                old(self)@.aligned_to(old(other)@.watermark)
            }).merge(final(other)@),
            Self::keeps_wheels(old(self), final(self)),
            Self::keeps_wheels(old(other), final(other)),
            Self::keeps_wheels(final(other), final(self)),
    {
        let other_watermark = other.watermark();
        if self.watermark() > other_watermark {
            let mut waw = WriteAheadWheel::default();
            other.advance_to(self.watermark(), &mut waw);
        } else {
            let mut waw = WriteAheadWheel::default();
            self.advance_to(other_watermark, &mut waw);
        }
        self.merge_wheels(other);
    }

    /// Merges the six wheels of `other` into those of this wheel, without
    /// moving either to the watermark of the other.
    pub fn merge_wheels(&mut self, other: &Self)
        requires
            old(self).wf(),
            other.wf(),
        ensures
            final(self).wf(),
            final(self)@ == old(self)@.merge(other@),
            Self::keeps_wheels(old(self), final(self)),
            Self::keeps_wheels(other, final(self)),
    {
        self.seconds_wheel.merge(&other.seconds_wheel);
        self.minutes_wheel.merge(&other.minutes_wheel);
        self.hours_wheel.merge(&other.hours_wheel);
        self.days_wheel.merge(&other.days_wheel);
        self.weeks_wheel.merge(&other.weeks_wheel);
        self.years_wheel.merge(&other.years_wheel);
    }
}

/// The view of what a wheel handed up.
pub open spec fn rotation_view<A: Aggregator>(rotation: Option<RotationData<A>>) -> Option<
    Rotation<A>,
> {
    match rotation {
        Some(data) => Some(
            Rotation { total: data.total, drill: drill_view::<A>(data.drill_down_slots) },
        ),
        None => None,
    }
}

/// Lets `wheel` follow the wheel below it: where that one rotated, `wheel`
/// takes in what was handed up and ticks in turn.
fn feed<A: Aggregator>(wheel: &mut MaybeWheel<A>, below: Option<RotationData<A>>) -> (up: Option<
    RotationData<A>,
>)
    requires
        old(wheel).wf(),
    ensures
        final(wheel).wf(),
        final(wheel)@ == fed(old(wheel)@, rotation_view(below)),
        rotation_view(up) == fed_emission(old(wheel)@, rotation_view(below)),
        old(wheel).is_allocated() || below is Some ==> final(wheel).is_allocated(),
{
    match below {
        Some(rot_data) => {
            wheel.insert_rotation_data(rot_data);
            wheel.tick()
        },
        None => None,
    }
}

/// Ticking `a` times and then `b` times is ticking `a + b` times.
pub proof fn lemma_ticks_add<A: Aggregator>(c: Clockwork<A>, a: nat, b: nat)
    ensures
        c.ticks(a).ticks(b) == c.ticks(a + b),
    decreases b,
{
    if b > 0 {
        lemma_ticks_add(c, a, (b - 1) as nat);
        assert(c.ticks(a + b) == c.ticks((a + b - 1) as nat).tick());
    }
}

/// Ticks that complete no rotation count up the rotation count and leave the capacity.
pub proof fn lemma_wheel_ticks_count<A: Aggregator>(wheel: WheelView<A>, n: nat)
    requires
        wheel.rotation_count + n < wheel.capacity,
    ensures
        wheel.ticks(n).rotation_count == wheel.rotation_count + n,
        wheel.ticks(n).capacity == wheel.capacity,
    decreases n,
{
    if n > 0 {
        lemma_wheel_ticks_count(wheel, (n - 1) as nat);
    }
}

/// The seconds wheel counts the ticks of the hierarchical wheel, and starts
/// again from zero when it has gone round.
pub proof fn lemma_seconds_after_ticks<A: Aggregator>(c: Clockwork<A>, n: nat)
    requires
        c.haw.seconds.rotation_count < c.haw.seconds.capacity,
        c.haw.seconds.rotation_count + n <= c.haw.seconds.capacity,
    ensures
        c.ticks(n).haw.seconds.capacity == c.haw.seconds.capacity,
        c.ticks(n).haw.seconds.rotation_count == if c.haw.seconds.rotation_count + n
            == c.haw.seconds.capacity {
            0
        } else {
            c.haw.seconds.rotation_count + n
        },
    decreases n,
{
    if n > 0 {
        lemma_seconds_after_ticks(c, (n - 1) as nat);
        let p = c.ticks((n - 1) as nat);
        let partial = freeze_opt::<A>(p.waw.front());
        assert(c.ticks(n).haw.seconds == p.haw.seconds_with(partial).tick());
        assert(p.haw.seconds_with(partial).rotation_count == p.haw.seconds.rotation_count);
        assert(p.haw.seconds_with(partial).capacity == p.haw.seconds.capacity);
    }
}

/// While the write-ahead wheel holds nothing and the seconds wheel completes
/// no rotation, ticks move the seconds wheel and the watermarks and nothing else.
pub proof fn lemma_skip_seconds<A: Aggregator>(c: Clockwork<A>, n: nat)
    requires
        c.waw.is_drained(),
        c.haw.seconds.rotation_count + n < c.haw.seconds.capacity,
        c.haw.watermark + n * 1000 <= u64::MAX,
        c.waw.watermark + n * 1000 <= u64::MAX,
    ensures
        c.ticks(n) == (Clockwork {
            haw: HawView {
                watermark: (c.haw.watermark + n * 1000) as u64,
                seconds: c.haw.seconds.ticks(n),
                ..c.haw
            },
            waw: WriteAheadView { watermark: (c.waw.watermark + n * 1000) as u64, ..c.waw },
        }),
    decreases n,
{
    if n > 0 {
        let m = (n - 1) as nat;
        lemma_skip_seconds(c, m);
        lemma_wheel_ticks_count(c.haw.seconds, m);
        let p = c.ticks(m);
        assert(p.waw.front() is None);
        if p.waw.pending.len() > 0 {
            assert(p.waw.pending.drop_first().push(None) =~= p.waw.pending);
        }
        assert(c.haw.watermark + m * 1000 + 1000 == c.haw.watermark + n * 1000);
        assert(c.waw.watermark + m * 1000 + 1000 == c.waw.watermark + n * 1000);
    }
}

/// What a hierarchical wheel holds, as plain values: the form in which
/// a wheel is stored and restored.
pub struct HawParts<A: Aggregator> {
    pub watermark: u64,
    pub seconds: MaybeParts<A>,
    pub minutes: MaybeParts<A>,
    pub hours: MaybeParts<A>,
    pub days: MaybeParts<A>,
    pub weeks: MaybeParts<A>,
    pub years: MaybeParts<A>,
}

impl<A: Aggregator> View for HawParts<A> {
    type V = HawView<A>;

    open spec fn view(&self) -> HawView<A> {
        HawView {
            watermark: self.watermark,
            seconds: self.seconds@,
            minutes: self.minutes@,
            hours: self.hours@,
            days: self.days@,
            weeks: self.weeks@,
            years: self.years@,
        }
    }
}

impl<A: Aggregator> HawParts<A> {
    /// The parts fit together, and the wheels have the capacities of their granularities.
    pub open spec fn valid(&self) -> bool {
        &&& self.seconds.valid() && self.seconds.capacity == SECONDS
        &&& self.minutes.valid() && self.minutes.capacity == MINUTES
        &&& self.hours.valid() && self.hours.capacity == HOURS
        &&& self.days.valid() && self.days.capacity == DAYS
        &&& self.weeks.valid() && self.weeks.capacity == WEEKS
        &&& self.years.valid() && self.years.capacity == YEARS
    }

    /// Tells whether the parts fit together.
    pub fn is_valid(&self) -> (b: bool)
        ensures
            b == self.valid(),
    {
        self.seconds.is_valid() && self.seconds.capacity == SECONDS && self.minutes.is_valid()
            && self.minutes.capacity == MINUTES && self.hours.is_valid() && self.hours.capacity
            == HOURS && self.days.is_valid() && self.days.capacity == DAYS && self.weeks.is_valid()
            && self.weeks.capacity == WEEKS && self.years.is_valid() && self.years.capacity
            == YEARS
    }
}

impl<A: Aggregator> Haw<A> {
    /// What the wheel holds, as plain values.
    pub fn to_parts(&self) -> (parts: HawParts<A>)
        requires
            self.wf(),
        ensures
            parts.valid(),
            parts@ == self@,
            parts.seconds.wheel is Some == self.has_seconds(),
            parts.minutes.wheel is Some == self.has_minutes(),
            parts.hours.wheel is Some == self.has_hours(),
            parts.days.wheel is Some == self.has_days(),
            parts.weeks.wheel is Some == self.has_weeks(),
            parts.years.wheel is Some == self.has_years(),
    {
        HawParts {
            watermark: self.watermark,
            seconds: self.seconds_wheel.to_parts(),
            minutes: self.minutes_wheel.to_parts(),
            hours: self.hours_wheel.to_parts(),
            days: self.days_wheel.to_parts(),
            weeks: self.weeks_wheel.to_parts(),
            years: self.years_wheel.to_parts(),
        }
    }

    /// A copy of the wheel as it stands, for readers that go on while the wheel is written to.
    pub fn snapshot(&self) -> (copy: Self)
        requires
            self.wf(),
        ensures
            copy.wf(),
            copy@ == self@,
            Self::keeps_wheels(self, &copy),
            Self::keeps_wheels(&copy, self),
    {
        let parts = self.to_parts();
        match Self::from_parts(&parts) {
            Some(copy) => copy,
            None => Self::new(self.watermark),
        }
    }

    /// The wheel that holds what `parts` say, where they fit together.
    pub fn from_parts(parts: &HawParts<A>) -> (haw: Option<Self>)
        ensures
            haw is Some <==> parts.valid(),
            haw matches Some(h) ==> {
                &&& h.wf()
                &&& h@ == parts@
                &&& h.has_seconds() == parts.seconds.wheel is Some
                &&& h.has_minutes() == parts.minutes.wheel is Some
                &&& h.has_hours() == parts.hours.wheel is Some
                &&& h.has_days() == parts.days.wheel is Some
                &&& h.has_weeks() == parts.weeks.wheel is Some
                &&& h.has_years() == parts.years.wheel is Some
            },
    {
        if !parts.is_valid() {
            return None;
        }
        let seconds_wheel = MaybeWheel::from_parts(&parts.seconds).unwrap();
        let minutes_wheel = MaybeWheel::from_parts(&parts.minutes).unwrap();
        let hours_wheel = MaybeWheel::from_parts(&parts.hours).unwrap();
        let days_wheel = MaybeWheel::from_parts(&parts.days).unwrap();
        let weeks_wheel = MaybeWheel::from_parts(&parts.weeks).unwrap();
        let years_wheel = MaybeWheel::from_parts(&parts.years).unwrap();
        proof {
            seconds_wheel.lemma_wf();
            minutes_wheel.lemma_wf();
            hours_wheel.lemma_wf();
            days_wheel.lemma_wf();
            weeks_wheel.lemma_wf();
            years_wheel.lemma_wf();
        }
        Some(
            Haw {
                watermark: parts.watermark,
                seconds_wheel,
                minutes_wheel,
                hours_wheel,
                days_wheel,
                weeks_wheel,
                years_wheel,
            },
        )
    }
}

/// What a tick does to the seconds that have passed since a wheel last
/// ticked: it adds one, unless the tick completes the slot of that wheel.
pub proof fn lemma_tick_counts<A: Aggregator>(haw: HawView<A>, partial: Option<A::PartialAggregate>)
    requires
        haw.wf(),
    ensures
        haw.completes_minute() || haw.tick(partial).secs_into_minute() == haw.secs_into_minute()
            + 1,
        haw.completes_hour() || haw.tick(partial).secs_into_hour() == haw.secs_into_hour() + 1,
        haw.completes_day() || haw.tick(partial).secs_into_day() == haw.secs_into_day() + 1,
        haw.completes_week() || haw.tick(partial).secs_into_week() == haw.secs_into_week() + 1,
        haw.completes_year() || haw.tick(partial).secs_into_year() == haw.secs_into_year() + 1,
        haw.secs_into_minute() < 60,
        haw.secs_into_hour() < 3600,
        haw.secs_into_day() < 86400,
        haw.secs_into_week() < 604800,
        haw.secs_into_year() < 31449600,
{
}

} // verus!
