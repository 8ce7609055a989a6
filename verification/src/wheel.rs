//! The reader-writer wheel: a write-ahead wheel coupled with the
//! hierarchical wheel that it feeds.
use crate::aggregator::Aggregator;
use crate::duration::Duration;
use crate::entry::{Entry, Error};
use crate::hierarchical::{time_parts, Clockwork, Haw, HawView, CYCLE_LENGTH_SECS};
use crate::ring::{round_up, MAX_SLOTS};
use crate::write::{WriteAheadView, WriteAheadWheel, DEFAULT_WRITE_AHEAD_SLOTS};
use vstd::prelude::*;

verus! {

/// What a reader-writer wheel is made with.
#[derive(Debug, Clone, Copy)]
pub struct Options {
    drill_down: bool,
    write_ahead_capacity: usize,
}

impl Options {
    /// Whether the wheels keep drill-down data.
    pub closed spec fn drill_down(self) -> bool {
        self.drill_down
    }

    /// Number of seconds the wheel is to write ahead, before rounding up to a power of two.
    pub closed spec fn write_ahead_capacity(self) -> usize {
        self.write_ahead_capacity
    }

    /// The same options, with drill-down data kept.
    pub fn with_drill_down(self) -> (options: Self)
        ensures
            options.drill_down(),
            options.write_ahead_capacity() == self.write_ahead_capacity(),
    {
        Options { drill_down: true, write_ahead_capacity: self.write_ahead_capacity }
    }

    /// The same options, with `capacity` seconds of write-ahead, which are
    /// rounded up to a power of two when a wheel is made.
    pub fn with_write_ahead(self, capacity: usize) -> (options: Self)
        ensures
            options.drill_down() == self.drill_down(),
            options.write_ahead_capacity() == capacity,
    {
        Options { drill_down: self.drill_down, write_ahead_capacity: capacity }
    }
}

impl Default for Options {
    fn default() -> (options: Self)
        ensures
            !options.drill_down(),
            options.write_ahead_capacity() == DEFAULT_WRITE_AHEAD_SLOTS,
    {
        Options { drill_down: false, write_ahead_capacity: DEFAULT_WRITE_AHEAD_SLOTS }
    }
}

/// A write-ahead wheel in which nothing is pending.
pub open spec fn empty_write_ahead<A: Aggregator>(watermark: u64, capacity: nat) -> WriteAheadView<
    A,
> {
    WriteAheadView {
        watermark,
        pending: Seq::new(capacity, |i: int| None::<A::MutablePartialAggregate>),
    }
}

/// A reader-writer wheel: entries are inserted into its write-ahead wheel,
/// and an advance of the watermark moves them into its hierarchical wheel.
pub struct RwWheel<A: Aggregator> {
    write: WriteAheadWheel<A>,
    read: Haw<A>,
}

impl<A: Aggregator> View for RwWheel<A> {
    type V = Clockwork<A>;

    closed spec fn view(&self) -> Clockwork<A> {
        Clockwork { haw: self.read@, waw: self.write@ }
    }
}

impl<A: Aggregator> RwWheel<A> {
    /// Both wheels are well-formed and stand at the same watermark.
    pub closed spec fn wf(&self) -> bool {
        &&& self.write.wf()
        &&& self.read.wf()
        &&& self.write@.watermark == self.read@.watermark
    }

    /// Number of seconds the wheel can write ahead: what it was made with,
    /// rounded up to a power of two.
    pub closed spec fn write_ahead_capacity(&self) -> nat {
        self.write.capacity_spec()
    }

    /// The hierarchical wheel.
    pub closed spec fn haw(&self) -> Haw<A> {
        self.read
    }

    /// What well-formedness says of the view.
    pub proof fn lemma_wf(&self)
        requires
            self.wf(),
        ensures
            self@.haw.wf(),
            self@.waw.watermark == self@.haw.watermark,
            self@.waw.pending.len() == self.write_ahead_capacity(),
    {
        self.read.lemma_wf();
        self.write.lemma_wf();
    }

    /// What a wheel made by [`RwWheel::new`] holds.
    pub open spec fn new_view(time: u64) -> Clockwork<A> {
        Clockwork {
            haw: HawView::<A>::empty(time, false),
            waw: empty_write_ahead::<A>(time, DEFAULT_WRITE_AHEAD_SLOTS as nat),
        }
    }

    /// A wheel that starts at `time`, in milliseconds.
    pub fn new(time: u64) -> (wheel: Self)
        ensures
            wheel.wf(),
            wheel@ == Self::new_view(time),
            wheel@.haw == HawView::<A>::empty(time, false),
            wheel@.waw == empty_write_ahead::<A>(time, DEFAULT_WRITE_AHEAD_SLOTS as nat),
            wheel.write_ahead_capacity() == DEFAULT_WRITE_AHEAD_SLOTS,
            wheel.haw().has_no_wheels(),
    {
        RwWheel { write: WriteAheadWheel::with_watermark(time), read: Haw::new(time) }
    }

    /// A wheel that starts at `time`, in milliseconds, and keeps drill-down data.
    pub fn with_drill_down(time: u64) -> (wheel: Self)
        ensures
            wheel.wf(),
            wheel@.haw == HawView::<A>::empty(time, true),
            wheel@.waw == empty_write_ahead::<A>(time, DEFAULT_WRITE_AHEAD_SLOTS as nat),
            wheel.write_ahead_capacity() == DEFAULT_WRITE_AHEAD_SLOTS,
            wheel.haw().has_no_wheels(),
    {
        RwWheel { write: WriteAheadWheel::with_watermark(time), read: Haw::with_drill_down(time) }
    }

    /// A wheel that starts at `time`, in milliseconds, made with `opts`.
    pub fn with_options(time: u64, opts: Options) -> (wheel: Self)
        requires
            opts.write_ahead_capacity() <= MAX_SLOTS,
        ensures
            wheel.wf(),
            wheel@.haw == HawView::<A>::empty(time, opts.drill_down()),
            wheel@.waw == empty_write_ahead::<A>(
                time,
                round_up(opts.write_ahead_capacity() as nat),
            ),
            wheel.write_ahead_capacity() == round_up(opts.write_ahead_capacity() as nat),
            wheel.haw().has_no_wheels(),
    {
        let write: WriteAheadWheel<A> = WriteAheadWheel::with_capacity_and_watermark(
            opts.write_ahead_capacity,
            time,
        );
        let read: Haw<A> = if opts.drill_down {
            Haw::with_drill_down(time)
        } else {
            Haw::new(time)
        };
        RwWheel { write, read }
    }

    /// The wheel made of `write` and `read`, where they stand at the same watermark.
    pub fn from_parts(write: WriteAheadWheel<A>, read: Haw<A>) -> (wheel: Option<Self>)
        requires
            write.wf(),
            read.wf(),
        ensures
            wheel is Some <==> write@.watermark == read@.watermark,
            wheel matches Some(w) ==> w.wf() && w@ == (Clockwork { haw: read@, waw: write@ })
                && w.haw() == read && w.write_ahead_capacity() == write.capacity_spec(),
    {
        if write.watermark() == read.watermark() {
            Some(RwWheel { write, read })
        } else {
            None
        }
    }

    /// The write-ahead wheel and the hierarchical wheel that the wheel is made of.
    pub fn into_parts(self) -> (parts: (WriteAheadWheel<A>, Haw<A>))
        requires
            self.wf(),
        ensures
            parts.0.wf(),
            parts.1.wf(),
            parts.0@ == self@.waw,
            parts.1@ == self@.haw,
            parts.1 == self.haw(),
    {
        (self.write, self.read)
    }

    /// The write-ahead wheel. The wheel stays well-formed as long as the
    /// write-ahead wheel is left well-formed and at its watermark.
    pub fn write(&mut self) -> (write: &mut WriteAheadWheel<A>)
        requires
            old(self).wf(),
        ensures
            write.wf(),
            write@ == old(self)@.waw,
            write.capacity_spec() == old(self).write_ahead_capacity(),
            final(self)@ == (Clockwork { haw: old(self)@.haw, waw: final(write)@ }),
            final(self).haw() == old(self).haw(),
            final(self).write_ahead_capacity() == final(write).capacity_spec(),
            final(write).wf() && final(write)@.watermark == old(self)@.haw.watermark
                ==> final(self).wf(),
    {
        &mut self.write
    }

    /// The hierarchical wheel.
    pub fn read(&self) -> (read: &Haw<A>)
        requires
            self.wf(),
        ensures
            read.wf(),
            read@ == self@.haw,
            *read == self.haw(),
    {
        &self.read
    }

    /// The current watermark, in milliseconds.
    pub fn watermark(&self) -> (w: u64)
        ensures
            w == self@.waw.watermark,
    {
        self.write.watermark()
    }

    /// Inserts an entry into the write-ahead wheel.
    ///
    /// An entry below the watermark is handed back as [`Error::Late`]. One
    /// whose second lies at or beyond the write-ahead horizon is handed back
    /// as [`Error::Overflow`], with the first timestamp beyond the horizon.
    /// Any other entry is taken into the slot of its second.
    pub fn insert(&mut self, entry: Entry<A::Input>) -> (result: Result<(), Error<A::Input>>)
        requires
            old(self).wf(),
        ensures
            final(self).wf(),
            final(self).write_ahead_capacity() == old(self).write_ahead_capacity(),
            final(self)@.haw == old(self)@.haw,
            final(self).haw() == old(self).haw(),
            old(self)@.waw.is_late(entry.timestamp) ==> result == Err::<(), Error<A::Input>>(
                Error::Late { entry, watermark: old(self)@.waw.watermark },
            ) && final(self)@ == old(self)@,
            old(self)@.waw.overflows(entry.timestamp) ==> result == Err::<(), Error<A::Input>>(
                Error::Overflow {
                    entry,
                    max_write_ahead_ts: old(self)@.waw.max_write_ahead_ts() as u64,
                },
            ) && final(self)@ == old(self)@,
            !old(self)@.waw.is_late(entry.timestamp) && !old(self)@.waw.overflows(entry.timestamp)
                ==> result is Ok && final(self)@.waw == old(self)@.waw.insert(entry),
            result == old(self)@.waw.insert_result(entry),
            final(self)@.waw == old(self)@.waw.after_insert(entry),
    {
        self.write.insert(entry)
    }

    /// Moves the wheel on by the whole seconds of `duration`: each second
    /// that passes is moved from the write-ahead wheel into the hierarchical
    /// wheel. An advance of more than a cycle clears the hierarchical wheel.
    pub fn advance(&mut self, duration: Duration)
        requires
            old(self).wf(),
            duration.secs() <= CYCLE_LENGTH_SECS ==> old(self)@.haw.watermark + duration.secs()
                * 1000 <= u64::MAX,
        ensures
            final(self).wf(),
            final(self).write_ahead_capacity() == old(self).write_ahead_capacity(),
            final(self)@ == old(self)@.advance(duration.secs()),
            1 <= duration.secs() <= CYCLE_LENGTH_SECS ==> final(self).haw().has_seconds(),
            duration.secs() <= CYCLE_LENGTH_SECS ==> Haw::has_reached(
                old(self)@.haw,
                duration.secs(),
                &final(self).haw(),
            ),
            Haw::keeps_wheels(&old(self).haw(), &final(self).haw()),
    {
        self.read.advance(duration, &mut self.write);
        proof {
            if duration.secs() <= CYCLE_LENGTH_SECS {
                lemma_ticks_watermarks(old(self)@, duration.secs());
            }
        }
    }

    /// Moves the wheel on to `watermark`, by the whole seconds that lie
    /// between. Nothing happens where the wheel has reached it.
    pub fn advance_to(&mut self, watermark: u64)
        requires
            old(self).wf(),
        ensures
            final(self).wf(),
            final(self).write_ahead_capacity() == old(self).write_ahead_capacity(),
            final(self)@ == old(self)@.advance_to(watermark),
            watermark >= old(self)@.haw.watermark + 1000 && (watermark
                - old(self)@.haw.watermark) / 1000 <= CYCLE_LENGTH_SECS
                ==> final(self).haw().has_seconds(),
            watermark >= old(self)@.haw.watermark && (watermark - old(self)@.haw.watermark)
                / 1000 <= CYCLE_LENGTH_SECS ==> Haw::has_reached(
                old(self)@.haw,
                ((watermark - old(self)@.haw.watermark) / 1000) as nat,
                &final(self).haw(),
            ),
            Haw::keeps_wheels(&old(self).haw(), &final(self).haw()),
    {
        self.read.advance_to(watermark, &mut self.write);
        proof {
            if watermark > old(self)@.haw.watermark {
                let secs = ((watermark - old(self)@.haw.watermark) / 1000) as nat;
                if secs <= CYCLE_LENGTH_SECS {
                    lemma_ticks_watermarks(old(self)@, secs);
                }
            }
        }
    }

    /// The partial aggregate of the last whole seconds of `dur`.
    pub fn interval(&self, dur: Duration) -> (r: Option<A::PartialAggregate>)
        requires
            self.wf(),
            time_parts(dur.secs()).is_supported(),
        ensures
            r == self@.haw.interval(dur.secs()),
    {
        self.read.interval(dur)
    }

    /// Combination of everything that the hierarchical wheel took in during the current cycle.
    pub fn landmark(&self) -> (r: Option<A::PartialAggregate>)
        requires
            self.wf(),
        ensures
            r == self@.haw.landmark(),
    {
        self.read.landmark()
    }

    /// Merges the hierarchical wheel of `other` into that of this wheel.
    /// Both wheels are first advanced to the higher of their watermarks.
    pub fn merge(&mut self, other: &mut Self)
        requires
            old(self).wf(),
            old(other).wf(),
        ensures
            final(self).wf(),
            final(other).wf(),
            final(self).write_ahead_capacity() == old(self).write_ahead_capacity(),
            final(other).write_ahead_capacity() == old(other).write_ahead_capacity(),
            final(other)@ == old(other)@.advance_to(old(self)@.haw.watermark),
            final(self)@ == (Clockwork {
                haw: old(self)@.advance_to(old(other)@.haw.watermark).haw.merge(final(other)@.haw),
                waw: old(self)@.advance_to(old(other)@.haw.watermark).waw,
            }),
            Haw::keeps_wheels(&old(self).haw(), &final(self).haw()),
            Haw::keeps_wheels(&old(other).haw(), &final(other).haw()),
            Haw::keeps_wheels(&final(other).haw(), &final(self).haw()),
    {
        let mine = self.watermark();
        let theirs = other.watermark();
        other.advance_to(mine);
        self.advance_to(theirs);
        self.read.merge_wheels(&other.read);
    }
}

/// Wheels that stand at the same watermark still do after any number of ticks.
pub proof fn lemma_ticks_watermarks<A: Aggregator>(c: Clockwork<A>, n: nat)
    requires
        c.haw.watermark == c.waw.watermark,
    ensures
        c.ticks(n).haw.watermark == c.ticks(n).waw.watermark,
    decreases n,
{
    if n > 0 {
        lemma_ticks_watermarks(c, (n - 1) as nat);
    }
}

} // verus!
