//! Sliding windows over a wheel, cut into pairs.
pub mod eager;
pub mod lazy;
pub mod pairs;
pub mod slicer;
pub mod util;

use crate::aggregation::last_n;
use crate::aggregator::{fold_partials, or_identity, Aggregator};
use crate::entry::{Entry, Error};
use crate::duration::Duration;
use crate::hierarchical::{time_parts, Clockwork, TimeParts};
use crate::ring::{round_up, MAX_SLOTS};
use crate::wheel::RwWheel;
use crate::window::pairs::{popped, pushed};
use crate::window::util::{create_pair_type, pair_type_of, pairs_per_window, pairs_space, PairType};
use vstd::prelude::*;

verus! {

/// What a window wheel holds: the wheel that takes the entries, the pairs
/// of the windows in the making, where the next pair and the next window
/// end, and the windows that were completed.
pub struct WindowView<A: Aggregator> {
    /// Length of a window, in milliseconds.
    pub range: usize,
    /// Distance between the starts of two windows, in milliseconds.
    pub slide: usize,
    /// Length of the pair in the making, in milliseconds.
    pub current_pair_len: usize,
    /// Whether the pair in the making is the first of its slide.
    pub in_p1: bool,
    /// Where the pair in the making ends.
    pub next_pair_end: u64,
    /// Where the next window ends.
    pub next_window_end: u64,
    /// Number of pairs that are kept at most.
    pub capacity: nat,
    /// The pairs that are kept, oldest first.
    pub pairs: Seq<A::PartialAggregate>,
    /// The wheel that takes the entries.
    pub wheel: Clockwork<A>,
    /// The windows that were completed, oldest first.
    pub results: Seq<A::PartialAggregate>,
}

/// The time `len` milliseconds after `time`, or the last time that there is.
pub open spec fn later(time: u64, len: usize) -> u64 {
    if time + len > u64::MAX {
        u64::MAX
    } else {
        (time + len) as u64
    }
}

/// A wheel can be asked for the interval of a pair of `len` milliseconds.
pub open spec fn pair_len_supported(len: usize) -> bool {
    time_parts((len / 1000) as nat).is_supported()
}

/// A window of `range` that moves by `slide`, both in milliseconds, can be
/// cut into pairs: the range is no shorter than the slide, and a wheel can
/// be asked for the interval of each pair.
pub open spec fn can_slice(range: usize, slide: usize) -> bool {
    &&& 0 < slide <= range
    &&& 2 * range <= usize::MAX
    &&& pairs_per_window(range, slide) <= MAX_SLOTS
    &&& match pair_type_of(range, slide) {
        PairType::Even(len) => pair_len_supported(len),
        PairType::Uneven(p1, p2) => pair_len_supported(p1) && pair_len_supported(p2),
    }
}

/// Tells whether a wheel can be asked for the interval of a pair of `len` milliseconds.
pub fn is_pair_len_supported(len: usize) -> (b: bool)
    ensures
        b == pair_len_supported(len),
{
    TimeParts::from_duration(Duration::milliseconds(len as u64)).supported()
}

/// Tells whether a window of `range` that moves by `slide`, both in
/// milliseconds, can be cut into pairs.
pub fn is_sliceable(range: usize, slide: usize) -> (b: bool)
    ensures
        b == can_slice(range, slide),
{
    if slide == 0 || slide > range || range > usize::MAX / 2 {
        return false;
    }
    if pairs_space(range, slide) > MAX_SLOTS {
        return false;
    }
    match create_pair_type(range, slide) {
        PairType::Even(len) => is_pair_len_supported(len),
        PairType::Uneven(p1, p2) => is_pair_len_supported(p1) && is_pair_len_supported(p2),
    }
}

impl<A: Aggregator> WindowView<A> {
    /// The pairs of the window.
    pub open spec fn pair_type(self) -> PairType {
        pair_type_of(self.range, self.slide)
    }

    /// Range and slide can be cut into pairs, and the pair in the making is one of them.
    pub open spec fn wf(self) -> bool {
        &&& can_slice(self.range, self.slide)
        &&& self.pairs.len() <= self.capacity
        &&& pairs_per_window(self.range, self.slide) <= self.capacity
        &&& match self.pair_type() {
            PairType::Even(len) => self.current_pair_len == len && !self.in_p1,
            PairType::Uneven(p1, p2) => self.current_pair_len == (if self.in_p1 {
                p1
            } else {
                p2
            }),
        }
    }

    /// A window wheel at `time` in which nothing has happened yet.
    pub open spec fn start(time: u64, range: usize, slide: usize) -> Self {
        let first = match pair_type_of(range, slide) {
            PairType::Even(len) => len,
            PairType::Uneven(p1, _) => p1,
        };
        WindowView {
            range,
            slide,
            current_pair_len: first,
            in_p1: pair_type_of(range, slide) is Uneven,
            next_pair_end: later(time, first),
            next_window_end: later(time, range),
            capacity: round_up(pairs_per_window(range, slide)),
            pairs: Seq::empty(),
            wheel: RwWheel::<A>::new_view(time),
            results: Seq::empty(),
        }
    }

    /// Length of the pair that follows the one in the making.
    pub open spec fn following_pair_len(self) -> usize {
        match self.pair_type() {
            PairType::Even(len) => len,
            PairType::Uneven(p1, p2) => if self.in_p1 {
                p2
            } else {
                p1
            },
        }
    }

    /// The partial aggregate of the pair in the making, once the wheel has reached its end.
    pub open spec fn pair_partial(self) -> A::PartialAggregate {
        or_identity::<A>(
            self.wheel.advance_to(self.next_pair_end).haw.interval(
                (self.current_pair_len / 1000) as nat,
            ),
        )
    }

    /// The window wheel after the pair in the making was completed: the
    /// wheel is advanced to the end of the pair, the interval of the pair's
    /// length joins the pairs, and the following pair is in the making.
    pub open spec fn complete_pair(self) -> Self {
        WindowView {
            current_pair_len: self.following_pair_len(),
            in_p1: self.pair_type() is Uneven && !self.in_p1,
            next_pair_end: later(self.next_pair_end, self.following_pair_len()),
            pairs: pushed(self.pairs, self.pair_partial(), self.capacity),
            wheel: self.wheel.advance_to(self.next_pair_end),
            ..self
        }
    }

    /// The window wheel after every pair that ends at `watermark` or before was completed.
    pub open spec fn complete_pairs(self, watermark: u64) -> Self
        decreases
            (if watermark >= self.next_pair_end {
                watermark - self.next_pair_end + 1
            } else {
                0
            }),
    {
        if watermark >= self.next_pair_end && self.complete_pair().next_pair_end
            > self.next_pair_end {
            self.complete_pair().complete_pairs(watermark)
        } else {
            self
        }
    }

    /// The window that the pairs make up: the combination of as many of
    /// the newest pairs as a window has.
    pub open spec fn window(self) -> A::PartialAggregate {
        fold_partials::<A>(last_n(self.pairs, pairs_per_window(self.range, self.slide)))
    }

    /// The pairs after a window was completed: the oldest pair has gone, or
    /// the two oldest where the pairs are of two lengths.
    pub open spec fn pairs_after_window(self) -> Seq<A::PartialAggregate> {
        match self.pair_type() {
            PairType::Even(_) => popped(self.pairs),
            PairType::Uneven(_, _) => popped(popped(self.pairs)),
        }
    }

    /// The window wheel after the next window was completed: the wheel is
    /// advanced to the end of the window, the window joins the results, and
    /// the pairs of the oldest slide are given up.
    pub open spec fn complete_window(self) -> Self {
        WindowView {
            next_window_end: later(self.next_window_end, self.slide),
            pairs: self.pairs_after_window(),
            wheel: self.wheel.advance_to(self.next_window_end),
            results: self.results.push(self.window()),
            ..self
        }
    }

    /// The window wheel after every window that ends at `watermark` or before was completed.
    pub open spec fn complete_windows(self, watermark: u64) -> Self
        decreases
            (if watermark >= self.next_window_end {
                watermark - self.next_window_end + 1
            } else {
                0
            }),
    {
        if watermark >= self.next_window_end && self.complete_window().next_window_end
            > self.next_window_end {
            self.complete_window().complete_windows(watermark)
        } else {
            self
        }
    }

    /// The window wheel after an insert of `entry`, taken in or turned down.
    pub open spec fn after_insert(self, entry: Entry<A::Input>) -> Self {
        WindowView {
            wheel: Clockwork { haw: self.wheel.haw, waw: self.wheel.waw.after_insert(entry) },
            ..self
        }
    }

    /// The window wheel after an advance to `watermark`: first the pairs
    /// that end by then are completed, then the windows that end by then,
    /// and at last the wheel is advanced to `watermark`.
    pub open spec fn advance_to(self, watermark: u64) -> Self {
        let sliced = self.complete_pairs(watermark).complete_windows(watermark);
        WindowView { wheel: sliced.wheel.advance_to(watermark), ..sliced }
    }
}

/// A call that is made on a window wheel.
pub enum WindowOp<A: Aggregator> {
    /// An insert of an entry.
    Insert(Entry<A::Input>),
    /// An advance to a watermark.
    AdvanceTo(u64),
}

impl<A: Aggregator> WindowView<A> {
    /// The window wheel after one call.
    pub open spec fn after_op(self, op: WindowOp<A>) -> Self {
        match op {
            WindowOp::Insert(entry) => self.after_insert(entry),
            WindowOp::AdvanceTo(watermark) => self.advance_to(watermark),
        }
    }

    /// The window wheel after a sequence of calls, the first call first.
    pub open spec fn after_ops(self, ops: Seq<WindowOp<A>>) -> Self
        decreases ops.len(),
    {
        if ops.len() == 0 {
            self
        } else {
            self.after_ops(ops.drop_last()).after_op(ops.last())
        }
    }
}

/// A wheel that cuts a stream into windows of a range that move by a slide.
pub trait WindowWheel<A: Aggregator>: Sized {
    /// What the window wheel holds.
    spec fn window_view(&self) -> WindowView<A>;

    /// The window wheel is consistent with itself.
    spec fn wf(&self) -> bool;

    /// Moves the window wheel on to `new_watermark` and completes the
    /// windows that end by then.
    fn advance_to(&mut self, new_watermark: u64)
        requires
            old(self).wf(),
        ensures
            final(self).wf(),
            final(self).window_view() == old(self).window_view().advance_to(new_watermark),
    ;

    /// Inserts an entry into the wheel that takes the entries. A late entry,
    /// or one beyond the write-ahead horizon, is handed back.
    fn insert(&mut self, entry: Entry<A::Input>) -> (result: Result<(), Error<A::Input>>)
        requires
            old(self).wf(),
        ensures
            final(self).wf(),
            result == old(self).window_view().wheel.waw.insert_result(entry),
            final(self).window_view() == old(self).window_view().after_insert(entry),
    ;

    /// The wheel that takes the entries.
    fn wheel(&self) -> (wheel: &RwWheel<A>)
        requires
            self.wf(),
        ensures
            wheel.wf(),
            wheel@ == self.window_view().wheel,
    ;

    /// The windows that were completed, oldest first.
    fn results(&self) -> (results: &[A::PartialAggregate])
        ensures
            results@ == self.window_view().results,
    ;
}

} // verus!
