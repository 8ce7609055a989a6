//! The eager window wheel: a running window is kept by combining each new
//! pair into it and taking each pair that leaves the window out of it.
use crate::aggregation::last_n;
use crate::aggregator::{fold_partials, lemma_fold_partials_first, InverseExt};
use crate::duration::Duration;
use crate::entry::{Entry, Error};
use crate::wheel::RwWheel;
use crate::window::pairs::{popped, pushed};
use crate::window::slicer::Slicer;
use crate::window::util::{lemma_pairs_per_window_positive, pairs_per_window};
use crate::window::{can_slice, is_sliceable, WindowView, WindowWheel};
use vstd::prelude::*;

verus! {

/// What an eager window wheel is built from: range and slide in
/// milliseconds, and the time at which it starts.
#[derive(Copy, Clone)]
pub struct Builder {
    range: usize,
    slide: usize,
    time: u64,
}

impl Default for Builder {
    fn default() -> (builder: Self)
        ensures
            builder.range() == 0,
            builder.slide() == 0,
            builder.time() == 0,
    {
        Builder { range: 0, slide: 0, time: 0 }
    }
}

impl Builder {
    /// Length of a window, in milliseconds.
    pub closed spec fn range(self) -> usize {
        self.range
    }

    /// Distance between the starts of two windows, in milliseconds.
    pub closed spec fn slide(self) -> usize {
        self.slide
    }

    /// The time at which the wheel starts, in milliseconds.
    pub closed spec fn time(self) -> u64 {
        self.time
    }

    /// A window wheel can be built.
    pub open spec fn is_valid(self) -> bool {
        can_slice(self.range(), self.slide())
    }

    /// Tells whether a window wheel can be built.
    pub fn can_build(&self) -> (b: bool)
        ensures
            b == self.is_valid(),
    {
        is_sliceable(self.range, self.slide)
    }

    /// The same builder, starting at `watermark`.
    pub fn with_watermark(self, watermark: u64) -> (builder: Self)
        ensures
            builder.time() == watermark,
            builder.range() == self.range(),
            builder.slide() == self.slide(),
    {
        Builder { time: watermark, ..self }
    }

    /// The same builder, with windows as long as the whole milliseconds of `range`.
    pub fn with_range(self, range: Duration) -> (builder: Self)
        requires
            range.secs() * 1000 + range.subsec_nanos() / 1_000_000 <= usize::MAX,
        ensures
            builder.range() == range.secs() * 1000 + range.subsec_nanos() / 1_000_000,
            builder.time() == self.time(),
            builder.slide() == self.slide(),
    {
        Builder { range: range.whole_milliseconds() as usize, ..self }
    }

    /// The same builder, with windows that move by the whole milliseconds of `slide`.
    pub fn with_slide(self, slide: Duration) -> (builder: Self)
        requires
            slide.secs() * 1000 + slide.subsec_nanos() / 1_000_000 <= usize::MAX,
        ensures
            builder.slide() == slide.secs() * 1000 + slide.subsec_nanos() / 1_000_000,
            builder.time() == self.time(),
            builder.range() == self.range(),
    {
        Builder { slide: slide.whole_milliseconds() as usize, ..self }
    }

    /// The eager window wheel that was asked for.
    pub fn build<A: InverseExt>(self) -> (wheel: EagerWindowWheel<A>)
        requires
            self.is_valid(),
        ensures
            WindowWheel::wf(&wheel),
            wheel.window_view() == WindowView::<A>::start(self.time(), self.range(), self.slide()),
    {
        EagerWindowWheel::new(self.time, self.range, self.slide)
    }
}

/// A window wheel that keeps a running window: each pair that is completed
/// is combined into it, and each pair that leaves the window is taken out
/// of it by the inverse of the combination.
pub struct EagerWindowWheel<A: InverseExt> {
    slicer: Slicer<A>,
    acc: A::PartialAggregate,
}

impl<A: InverseExt> EagerWindowWheel<A> {
    /// A window wheel at `time` for windows of `range` that move by `slide`, both in milliseconds.
    pub fn new(time: u64, range: usize, slide: usize) -> (wheel: Self)
        requires
            can_slice(range, slide),
        ensures
            WindowWheel::wf(&wheel),
            wheel.window_view() == WindowView::<A>::start(time, range, slide),
    {
        EagerWindowWheel { slicer: Slicer::new(time, range, slide), acc: A::identity() }
    }

    /// The running window.
    pub fn window(&self) -> (window: A::PartialAggregate)
        requires
            WindowWheel::wf(self),
        ensures
            window == self.window_view().window(),
    {
        self.acc
    }

    /// Completes the pair in the making and brings the running window up to
    /// date: the pair that leaves the window is taken out, the new one is
    /// combined in.
    fn complete_pair(&mut self)
        requires
            WindowWheel::wf(old(self)),
        ensures
            WindowWheel::wf(final(self)),
            final(self).window_view() == old(self).window_view().complete_pair(),
            old(self).window_view().next_pair_end < u64::MAX
                ==> final(self).window_view().next_pair_end
                > old(self).window_view().next_pair_end,
    {
        proof {
            self.slicer.lemma_wf();
            lemma_pairs_per_window_positive(self.slicer@.range, self.slicer@.slide);
        }
        let per_window = self.slicer.pairs_per_window();
        let len = self.slicer.pairs_len();
        let kept = if len >= per_window {
            A::inverse_combine(self.acc, self.slicer.pair(len - per_window))
        } else {
            self.acc
        };
        let partial = self.slicer.complete_pair();
        self.acc = A::combine(kept, partial);
        proof {
            let before = old(self).window_view();
            lemma_window_pushed::<A>(
                before.pairs,
                partial,
                before.capacity,
                pairs_per_window(before.range, before.slide),
            );
        }
    }

    /// Completes the next window, which is the running window, and takes
    /// out of the running window the pairs that are given up with it.
    fn complete_window(&mut self)
        requires
            WindowWheel::wf(old(self)),
        ensures
            WindowWheel::wf(final(self)),
            final(self).window_view() == old(self).window_view().complete_window(),
            old(self).window_view().next_window_end < u64::MAX
                ==> final(self).window_view().next_window_end
                > old(self).window_view().next_window_end,
    {
        proof {
            self.slicer.lemma_wf();
        }
        let window = self.acc;
        let per_window = self.slicer.pairs_per_window();
        let len = self.slicer.pairs_len();
        let ghost pairs = self.slicer@.pairs;
        let mut acc = self.acc;
        if len > 0 {
            if len <= per_window {
                acc = A::inverse_combine(acc, self.slicer.pair(0));
            }
            proof {
                lemma_window_popped::<A>(pairs, per_window as nat);
            }
            if self.slicer.is_uneven() && len > 1 {
                if len - 1 <= per_window {
                    acc = A::inverse_combine(acc, self.slicer.pair(1));
                }
                proof {
                    lemma_window_popped::<A>(popped(pairs), per_window as nat);
                }
            }
        }
        self.slicer.complete_window(window);
        self.acc = acc;
    }
}

impl<A: InverseExt> WindowWheel<A> for EagerWindowWheel<A> {
    closed spec fn window_view(&self) -> WindowView<A> {
        self.slicer@
    }

    closed spec fn wf(&self) -> bool {
        self.slicer.wf() && self.acc == self.slicer@.window()
    }

    fn advance_to(&mut self, new_watermark: u64) {
        let ghost start = self.slicer@;
        proof {
            self.slicer.lemma_wf();
        }
        while new_watermark >= self.slicer.next_pair_end() && self.slicer.next_pair_end()
            < u64::MAX
            invariant
                WindowWheel::wf(self),
                self.slicer@.slide == start.slide,
                self.slicer@.complete_pairs(new_watermark) == start.complete_pairs(new_watermark),
            decreases
                (if new_watermark >= self.slicer@.next_pair_end {
                    new_watermark - self.slicer@.next_pair_end + 1
                } else {
                    0
                }),
        {
            self.complete_pair();
        }
        let ghost sliced = self.slicer@;
        while new_watermark >= self.slicer.next_window_end() && self.slicer.next_window_end()
            < u64::MAX
            invariant
                WindowWheel::wf(self),
                self.slicer@.slide == start.slide,
                self.slicer@.complete_windows(new_watermark) == sliced.complete_windows(
                    new_watermark,
                ),
            decreases
                (if new_watermark >= self.slicer@.next_window_end {
                    new_watermark - self.slicer@.next_window_end + 1
                } else {
                    0
                }),
        {
            self.complete_window();
        }
        self.slicer.advance_wheel_to(new_watermark);
    }

    fn insert(&mut self, entry: Entry<A::Input>) -> (result: Result<(), Error<A::Input>>) {
        self.slicer.insert(entry)
    }

    fn wheel(&self) -> (wheel: &RwWheel<A>) {
        self.slicer.wheel()
    }

    fn results(&self) -> (results: &[A::PartialAggregate]) {
        self.slicer.results()
    }
}

/// The window after a pair was pushed: where the window was full, its
/// oldest pair is taken out; the new pair is combined in.
pub proof fn lemma_window_pushed<A: InverseExt>(
    pairs: Seq<A::PartialAggregate>,
    pair: A::PartialAggregate,
    capacity: nat,
    per_window: nat,
)
    requires
        1 <= per_window <= capacity,
        pairs.len() <= capacity,
    ensures
        fold_partials::<A>(last_n(pushed(pairs, pair, capacity), per_window)) == A::combine_spec(
            if pairs.len() >= per_window {
                A::inverse_combine_spec(
                    fold_partials::<A>(last_n(pairs, per_window)),
                    pairs[pairs.len() - per_window],
                )
            } else {
                fold_partials::<A>(last_n(pairs, per_window))
            },
            pair,
        ),
{
    let window = last_n(pairs, per_window);
    let after = last_n(pushed(pairs, pair, capacity), per_window);
    if pairs.len() >= per_window {
        assert(after =~= window.drop_first().push(pair));
        assert(after.drop_last() =~= window.drop_first());
        lemma_fold_partials_first::<A>(window);
        A::inverse_cancels(fold_partials::<A>(window.drop_first()), window[0]);
    } else {
        assert(after =~= window.push(pair));
        assert(after.drop_last() =~= window);
    }
}

/// The window after the oldest pair was taken off: where the window held
/// all the pairs, that pair is taken out of it; else the window stays.
pub proof fn lemma_window_popped<A: InverseExt>(pairs: Seq<A::PartialAggregate>, per_window: nat)
    requires
        pairs.len() >= 1,
    ensures
        fold_partials::<A>(last_n(popped(pairs), per_window)) == if pairs.len() <= per_window {
            A::inverse_combine_spec(fold_partials::<A>(last_n(pairs, per_window)), pairs[0])
        } else {
            fold_partials::<A>(last_n(pairs, per_window))
        },
{
    if pairs.len() <= per_window {
        assert(last_n(pairs, per_window) =~= pairs);
        assert(last_n(popped(pairs), per_window) =~= pairs.drop_first());
        lemma_fold_partials_first::<A>(pairs);
        A::inverse_cancels(fold_partials::<A>(pairs.drop_first()), pairs[0]);
    } else {
        assert(last_n(popped(pairs), per_window) =~= last_n(pairs, per_window));
    }
}

} // verus!
