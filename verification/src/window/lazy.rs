//! The lazy window wheel: a window is combined from its pairs when it ends.
use crate::aggregator::Aggregator;
use crate::duration::Duration;
use crate::entry::{Entry, Error};
use crate::wheel::RwWheel;
use crate::window::slicer::Slicer;
use crate::window::{can_slice, is_sliceable, WindowView, WindowWheel};
use vstd::prelude::*;

verus! {

/// What a window wheel is built from: range and slide in milliseconds, and
/// the time at which it starts.
#[derive(Copy, Clone)]
pub struct Builder {
    range: usize,
    slide: usize,
    time: u64,
}

impl Default for Builder {
    fn default() -> (builder: Self)
        ensures
            builder.range() == 0,
            builder.slide() == 0,
            builder.time() == 0,
    {
        Builder { range: 0, slide: 0, time: 0 }
    }
}

impl Builder {
    /// Length of a window, in milliseconds.
    pub closed spec fn range(self) -> usize {
        self.range
    }

    /// Distance between the starts of two windows, in milliseconds.
    pub closed spec fn slide(self) -> usize {
        self.slide
    }

    /// The time at which the wheel starts, in milliseconds.
    pub closed spec fn time(self) -> u64 {
        self.time
    }

    /// A window wheel can be built.
    pub open spec fn is_valid(self) -> bool {
        can_slice(self.range(), self.slide())
    }

    /// Tells whether a window wheel can be built.
    pub fn can_build(&self) -> (b: bool)
        ensures
            b == self.is_valid(),
    {
        is_sliceable(self.range, self.slide)
    }

    /// The same builder, starting at `watermark`.
    pub fn with_watermark(self, watermark: u64) -> (builder: Self)
        ensures
            builder.time() == watermark,
            builder.range() == self.range(),
            builder.slide() == self.slide(),
    {
        Builder { time: watermark, ..self }
    }

    /// The same builder, with windows as long as the whole milliseconds of `range`.
    pub fn with_range(self, range: Duration) -> (builder: Self)
        requires
            range.secs() * 1000 + range.subsec_nanos() / 1_000_000 <= usize::MAX,
        ensures
            builder.range() == range.secs() * 1000 + range.subsec_nanos() / 1_000_000,
            builder.time() == self.time(),
            builder.slide() == self.slide(),
    {
        Builder { range: range.whole_milliseconds() as usize, ..self }
    }

    /// The same builder, with windows that move by the whole milliseconds of `slide`.
    pub fn with_slide(self, slide: Duration) -> (builder: Self)
        requires
            slide.secs() * 1000 + slide.subsec_nanos() / 1_000_000 <= usize::MAX,
        ensures
            builder.slide() == slide.secs() * 1000 + slide.subsec_nanos() / 1_000_000,
            builder.time() == self.time(),
            builder.range() == self.range(),
    {
        Builder { slide: slide.whole_milliseconds() as usize, ..self }
    }

    /// The lazy window wheel that was asked for.
    pub fn build<A: Aggregator>(self) -> (wheel: LazyWindowWheel<A>)
        requires
            self.is_valid(),
        ensures
            WindowWheel::wf(&wheel),
            wheel.window_view() == WindowView::<A>::start(self.time(), self.range(), self.slide()),
    {
        LazyWindowWheel::new(self.time, self.range, self.slide)
    }
}

/// A window wheel that keeps the partial aggregates of pairs and combines
/// those of a window when the window ends.
pub struct LazyWindowWheel<A: Aggregator> {
    slicer: Slicer<A>,
}

impl<A: Aggregator> LazyWindowWheel<A> {
    /// A window wheel at `time` for windows of `range` that move by `slide`, both in milliseconds.
    pub fn new(time: u64, range: usize, slide: usize) -> (wheel: Self)
        requires
            can_slice(range, slide),
        ensures
            WindowWheel::wf(&wheel),
            wheel.window_view() == WindowView::<A>::start(time, range, slide),
    {
        LazyWindowWheel { slicer: Slicer::new(time, range, slide) }
    }
}

impl<A: Aggregator> WindowWheel<A> for LazyWindowWheel<A> {
    closed spec fn window_view(&self) -> WindowView<A> {
        self.slicer@
    }

    closed spec fn wf(&self) -> bool {
        self.slicer.wf()
    }

    fn advance_to(&mut self, new_watermark: u64) {
        let ghost start = self.slicer@;
        proof {
            self.slicer.lemma_wf();
        }
        while new_watermark >= self.slicer.next_pair_end() && self.slicer.next_pair_end()
            < u64::MAX
            invariant
                self.slicer.wf(),
                self.slicer@.slide == start.slide,
                self.slicer@.complete_pairs(new_watermark) == start.complete_pairs(new_watermark),
            decreases
                (if new_watermark >= self.slicer@.next_pair_end {
                    new_watermark - self.slicer@.next_pair_end + 1
                } else {
                    0
                }),
        {
            let _ = self.slicer.complete_pair();
        }
        let ghost sliced = self.slicer@;
        while new_watermark >= self.slicer.next_window_end() && self.slicer.next_window_end()
            < u64::MAX
            invariant
                self.slicer.wf(),
                self.slicer@.slide == start.slide,
                self.slicer@.complete_windows(new_watermark) == sliced.complete_windows(
                    new_watermark,
                ),
            decreases
                (if new_watermark >= self.slicer@.next_window_end {
                    new_watermark - self.slicer@.next_window_end + 1
                } else {
                    0
                }),
        {
            let window = self.slicer.compute_window();
            self.slicer.complete_window(window);
        }
        self.slicer.advance_wheel_to(new_watermark);
    }

    fn insert(&mut self, entry: Entry<A::Input>) -> (result: Result<(), Error<A::Input>>) {
        self.slicer.insert(entry)
    }

    fn wheel(&self) -> (wheel: &RwWheel<A>) {
        self.slicer.wheel()
    }

    fn results(&self) -> (results: &[A::PartialAggregate]) {
        self.slicer.results()
    }
}

} // verus!
