//! The part that both window wheels share: the wheel that takes the
//! entries, the pairs, and the schedule of pair ends and window ends.
use crate::aggregator::Aggregator;
use crate::duration::Duration;
use crate::entry::{Entry, Error};
use crate::wheel::RwWheel;
use crate::window::pairs::PairsWheel;
use crate::window::util::{create_pair_type, pairs_capacity, pairs_space, pairs_per_window, PairType};
use crate::window::{can_slice, WindowView};
use vstd::prelude::*;

verus! {

/// Cuts a stream into the pairs of a window and keeps the pairs of the
/// windows in the making.
pub struct Slicer<A: Aggregator> {
    range: usize,
    slide: usize,
    current_pair_len: usize,
    pair_type: PairType,
    pairs_wheel: PairsWheel<A>,
    wheel: RwWheel<A>,
    next_window_end: u64,
    next_pair_end: u64,
    in_p1: bool,
    window_results: Vec<A::PartialAggregate>,
}

impl<A: Aggregator> View for Slicer<A> {
    type V = WindowView<A>;

    closed spec fn view(&self) -> WindowView<A> {
        WindowView {
            range: self.range,
            slide: self.slide,
            current_pair_len: self.current_pair_len,
            in_p1: self.in_p1,
            next_pair_end: self.next_pair_end,
            next_window_end: self.next_window_end,
            capacity: self.pairs_wheel.capacity_spec(),
            pairs: self.pairs_wheel@,
            wheel: self.wheel@,
            results: self.window_results@,
        }
    }
}

impl<A: Aggregator> Slicer<A> {
    /// The wheel and the pairs are well-formed, and so is the view.
    pub closed spec fn wf(&self) -> bool {
        &&& self.wheel.wf()
        &&& self.pairs_wheel.wf()
        &&& self.pair_type == self@.pair_type()
        &&& self@.wf()
    }

    /// A well-formed slicer has a well-formed view.
    pub proof fn lemma_wf(&self)
        requires
            self.wf(),
        ensures
            self@.wf(),
    {
    }

    /// A slicer at `time` for windows of `range` that move by `slide`, both in milliseconds.
    pub fn new(time: u64, range: usize, slide: usize) -> (slicer: Self)
        requires
            can_slice(range, slide),
        ensures
            slicer.wf(),
            slicer@ == WindowView::<A>::start(time, range, slide),
    {
        let pair_type = create_pair_type(range, slide);
        let (current_pair_len, in_p1) = match pair_type {
            PairType::Even(slide) => (slide, false),
            PairType::Uneven(p1, _) => (p1, true),
        };
        let next_pair_end = time.saturating_add(current_pair_len as u64);
        let slicer = Slicer {
            range,
            slide,
            current_pair_len,
            pair_type,
            pairs_wheel: PairsWheel::with_capacity(pairs_capacity(range, slide)),
            wheel: RwWheel::new(time),
            next_window_end: time.saturating_add(range as u64),
            next_pair_end,
            in_p1,
            window_results: Vec::new(),
        };
        slicer
    }

    /// Number of pairs that are combined into one window.
    pub fn pairs_per_window(&self) -> (n: usize)
        requires
            self.wf(),
        ensures
            n == pairs_per_window(self@.range, self@.slide),
    {
        pairs_space(self.range, self.slide)
    }

    /// Number of pairs that are kept.
    pub fn pairs_len(&self) -> (n: usize)
        ensures
            n == self@.pairs.len(),
    {
        self.pairs_wheel.len()
    }

    /// The pair `index` places after the oldest that is kept.
    pub fn pair(&self, index: usize) -> (pair: A::PartialAggregate)
        requires
            self.wf(),
            index < self@.pairs.len(),
        ensures
            pair == self@.pairs[index as int],
    {
        self.pairs_wheel.get(index)
    }

    /// Where the pair in the making ends.
    pub fn next_pair_end(&self) -> (end: u64)
        ensures
            end == self@.next_pair_end,
    {
        self.next_pair_end
    }

    /// Where the next window ends.
    pub fn next_window_end(&self) -> (end: u64)
        ensures
            end == self@.next_window_end,
    {
        self.next_window_end
    }

    /// Tells whether the pairs are of two lengths.
    pub fn is_uneven(&self) -> (b: bool)
        requires
            self.wf(),
        ensures
            b == (self@.pair_type() is Uneven),
    {
        self.pair_type.is_uneven()
    }

    /// The length of the pair in the making.
    fn current_pair_duration(&self) -> (d: Duration)
        ensures
            d.secs() == self@.current_pair_len / 1000,
    {
        Duration::milliseconds(self.current_pair_len as u64)
    }

    /// Makes the following pair the one in the making.
    fn update_pair_len(&mut self)
        requires
            old(self).wf(),
        ensures
            final(self)@ == (WindowView {
                current_pair_len: old(self)@.following_pair_len(),
                in_p1: old(self)@.pair_type() is Uneven && !old(self)@.in_p1,
                ..old(self)@
            }),
            final(self).wf(),
    {
        if let PairType::Uneven(p1, p2) = self.pair_type {
            if self.in_p1 {
                self.current_pair_len = p2;
                self.in_p1 = false;
            } else {
                self.current_pair_len = p1;
                self.in_p1 = true;
            }
        }
    }

    /// Combines as many of the newest pairs as a window has.
    pub fn compute_window(&self) -> (window: A::PartialAggregate)
        requires
            self.wf(),
        ensures
            window == self@.window(),
    {
        let pair_slots = pairs_space(self.range, self.slide);
        match self.pairs_wheel.interval(pair_slots) {
            Some(window) => window,
            None => A::identity(),
        }
    }

    /// Completes the pair in the making: the wheel is advanced to its end,
    /// the interval of its length joins the pairs, and the following pair is
    /// in the making. The partial aggregate of the pair is returned.
    pub fn complete_pair(&mut self) -> (partial: A::PartialAggregate)
        requires
            old(self).wf(),
        ensures
            final(self).wf(),
            final(self)@ == old(self)@.complete_pair(),
            partial == old(self)@.pair_partial(),
            old(self)@.next_pair_end < u64::MAX
                ==> final(self)@.next_pair_end > old(self)@.next_pair_end,
    {
        self.wheel.advance_to(self.next_pair_end);
        let partial = match self.wheel.interval(self.current_pair_duration()) {
            Some(partial) => partial,
            None => A::identity(),
        };
        self.update_pair_len();
        self.next_pair_end = self.next_pair_end.saturating_add(self.current_pair_len as u64);
        self.pairs_wheel.push(partial);
        proof {
            self.pairs_wheel.lemma_wf();
        }
        partial
    }

    /// Completes the next window, which is `window`: the wheel is advanced
    /// to its end, the window joins the results, and the pairs of the oldest
    /// slide are given up.
    pub fn complete_window(&mut self, window: A::PartialAggregate)
        requires
            old(self).wf(),
            window == old(self)@.window(),
        ensures
            final(self).wf(),
            final(self)@ == old(self)@.complete_window(),
            old(self)@.next_window_end < u64::MAX
                ==> final(self)@.next_window_end > old(self)@.next_window_end,
    {
        self.wheel.advance_to(self.next_window_end);
        let _ = self.pairs_wheel.tick();
        if self.pair_type.is_uneven() {
            let _ = self.pairs_wheel.tick();
        }
        self.window_results.push(window);
        self.next_window_end = self.next_window_end.saturating_add(self.slide as u64);
        proof {
            self.pairs_wheel.lemma_wf();
        }
    }

    /// Moves the wheel that takes the entries on to `watermark`.
    pub fn advance_wheel_to(&mut self, watermark: u64)
        requires
            old(self).wf(),
        ensures
            final(self).wf(),
            final(self)@ == (WindowView {
                wheel: old(self)@.wheel.advance_to(watermark),
                ..old(self)@
            }),
    {
        self.wheel.advance_to(watermark);
    }

    /// Inserts an entry into the wheel that takes the entries. A late entry,
    /// or one beyond the write-ahead horizon, is handed back.
    pub fn insert(&mut self, entry: Entry<A::Input>) -> (result: Result<(), Error<A::Input>>)
        requires
            old(self).wf(),
        ensures
            final(self).wf(),
            result == old(self)@.wheel.waw.insert_result(entry),
            final(self)@ == old(self)@.after_insert(entry),
    {
        self.wheel.insert(entry)
    }

    /// The wheel that takes the entries.
    pub fn wheel(&self) -> (wheel: &RwWheel<A>)
        requires
            self.wf(),
        ensures
            wheel.wf(),
            wheel@ == self@.wheel,
    {
        &self.wheel
    }

    /// The windows that were completed, oldest first.
    pub fn results(&self) -> (results: &[A::PartialAggregate])
        ensures
            results@ == self@.results,
    {
        self.window_results.as_slice()
    }
}

} // verus!
