//! How a window of a range and a slide is cut into pairs.
use crate::ring::{capacity_to_slots, is_slot_count, round_up, MAX_SLOTS};
use vstd::prelude::*;

verus! {

/// The pairs that the slides of a window are cut into: slices of the stream
/// whose ends are exactly where a window starts or ends.
#[derive(Debug, Clone, Copy)]
pub enum PairType {
    /// The slide divides the range: every pair is one slide long.
    Even(usize),
    /// Each slide is cut into a pair as long as the remainder of the range
    /// by the slide, and a pair that makes up the rest of the slide.
    Uneven(usize, usize),
}

impl PairType {
    /// Tells whether the pairs are of two lengths.
    pub fn is_uneven(&self) -> (b: bool)
        ensures
            b == (*self is Uneven),
    {
        match self {
            PairType::Even(_) => false,
            PairType::Uneven(_, _) => true,
        }
    }
}

/// The pairs of a window of `range` that moves by `slide`.
pub open spec fn pair_type_of(range: usize, slide: usize) -> PairType {
    if range % slide == 0 {
        PairType::Even(slide)
    } else {
        PairType::Uneven((range % slide) as usize, (slide - range % slide) as usize)
    }
}

/// Number of pairs that are combined into one window.
pub open spec fn pairs_per_window(range: usize, slide: usize) -> nat {
    if range % slide == 0 {
        (range / slide) as nat
    } else {
        (2 * range / (slide as int)) as nat
    }
}

/// A window that is no shorter than its slide is made of one pair at least.
pub proof fn lemma_pairs_per_window_positive(range: usize, slide: usize)
    requires
        0 < slide <= range,
    ensures
        pairs_per_window(range, slide) >= 1,
{
    assert(range / slide >= 1) by (nonlinear_arith)
        requires
            0 < slide <= range,
    ;
    assert((2 * range) / (slide as int) >= 1) by (nonlinear_arith)
        requires
            0 < slide <= range,
    ;
}

/// The pairs of a window of `range` that moves by `slide`.
pub fn create_pair_type(range: usize, slide: usize) -> (pair_type: PairType)
    requires
        slide > 0,
    ensures
        pair_type == pair_type_of(range, slide),
{
    let p1 = range % slide;
    if p1 == 0 {
        PairType::Even(slide)
    } else {
        let p2 = slide - p1;
        PairType::Uneven(p1, p2)
    }
}

/// Number of pairs that are combined into one window.
pub fn pairs_space(range: usize, slide: usize) -> (space: usize)
    requires
        slide > 0,
        2 * range <= usize::MAX,
    ensures
        space == pairs_per_window(range, slide),
        space <= 2 * range,
{
    proof {
        vstd::arithmetic::div_mod::lemma_div_is_ordered_by_denominator(range as int, 1, slide as int);
        vstd::arithmetic::div_mod::lemma_div_is_ordered_by_denominator(
            2 * range,
            1,
            slide as int,
        );
    }
    match create_pair_type(range, slide) {
        PairType::Even(_) => range / slide,
        PairType::Uneven(_, _) => 2 * range / slide,
    }
}

/// Number of slots of the ring that holds the pairs of one window.
pub fn pairs_capacity(range: usize, slide: usize) -> (capacity: usize)
    requires
        slide > 0,
        2 * range <= usize::MAX,
        pairs_per_window(range, slide) <= MAX_SLOTS,
    ensures
        capacity == round_up(pairs_per_window(range, slide)),
        is_slot_count(capacity as int),
        capacity >= pairs_per_window(range, slide),
{
    let space = pairs_space(range, slide);
    capacity_to_slots(space)
}

/// Number of seconds that it takes to complete `windows` windows of
/// `range` seconds that move by `slide` seconds.
pub fn number_of_seconds(windows: u64, range: u64, slide: u64) -> (seconds: u64)
    requires
        windows >= 1,
        (windows - 1) * slide + range <= u64::MAX,
    ensures
        seconds == (windows - 1) * slide + range,
{
    proof {
        assert((windows - 1) * slide <= (windows - 1) * slide + range) by (nonlinear_arith)
            requires
                range >= 0,
        ;
    }
    (windows - 1) * slide + range
}

} // verus!
