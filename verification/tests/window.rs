use uwheel::aggregator::{U32SumAggregator, U64SumAggregator};
use uwheel::window::eager::EagerWindowWheel;
use uwheel::window::lazy::{Builder, LazyWindowWheel};
use uwheel::window::pairs::{Iter, PairsWheel};
use uwheel::window::util::{
    create_pair_type, number_of_seconds, pairs_capacity, pairs_space, PairType,
};
use uwheel::window::{is_pair_len_supported, is_sliceable, WindowWheel};
use uwheel::{Duration, Entry};

fn feed_lazy(range_ms: usize, slide_ms: usize, seconds: u64) -> Vec<u64> {
    assert!(is_sliceable(range_ms, slide_ms));
    let mut wheel = LazyWindowWheel::<U64SumAggregator>::new(0, range_ms, slide_ms);
    let mut time = 0u64;
    for _ in 0..seconds {
        wheel.insert(Entry::new(1u64, time)).unwrap();
        time += 1000;
        wheel.advance_to(time);
    }
    wheel.results().to_vec()
}

fn feed_eager(range_ms: usize, slide_ms: usize, seconds: u64) -> Vec<u64> {
    assert!(is_sliceable(range_ms, slide_ms));
    let mut wheel = EagerWindowWheel::<U64SumAggregator>::new(0, range_ms, slide_ms);
    let mut time = 0u64;
    for _ in 0..seconds {
        wheel.insert(Entry::new(1u64, time)).unwrap();
        time += 1000;
        wheel.advance_to(time);
    }
    wheel.results().to_vec()
}

#[test]
fn lazy_window_even_pairs() {
    let results = feed_lazy(30_000, 10_000, 100);
    assert_eq!(results.len(), 8);
    assert_eq!(results[0], 30);
    assert_eq!(results, vec![30u64; 8]);
}

#[test]
fn eager_window_even_pairs() {
    let results = feed_eager(30_000, 10_000, 100);
    assert_eq!(results.len(), 8);
    assert_eq!(results, vec![30u64; 8]);
}

#[test]
fn lazy_and_eager_agree_on_even_pairs() {
    assert_eq!(feed_lazy(30_000, 10_000, 400), feed_eager(30_000, 10_000, 400));
    assert_eq!(feed_lazy(40_000, 10_000, 400), feed_eager(40_000, 10_000, 400));
    assert_eq!(feed_lazy(20_000, 20_000, 400), feed_eager(20_000, 20_000, 400));
}

#[test]
fn lazy_and_eager_agree_on_uneven_pairs() {
    assert_eq!(feed_lazy(25_000, 10_000, 400), feed_eager(25_000, 10_000, 400));
    assert_eq!(feed_lazy(27_000, 10_000, 400), feed_eager(27_000, 10_000, 400));
    assert_eq!(feed_lazy(23_000, 10_000, 400), feed_eager(23_000, 10_000, 400));
    assert_eq!(feed_lazy(63_000, 10_000, 400), feed_eager(63_000, 10_000, 400));
}

#[test]
fn lazy_window_uneven_pairs() {
    // range 25 s, slide 10 s: pairs of 5 s and 5 s, five of them to a window
    let results = feed_lazy(25_000, 10_000, 100);
    assert_eq!(results.len(), 8);
    assert_eq!(results, vec![25u64; 8]);
}

#[test]
fn lazy_and_eager_agree_on_coarse_advances() {
    let mut lazy = LazyWindowWheel::<U64SumAggregator>::new(0, 30_000, 10_000);
    let mut eager = EagerWindowWheel::<U64SumAggregator>::new(0, 30_000, 10_000);
    let mut time = 0u64;
    for step in 0..40u64 {
        for ahead in 0..7u64 {
            lazy.insert(Entry::new(ahead + 1, time + ahead * 1000)).unwrap();
            eager.insert(Entry::new(ahead + 1, time + ahead * 1000)).unwrap();
        }
        time += 7000 + (step % 3) * 11_000;
        lazy.advance_to(time);
        eager.advance_to(time);
        assert_eq!(lazy.results(), eager.results());
        assert_eq!(lazy.wheel().watermark(), eager.wheel().watermark());
    }
    assert!(!lazy.results().is_empty());
}

#[test]
fn window_insert_hands_back_what_it_turns_down() {
    let mut wheel = LazyWindowWheel::<U32SumAggregator>::new(10_000, 30_000, 10_000);
    assert!(wheel.insert(Entry::new(1, 9_999)).unwrap_err().is_late());
    assert!(wheel.insert(Entry::new(1, 10_000 + 64_000)).unwrap_err().is_overflow());
    assert!(wheel.insert(Entry::new(1, 10_000 + 63_999)).is_ok());
    assert_eq!(wheel.wheel().watermark(), 10_000);
    assert!(wheel.results().is_empty());
}

#[test]
fn window_advance_to_an_earlier_time_changes_nothing() {
    let mut wheel = EagerWindowWheel::<U32SumAggregator>::new(50_000, 30_000, 10_000);
    wheel.advance_to(10_000);
    assert_eq!(wheel.wheel().watermark(), 50_000);
    assert!(wheel.results().is_empty());
}

#[test]
fn builder_builds_what_was_asked_for() {
    let builder = Builder::default()
        .with_watermark(5_000)
        .with_range(Duration::seconds(30))
        .with_slide(Duration::seconds(10));
    assert!(builder.can_build());
    let mut wheel: LazyWindowWheel<U64SumAggregator> = builder.build();
    assert_eq!(wheel.wheel().watermark(), 5_000);
    let mut time = 5_000u64;
    for _ in 0..30 {
        wheel.insert(Entry::new(2u64, time)).unwrap();
        time += 1000;
        wheel.advance_to(time);
    }
    assert_eq!(wheel.results().to_vec(), vec![60u64]);

    let eager = uwheel::window::eager::Builder::default()
        .with_range(Duration::seconds(30))
        .with_slide(Duration::seconds(10));
    assert!(eager.can_build());
    let wheel: EagerWindowWheel<U64SumAggregator> = eager.build();
    assert_eq!(wheel.window(), 0);
}

#[test]
fn builder_knows_what_cannot_be_built() {
    // no slide
    assert!(!Builder::default().with_range(Duration::seconds(30)).can_build());
    // a range shorter than the slide
    assert!(!Builder::default()
        .with_range(Duration::seconds(5))
        .with_slide(Duration::seconds(10))
        .can_build());
    // pairs shorter than a second
    assert!(!Builder::default()
        .with_range(Duration::milliseconds(1500))
        .with_slide(Duration::milliseconds(1000))
        .can_build());
    // a start so late that no window ends before the last timestamp
    let late = Builder::default()
        .with_watermark(u64::MAX - 10)
        .with_range(Duration::seconds(30))
        .with_slide(Duration::seconds(10));
    assert!(late.can_build());
    let mut wheel: LazyWindowWheel<U64SumAggregator> = late.build();
    wheel.insert(Entry::new(1u64, u64::MAX - 5)).unwrap();
    wheel.advance_to(u64::MAX);
    assert!(wheel.results().is_empty());
    assert_eq!(wheel.wheel().watermark(), u64::MAX - 10);
    let mut eager = EagerWindowWheel::<U64SumAggregator>::new(u64::MAX - 45_000, 30_000, 10_000);
    let mut lazy = LazyWindowWheel::<U64SumAggregator>::new(u64::MAX - 45_000, 30_000, 10_000);
    eager.insert(Entry::new(7u64, u64::MAX - 20_000)).unwrap();
    lazy.insert(Entry::new(7u64, u64::MAX - 20_000)).unwrap();
    eager.advance_to(u64::MAX);
    lazy.advance_to(u64::MAX);
    // the windows that end 15 s and 5 s before the last timestamp
    assert_eq!(eager.results().to_vec(), vec![7u64, 7]);
    assert_eq!(lazy.results(), eager.results());
    assert!(!is_sliceable(30_000, 0));
    assert!(is_sliceable(30_000, 10_000));
    assert!(is_pair_len_supported(10_000));
    assert!(!is_pair_len_supported(999));
    // one day and one second is no combination that a wheel can be asked for
    assert!(!is_pair_len_supported(86_401_000));
}

#[test]
fn pair_types() {
    assert!(matches!(create_pair_type(30, 10), PairType::Even(10)));
    assert!(matches!(create_pair_type(25, 10), PairType::Uneven(5, 5)));
    assert!(matches!(create_pair_type(27, 10), PairType::Uneven(7, 3)));
    assert!(matches!(create_pair_type(10, 10), PairType::Even(10)));
    assert!(create_pair_type(27, 10).is_uneven());
    assert!(!create_pair_type(30, 10).is_uneven());
}

#[test]
fn pairs_per_window_and_capacity() {
    assert_eq!(pairs_space(30, 10), 3);
    assert_eq!(pairs_space(10, 10), 1);
    assert_eq!(pairs_space(25, 10), 5);
    assert_eq!(pairs_space(27, 10), 5);
    assert_eq!(pairs_space(23, 10), 4);
    assert_eq!(pairs_capacity(30, 10), 4);
    assert_eq!(pairs_capacity(40, 10), 4);
    assert_eq!(pairs_capacity(25, 10), 8);
    assert_eq!(pairs_capacity(10, 10), 1);
}

#[test]
fn seconds_needed_for_windows() {
    assert_eq!(number_of_seconds(1000, 30, 10), 10_020);
    assert_eq!(number_of_seconds(1, 30, 10), 30);
    assert_eq!(number_of_seconds(8, 30, 10), 100);
}

#[test]
fn pairs_wheel_keeps_the_newest_pairs() {
    let mut pairs = PairsWheel::<U32SumAggregator>::with_capacity(4);
    assert!(pairs.is_empty());
    assert_eq!(pairs.tick(), None);
    assert_eq!(pairs.interval(3), Some(0));
    for pair in 1..=4u32 {
        pairs.push(pair);
    }
    assert_eq!(pairs.len(), 4);
    assert_eq!(pairs.capacity(), 4);
    assert_eq!(pairs.interval(4), Some(10));
    assert_eq!(pairs.interval(2), Some(7));
    assert_eq!(pairs.interval(9), Some(10));
    assert_eq!(pairs.interval(0), Some(0));
    // a full ring gives up its oldest pair
    pairs.push(5);
    assert_eq!(pairs.len(), 4);
    assert_eq!(pairs.get(0), 2);
    assert_eq!(pairs.get(3), 5);
    assert_eq!(pairs.interval(4), Some(14));
    assert_eq!(pairs.tick(), Some(2));
    assert_eq!(pairs.tick(), Some(3));
    assert_eq!(pairs.len(), 2);
    assert!(!pairs.is_empty());
    assert_eq!(pairs.interval(4), Some(9));
}

#[test]
fn iter_walks_round_the_ring() {
    let ring: Vec<Option<u32>> = vec![Some(0), None, Some(2), Some(3)];
    let mut iter = Iter::<U32SumAggregator>::new(&ring, 2, 1);
    assert_eq!(iter.size_hint(), (3, Some(3)));
    assert_eq!(iter.next(), Some(&Some(2)));
    assert_eq!(iter.next(), Some(&Some(3)));
    assert_eq!(iter.size_hint(), (1, Some(1)));
    assert_eq!(iter.next(), Some(&Some(0)));
    assert_eq!(iter.next(), None);
    assert_eq!(iter.next(), None);
    assert_eq!(iter.size_hint(), (0, Some(0)));
}
