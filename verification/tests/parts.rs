use uwheel::aggregation::{AggregationWheel, WheelParts};
use uwheel::aggregator::U32SumAggregator;
use uwheel::hierarchical::Haw;
use uwheel::maybe::MaybeWheel;
use uwheel::write::{WriteAheadParts, WriteAheadWheel};
use uwheel::{Duration, Entry, RwWheel};

fn busy_wheel() -> RwWheel<U32SumAggregator> {
    let mut wheel = RwWheel::<U32SumAggregator>::with_drill_down(0);
    for second in 0..4000u64 {
        wheel.insert(Entry::new((second % 5) as u32, second * 1000)).unwrap();
        wheel.advance_to((second + 1) * 1000);
    }
    wheel.insert(Entry::new(77, 4_010_000)).unwrap();
    wheel
}

#[test]
fn a_wheel_is_restored_from_its_parts() {
    let wheel = busy_wheel();
    let parts = wheel.read().to_parts();
    assert!(parts.is_valid());
    assert_eq!(parts.watermark, 4_000_000);
    assert!(parts.seconds.wheel.is_some());
    assert!(parts.hours.wheel.is_some());
    assert!(parts.days.wheel.is_none());
    let restored = Haw::<U32SumAggregator>::from_parts(&parts).unwrap();
    assert_eq!(restored.watermark(), wheel.read().watermark());
    assert_eq!(restored.landmark(), wheel.read().landmark());
    assert_eq!(restored.len(), wheel.read().len());
    assert_eq!(restored.remaining_ticks(), wheel.read().remaining_ticks());
    assert_eq!(
        restored.seconds_unchecked().iter(),
        wheel.read().seconds_unchecked().iter()
    );
    assert_eq!(
        restored.minutes_unchecked().drill_down(3),
        wheel.read().minutes_unchecked().drill_down(3)
    );
    assert_eq!(
        restored.interval(Duration::minutes(6)),
        wheel.read().interval(Duration::minutes(6))
    );
    assert!(restored.days().is_none());

    // restored and kept wheel go on alike
    let (write, read) = wheel.into_parts();
    let pending = write.into_parts();
    assert_eq!(pending.watermark, 4_000_000);
    assert_eq!(pending.pending.len(), 64);
    assert_eq!(pending.pending[10], Some(77));
    let write = WriteAheadWheel::<U32SumAggregator>::from_parts(pending).unwrap();
    let copy = WriteAheadWheel::<U32SumAggregator>::from_parts(WriteAheadParts {
        watermark: 4_000_000,
        pending: (0..64).map(|i| if i == 10 { Some(77) } else { None }).collect(),
    })
    .unwrap();
    let mut kept = RwWheel::from_parts(write, read).unwrap();
    let mut again = RwWheel::from_parts(copy, restored).unwrap();
    kept.advance(Duration::hours(30));
    again.advance(Duration::hours(30));
    assert_eq!(kept.landmark(), again.landmark());
    assert_eq!(kept.read().to_parts().is_valid(), true);
    assert_eq!(
        kept.read().days_unchecked().drill_down(1),
        again.read().days_unchecked().drill_down(1)
    );
    assert_eq!(kept.read().hours_unchecked().iter(), again.read().hours_unchecked().iter());
}

#[test]
fn wheels_at_different_watermarks_do_not_couple() {
    let write = WriteAheadWheel::<U32SumAggregator>::with_watermark(1000);
    let read = Haw::<U32SumAggregator>::new(2000);
    assert!(RwWheel::from_parts(write, read).is_none());
}

fn parts(capacity: usize, slots: Vec<Option<u32>>, rotation_count: usize) -> WheelParts<U32SumAggregator> {
    let drills = slots.iter().map(|_| None).collect();
    WheelParts {
        capacity,
        drill_down: false,
        slots,
        head: None,
        total: Some(9),
        rotation_count,
        drills,
        head_drill: None,
    }
}

#[test]
fn parts_that_do_not_fit_together_make_no_wheel() {
    let good = parts(3, vec![Some(4), None, Some(5)], 2);
    assert!(good.is_valid());
    let wheel = AggregationWheel::from_parts(&good).unwrap();
    assert_eq!(wheel.iter(), vec![Some(4), None, Some(5)]);
    assert_eq!(wheel.total(), Some(9));
    assert_eq!(wheel.rotation_count(), 2);
    assert_eq!(wheel.interval(1), Some(5));
    let back = wheel.to_parts();
    assert_eq!(back.slots, good.slots);
    assert_eq!(back.total, good.total);
    assert_eq!(back.rotation_count, 2);
    assert_eq!(back.capacity, 3);

    // more slots than the capacity
    assert!(AggregationWheel::from_parts(&parts(2, vec![Some(4), None, Some(5)], 1)).is_none());
    // a rotation count that the capacity does not allow
    assert!(AggregationWheel::from_parts(&parts(3, vec![Some(4)], 3)).is_none());
    // no capacity
    assert!(AggregationWheel::from_parts(&parts(0, vec![], 0)).is_none());
    // drill-down data in a wheel that keeps none
    let mut with_drill = parts(3, vec![Some(4)], 1);
    with_drill.drills = vec![Some(vec![4])];
    assert!(!with_drill.is_valid());
    assert!(AggregationWheel::from_parts(&with_drill).is_none());
    with_drill.drill_down = true;
    assert!(with_drill.is_valid());
    let wheel = AggregationWheel::from_parts(&with_drill).unwrap();
    assert_eq!(wheel.drill_down(1), Some(&vec![4]));
    // as many drill-down vectors as slots
    with_drill.drills = vec![];
    assert!(!with_drill.is_valid());

    // a wheel of the wrong capacity is no seconds wheel
    let mut haw = Haw::<U32SumAggregator>::new(0).to_parts();
    assert!(haw.is_valid());
    haw.seconds.capacity = 61;
    assert!(!haw.is_valid());
    assert!(Haw::<U32SumAggregator>::from_parts(&haw).is_none());
    haw.seconds.capacity = 60;
    haw.minutes.wheel = Some(parts(3, vec![], 0));
    assert!(Haw::<U32SumAggregator>::from_parts(&haw).is_none());

    // a write-ahead wheel holds a power of two of seconds
    let wheel = WriteAheadWheel::<U32SumAggregator>::from_parts(WriteAheadParts {
        watermark: 0,
        pending: vec![None, Some(3)],
    })
    .unwrap();
    assert_eq!(wheel.write_ahead_len(), 2);
    assert_eq!(wheel.at(1), Some(&3));
    assert!(WriteAheadWheel::<U32SumAggregator>::from_parts(WriteAheadParts {
        watermark: 0,
        pending: vec![None, Some(3), None],
    })
    .is_none());
    assert!(WriteAheadWheel::<U32SumAggregator>::from_parts(WriteAheadParts {
        watermark: 0,
        pending: vec![],
    })
    .is_none());
}

#[test]
fn a_wheel_is_allocated_when_it_is_first_written_to() {
    let mut wheel = MaybeWheel::<U32SumAggregator>::with_capacity(4);
    assert!(wheel.as_deref().is_none());
    assert_eq!(wheel.len(), 0);
    assert_eq!(wheel.rotation_count(), 0);
    assert_eq!(wheel.capacity(), 4);
    assert_eq!(wheel.total(), None);
    assert_eq!(wheel.interval(2), None);
    assert_eq!(wheel.interval_or_total(0), None);
    wheel.clear();
    assert!(wheel.as_deref().is_none());
    wheel.insert_head(5);
    assert!(wheel.as_deref().is_some());
    assert_eq!(wheel.total(), Some(5));
    assert!(wheel.tick().is_none());
    assert_eq!(wheel.interval(1), Some(5));
    wheel.get_or_insert().insert_head(6);
    assert_eq!(wheel.total(), Some(11));
    let mut other = MaybeWheel::<U32SumAggregator>::with_capacity(4);
    other.merge(&wheel);
    assert_eq!(other.total(), Some(11));
    assert_eq!(other.len(), 0);
    let empty = MaybeWheel::<U32SumAggregator>::with_capacity_and_drill_down(4);
    wheel.merge(&empty);
    assert_eq!(wheel.total(), Some(11));
    assert_eq!(wheel.interval(1), Some(5));
    wheel.clear();
    assert!(wheel.as_deref().is_some());
    assert_eq!(wheel.total(), None);
    assert_eq!(wheel.len(), 0);
    wheel.fast_skip_tick();
    assert_eq!(wheel.rotation_count(), 3);
    assert!(wheel.tick().is_some());
}

#[test]
fn a_snapshot_stays_as_it_was_taken() {
    let mut wheel = busy_wheel();
    let snapshot = wheel.read().snapshot();
    let landmark = wheel.landmark();
    wheel.advance(Duration::seconds(20));
    assert_eq!(wheel.landmark().map(|sum| sum - 77), landmark);
    assert_eq!(snapshot.landmark(), landmark);
    assert_eq!(snapshot.watermark(), 4_000_000);
    assert_eq!(snapshot.interval(Duration::seconds(1)), Some(4));
    assert_eq!(wheel.read().interval(Duration::seconds(10)), Some(77));
}
