use uwheel::aggregation::DrillCut;
use uwheel::aggregator::{U32SumAggregator, U64SumAggregator};
use uwheel::{Duration, Entry, RwWheel, DAYS, HOURS, MINUTES, SECONDS, WEEKS, YEARS};

#[test]
fn interval_test() {
    let mut time = 0;
    let mut wheel = RwWheel::<U32SumAggregator>::new(time);
    wheel.advance(Duration::seconds(1));

    assert!(wheel.write().insert(Entry::new(1u32, 1000)).is_ok());
    assert!(wheel.write().insert(Entry::new(5u32, 5000)).is_ok());
    assert!(wheel.write().insert(Entry::new(11u32, 11000)).is_ok());

    wheel.advance(Duration::seconds(5));
    assert_eq!(wheel.write().watermark(), 6000);

    let expected: Vec<Option<u32>> = vec![None, Some(1u32), None, None, None, Some(5)];
    assert_eq!(wheel.read().seconds_unchecked().iter(), expected);

    assert_eq!(wheel.read().seconds_unchecked().interval(5), Some(6u32));
    assert_eq!(wheel.read().seconds_unchecked().interval(1), Some(5u32));

    time = 12000;
    wheel.advance_to(time);

    assert!(wheel.write().insert(Entry::new(100u32, 61000)).is_ok());
    assert!(wheel.write().insert(Entry::new(100u32, 63000)).is_ok());
    assert!(wheel.write().insert(Entry::new(100u32, 67000)).is_ok());

    // go pass seconds wheel
    time = 65000;
    wheel.advance_to(time);
    assert_eq!(wheel.watermark(), 65000);
}

#[test]
fn mixed_timestamp_insertions_test() {
    let mut time = 1000;
    let mut wheel = RwWheel::<U32SumAggregator>::new(time);
    wheel.advance_to(time);

    assert!(wheel.write().insert(Entry::new(1u32, 1000)).is_ok());
    assert!(wheel.write().insert(Entry::new(5u32, 5000)).is_ok());
    assert!(wheel.write().insert(Entry::new(11u32, 11000)).is_ok());

    time = 6000; // new watermark
    wheel.advance_to(time);

    assert_eq!(wheel.read().seconds_unchecked().total(), Some(6u32));
    // check we get the same result by combining the range of last 6 seconds
    assert_eq!(
        wheel.read().seconds_unchecked().combine_and_lower_range(0, 5),
        Some(6u32)
    );
}

#[test]
fn write_ahead_test() {
    let mut time = 0;
    let mut wheel = RwWheel::<U32SumAggregator>::new(time);

    time += 58000; // 58 seconds
    wheel.advance_to(time);
    assert_eq!(wheel.write().write_ahead_len(), 64);

    // current watermark is 58000, this should be rejected
    assert!(wheel
        .write()
        .insert(Entry::new(11u32, 11000))
        .unwrap_err()
        .is_late());

    // current watermark is 58000, with max_write_ahead_ts 122000.
    // should overflow
    assert!(wheel
        .write()
        .insert(Entry::new(11u32, 158000))
        .unwrap_err()
        .is_overflow());
}

#[test]
fn full_cycle_test() {
    let mut wheel = RwWheel::<U32SumAggregator>::new(0);

    let ticks = wheel.read().remaining_ticks() - 1;
    wheel.advance(Duration::seconds(ticks));

    // one tick away from full cycle clear
    assert_eq!(wheel.read().seconds_unchecked().rotation_count(), SECONDS - 1);
    assert_eq!(wheel.read().minutes_unchecked().rotation_count(), MINUTES - 1);
    assert_eq!(wheel.read().hours_unchecked().rotation_count(), HOURS - 1);
    assert_eq!(wheel.read().days_unchecked().rotation_count(), DAYS - 1);
    assert_eq!(wheel.read().weeks_unchecked().rotation_count(), WEEKS - 1);
    assert_eq!(wheel.read().years_unchecked().rotation_count(), YEARS - 1);

    // force full cycle clear
    wheel.advance(Duration::seconds(1));

    // rotation count of all wheels should be zero
    assert_eq!(wheel.read().seconds_unchecked().rotation_count(), 0,);
    assert_eq!(wheel.read().minutes_unchecked().rotation_count(), 0,);
    assert_eq!(wheel.read().hours_unchecked().rotation_count(), 0,);
    assert_eq!(wheel.read().days_unchecked().rotation_count(), 0,);
    assert_eq!(wheel.read().weeks_unchecked().rotation_count(), 0,);
    assert_eq!(wheel.read().years_unchecked().rotation_count(), 0,);

    // Verify len of all wheels
    assert_eq!(wheel.read().seconds_unchecked().len(), SECONDS);
    assert_eq!(wheel.read().minutes_unchecked().len(), MINUTES);
    assert_eq!(wheel.read().hours_unchecked().len(), HOURS);
    assert_eq!(wheel.read().days_unchecked().len(), DAYS);
    assert_eq!(wheel.read().weeks_unchecked().len(), WEEKS);
    assert_eq!(wheel.read().years_unchecked().len(), YEARS);

    assert!(wheel.read().is_full());
    assert!(!wheel.read().is_empty());
    assert!(wheel.read().landmark().is_none());
}

#[test]
fn drill_down_test() {
    let mut time = 0;
    let mut wheel = RwWheel::<U64SumAggregator>::with_drill_down(time);

    let days_as_secs = Duration::days((DAYS + 1) as u64).whole_seconds();

    for _ in 0..days_as_secs {
        let entry = Entry::new(1u64, time);
        wheel.write().insert(entry).unwrap();
        time += 1000; // increase by 1 second
        wheel.advance_to(time);
    }

    // can't drill down on seconds wheel as it is the first wheel
    assert!(wheel.read().seconds_unchecked().drill_down(1).is_none());

    // Drill down on each wheel (e.g., minute, hours, days) and confirm summed results

    assert_eq!(
        wheel
            .read()
            .minutes_unchecked()
            .drill_down(1)
            .unwrap()
            .iter()
            .sum::<u64>(),
        60u64
    );

    assert_eq!(
        wheel
            .read()
            .hours_unchecked()
            .drill_down(1)
            .unwrap()
            .iter()
            .sum::<u64>(),
        60u64 * 60
    );

    assert_eq!(
        wheel
            .read()
            .days_unchecked()
            .drill_down(1)
            .unwrap()
            .iter()
            .sum::<u64>(),
        60u64 * 60 * 24
    );

    // drill down range of 3 and confirm combined aggregates
    let decoded = wheel.read().minutes_unchecked().combine_drill_down_range(0, 3);
    assert_eq!(decoded[0], 3);
    assert_eq!(decoded[1], 3);
    assert_eq!(decoded[59], 3);

    // test cut of last 5 seconds of last 1 minute + first 10 aggregates of last 2 min
    let decoded = wheel
        .read()
        .minutes_unchecked()
        .drill_down_cut(
            DrillCut {
                slot: 1,
                start: 55,
                end: None,
            },
            DrillCut {
                slot: 2,
                start: 0,
                end: Some(10),
            },
        )
        .unwrap();
    assert_eq!(decoded.len(), 15);
    let sum = decoded.iter().sum::<u64>();
    assert_eq!(sum, 15u64);

    // drill down whole of minutes wheel
    let minutes = wheel.read().minutes_unchecked();
    let decoded = minutes.combine_drill_down_range(0, minutes.len());
    let sum = decoded.iter().sum::<u64>();
    assert_eq!(sum, 3600u64);
}

#[test]
fn drill_down_holes_test() {
    let mut time = 0;
    let mut wheel = RwWheel::<U32SumAggregator>::with_drill_down(time);

    for _ in 0..30 {
        let entry = Entry::new(1u32, time);
        wheel.write().insert(entry).unwrap();
        time += 2000; // increase by 2 seconds
        wheel.advance_to(time);
    }

    wheel.advance_to(time);

    // confirm there are "holes" as we bump time by 2 seconds above
    let decoded = wheel
        .read()
        .minutes_unchecked()
        .drill_down(1)
        .unwrap()
        .to_vec();
    assert_eq!(decoded[0], 1);
    assert_eq!(decoded[1], 0);
    assert_eq!(decoded[2], 1);
    assert_eq!(decoded[3], 0);

    assert_eq!(decoded[58], 1);
    assert_eq!(decoded[59], 0);
}

#[test]
fn merge_test() {
    let time = 0;
    let mut wheel = RwWheel::<U32SumAggregator>::new(time);

    let entry = Entry::new(1u32, 5000);
    wheel.write().insert(entry).unwrap();

    wheel.advance(Duration::days(7));

    let fresh_wheel_time = 0;
    let mut fresh_wheel = RwWheel::<U32SumAggregator>::new(fresh_wheel_time);
    fresh_wheel.merge(&mut wheel);

    assert_eq!(fresh_wheel.read().watermark(), wheel.read().watermark());
    assert_eq!(fresh_wheel.read().landmark(), wheel.read().landmark());
    assert_eq!(
        fresh_wheel.read().remaining_ticks(),
        wheel.read().remaining_ticks()
    );
}

#[test]
fn merge_drill_down_test() {
    let mut time = 0;
    let mut wheel = RwWheel::<U32SumAggregator>::with_drill_down(time);

    for _ in 0..30 {
        let entry = Entry::new(1u32, time);
        wheel.write().insert(entry).unwrap();
        time += 2000; // increase by 2 seconds
        wheel.advance_to(time);
    }

    wheel.advance_to(time);

    let mut time = 0;
    let mut other_wheel = RwWheel::<U32SumAggregator>::with_drill_down(time);

    for _ in 0..30 {
        let entry = Entry::new(1u32, time);
        other_wheel.write().insert(entry).unwrap();
        time += 2000; // increase by 2 seconds
        other_wheel.advance_to(time);
    }

    other_wheel.advance_to(time);

    // merge other_wheel into ´wheel´
    wheel.merge(&mut other_wheel);

    // same as drill_down_holes test but confirm that drill down slots have be merged between wheels
    let decoded = wheel
        .read()
        .minutes_unchecked()
        .drill_down(1)
        .unwrap()
        .to_vec();
    assert_eq!(decoded[0], 2);
    assert_eq!(decoded[1], 0);
    assert_eq!(decoded[2], 2);
    assert_eq!(decoded[3], 0);

    assert_eq!(decoded[58], 2);
    assert_eq!(decoded[59], 0);
}

#[test]
fn serde_test() {
    let time = 1000;
    let wheel: RwWheel<U32SumAggregator> = RwWheel::new(time);
    assert_eq!(wheel.watermark(), time);
    assert!(wheel.read().is_empty());
}
