use uwheel::aggregation::AggregationWheel;
use uwheel::aggregator::{Aggregator, InverseExt, U32SumAggregator, U64SumAggregator};
use uwheel::hierarchical::{
    Haw, Options, TimeParts, CYCLE_LENGTH_SECS, TOTAL_SECS_IN_WHEEL, TOTAL_WHEEL_SLOTS,
};
use uwheel::ring::{
    capacity_to_slots, count, is_power_of_two, next_power_of_two, wrap_add, wrap_index, wrap_sub,
};
use uwheel::write::{WriteAheadWheel, DEFAULT_WRITE_AHEAD_SLOTS};
use uwheel::{Duration, Entry, Error, RwWheel, SECONDS};

#[test]
fn single_window_scenario() {
    let mut wheel = RwWheel::<U32SumAggregator>::new(0);
    wheel.insert(Entry::new(1u32, 1000)).unwrap();
    wheel.insert(Entry::new(5u32, 5000)).unwrap();
    wheel.insert(Entry::new(11u32, 11000)).unwrap();
    wheel.advance_to(6000);
    let seconds = wheel.read().seconds_unchecked();
    assert_eq!(seconds.total(), Some(6));
    assert_eq!(seconds.interval(5), Some(6));
    assert_eq!(seconds.interval(1), Some(5));
}

#[test]
fn an_entry_is_counted_once_in_the_landmark() {
    for offset in [0u64, 1, 999, 1000, 30_500, 59_000, 63_999] {
        let mut with_entry = RwWheel::<U64SumAggregator>::new(7000);
        let mut without = RwWheel::<U64SumAggregator>::new(7000);
        for wheel in [&mut with_entry, &mut without] {
            wheel.insert(Entry::new(3u64, 7500)).unwrap();
            wheel.advance_to(47_000);
            wheel.insert(Entry::new(4u64, 47_000 + offset)).unwrap();
        }
        let entry = Entry::new(100u64, 47_000 + offset);
        with_entry.insert(entry).unwrap();
        with_entry.advance_to(47_000 + offset + 1000);
        without.advance_to(47_000 + offset + 1000);
        assert_eq!(without.landmark(), Some(7));
        assert_eq!(with_entry.landmark(), Some(107));
    }
}

#[test]
fn the_landmark_of_merged_wheels_combines_their_landmarks() {
    let mut a = RwWheel::<U32SumAggregator>::new(0);
    let mut b = RwWheel::<U32SumAggregator>::new(0);
    for second in 0..200u64 {
        if second % 3 == 0 {
            a.insert(Entry::new(2u32, second * 1000)).unwrap();
        } else {
            b.insert(Entry::new(5u32, second * 1000)).unwrap();
        }
        a.advance_to((second + 1) * 1000);
        b.advance_to((second + 1) * 1000);
    }
    let landmark_a = a.landmark();
    let landmark_b = b.landmark();
    assert_eq!(landmark_a, Some(67 * 2));
    assert_eq!(landmark_b, Some(133 * 5));
    a.merge(&mut b);
    assert_eq!(a.landmark(), Some(67 * 2 + 133 * 5));
    assert_eq!(b.landmark(), landmark_b);
    assert_eq!(a.watermark(), 200_000);
}

#[test]
fn merge_moves_the_older_wheel_to_the_watermark_of_the_newer() {
    let mut old = Haw::<U32SumAggregator>::new(0);
    let mut new = Haw::<U32SumAggregator>::new(0);
    let mut waw = WriteAheadWheel::<U32SumAggregator>::with_watermark(0);
    waw.insert(Entry::new(9u32, 2000)).unwrap();
    new.advance(Duration::seconds(90), &mut waw);
    assert_eq!(new.watermark(), 90_000);
    old.merge(&mut new);
    assert_eq!(old.watermark(), 90_000);
    assert_eq!(new.watermark(), 90_000);
    assert_eq!(old.landmark(), Some(9));
    assert_eq!(old.minutes_unchecked().interval(1), Some(9));
    assert_eq!(old.seconds_unchecked().rotation_count(), 30);

    // the other way round the wheel that is merged in is moved
    let mut ahead = Haw::<U32SumAggregator>::new(120_000);
    ahead.merge(&mut old);
    assert_eq!(old.watermark(), 120_000);
    assert_eq!(ahead.watermark(), 120_000);
    assert_eq!(ahead.landmark(), Some(9));
}

#[test]
fn an_interval_is_the_fold_of_the_seconds_it_spans() {
    let mut wheel = RwWheel::<U64SumAggregator>::new(0);
    // second i holds 2^(i mod 40), so that each sum tells which seconds are in it
    let mut time = 0u64;
    let mut record: Vec<u64> = Vec::new();
    for second in 0..7500u64 {
        let data = 1u64 << (second % 40);
        wheel.insert(Entry::new(data, time + 400)).unwrap();
        wheel.insert(Entry::new(data, time + 900)).unwrap();
        record.push(2 * data);
        time += 1000;
        wheel.advance_to(time);
    }
    let fold = |secs: usize| -> u64 { record[record.len() - secs..].iter().sum() };
    // 7500 s = 2 h 5 min 0 s: rotation counts are 0 s, 5 min, 2 h
    assert_eq!(wheel.read().seconds_unchecked().rotation_count(), 0);
    assert_eq!(wheel.read().minutes_unchecked().rotation_count(), 5);
    assert_eq!(wheel.read().hours_unchecked().rotation_count(), 2);
    // seconds only
    assert_eq!(wheel.interval(Duration::seconds(1)), Some(fold(1)));
    assert_eq!(wheel.interval(Duration::seconds(37)), Some(fold(37)));
    assert_eq!(wheel.interval(Duration::seconds(59)), Some(fold(59)));
    // minutes only
    assert_eq!(wheel.interval(Duration::minutes(1)), Some(fold(60)));
    assert_eq!(wheel.interval(Duration::minutes(5)), Some(fold(300)));
    assert_eq!(wheel.interval(Duration::minutes(45)), Some(fold(2700)));
    // hours and the minutes since the last full hour
    assert_eq!(wheel.interval(Duration::seconds(3600 + 300)), Some(fold(3900)));
    assert_eq!(wheel.interval(Duration::seconds(7200 + 300)), Some(fold(7500)));
    assert_eq!(wheel.landmark(), Some(fold(7500)));
    assert_eq!(wheel.read().interval_and_lower(Duration::minutes(2)), Some(fold(120)));
    assert_eq!(wheel.read().landmark_and_lower(), Some(fold(7500)));

    // 13 s later the seconds wheel has gathered 13 s
    for second in 7500..7513u64 {
        let data = 1u64 << (second % 40);
        wheel.insert(Entry::new(2 * data, time)).unwrap();
        record.push(2 * data);
        time += 1000;
        wheel.advance_to(time);
    }
    let fold = |secs: usize| -> u64 { record[record.len() - secs..].iter().sum() };
    assert_eq!(wheel.interval(Duration::seconds(60 + 13)), Some(fold(73)));
    assert_eq!(wheel.interval(Duration::seconds(5 * 60 + 13)), Some(fold(313)));
    assert_eq!(wheel.interval(Duration::seconds(2 * 3600 + 5 * 60 + 13)), Some(fold(7513)));
    assert_eq!(wheel.interval(Duration::seconds(3600 + 5 * 60 + 13)), Some(fold(3600 + 313)));
}

#[test]
fn an_interval_query_knows_its_components() {
    let parts = TimeParts::from_duration(Duration::seconds(2 * 3600 + 5 * 60 + 13));
    assert_eq!(parts.second, Some(13));
    assert_eq!(parts.minute, Some(5));
    assert_eq!(parts.hour, Some(2));
    assert_eq!(parts.day, None);
    assert_eq!(parts.week, None);
    assert_eq!(parts.year, None);
    assert!(parts.supported());
    let parts = TimeParts::from_duration(Duration::weeks(53));
    assert_eq!(parts.week, Some(1));
    assert_eq!(parts.year, Some(1));
    assert!(parts.supported());
    // a day and a second, with nothing in between
    assert!(!TimeParts::from_duration(Duration::seconds(86_401)).supported());
    // nothing at all
    assert!(!TimeParts::from_duration(Duration::milliseconds(999)).supported());
    // minutes and days
    assert!(!TimeParts::from_duration(Duration::seconds(86_400 + 60)).supported());
}

#[test]
fn combine_time_asks_the_wheels_it_is_told_to() {
    let mut haw = Haw::<U32SumAggregator>::new(0);
    let mut waw = WriteAheadWheel::<U32SumAggregator>::with_watermark(0);
    for second in 0..3700u64 {
        waw.insert(Entry::new(1u32, second * 1000)).unwrap();
        haw.advance_to((second + 1) * 1000, &mut waw);
    }
    // 1 h 1 min 40 s
    assert_eq!(haw.combine_time(Some(40), None, None, None, None, None), Some(40));
    assert_eq!(haw.combine_time(Some(10), None, None, None, None, None), Some(10));
    assert_eq!(haw.combine_time(None, Some(1), None, None, None, None), Some(60));
    assert_eq!(haw.combine_time(Some(40), Some(1), None, None, None, None), Some(100));
    // more seconds than the seconds wheel has gathered since its rotation count for no more
    assert_eq!(haw.combine_time(Some(50), Some(1), None, None, None, None), Some(100));
    assert_eq!(haw.combine_time(None, None, Some(1), None, None, None), Some(3600));
    assert_eq!(haw.combine_time(Some(40), None, Some(1), None, None, None), Some(3640));
    assert_eq!(haw.combine_time(Some(40), Some(1), Some(1), None, None, None), Some(3700));
    assert_eq!(haw.combine_time(None, Some(1), Some(1), None, None, None), Some(3660));
    assert_eq!(haw.combine_time(None, None, None, Some(1), None, None), None);
    assert_eq!(haw.landmark(), Some(3700));
}

#[test]
fn the_overflow_boundary_is_sharp() {
    let watermark = 58_000u64;
    let mut wheel = WriteAheadWheel::<U32SumAggregator>::with_watermark(watermark);
    let len = wheel.write_ahead_len() as u64;
    assert_eq!(len, 64);
    assert!(wheel.insert(Entry::new(1, watermark + len * 1000 - 1)).is_ok());
    match wheel.insert(Entry::new(2, watermark + len * 1000)) {
        Err(Error::Overflow {
            entry,
            max_write_ahead_ts,
        }) => {
            assert_eq!(entry.data, 2);
            assert_eq!(entry.timestamp, watermark + len * 1000);
            assert_eq!(max_write_ahead_ts, 122_000);
        }
        _ => panic!("an entry at the horizon is beyond it"),
    }
    assert!(wheel
        .insert(Entry::new(3, watermark + len * 1000 + 1))
        .unwrap_err()
        .is_overflow());
    assert!(wheel.insert(Entry::new(3, u64::MAX)).unwrap_err().is_overflow());
    assert_eq!(wheel.at(63), Some(&1));
    assert_eq!(wheel.at(62), None);
    assert_eq!(wheel.at(64), None);
}

#[test]
fn the_late_boundary_is_sharp() {
    let watermark = 58_000u64;
    let mut wheel = WriteAheadWheel::<U32SumAggregator>::with_watermark(watermark);
    match wheel.insert(Entry::new(7, watermark - 1)) {
        Err(Error::Late { entry, watermark }) => {
            assert_eq!(entry.data, 7);
            assert_eq!(entry.timestamp, 57_999);
            assert_eq!(watermark, 58_000);
        }
        _ => panic!("an entry below the watermark is late"),
    }
    assert!(wheel.insert(Entry::new(7, watermark)).is_ok());
    assert!(wheel.insert(Entry::new(8, watermark + 999)).is_ok());
    assert_eq!(wheel.at(0), Some(&15));
    let error = wheel.insert(Entry::new(9, 0)).unwrap_err();
    assert!(error.is_late());
    assert!(!error.is_overflow());
    assert_eq!(error.entry().data, 9);
}

#[test]
fn a_long_advance_clears_the_wheels() {
    let mut wheel = RwWheel::<U32SumAggregator>::new(0);
    for second in 0..4000u64 {
        wheel.insert(Entry::new(1u32, second * 1000)).unwrap();
        wheel.advance_to((second + 1) * 1000);
    }
    assert_eq!(wheel.landmark(), Some(4000));
    assert_eq!(wheel.read().len(), 60 + 60 + 1);
    wheel.advance(Duration::seconds(CYCLE_LENGTH_SECS + 1));
    let read = wheel.read();
    for rotation_count in [
        read.seconds_unchecked().rotation_count(),
        read.minutes_unchecked().rotation_count(),
        read.hours_unchecked().rotation_count(),
    ] {
        assert_eq!(rotation_count, 0);
    }
    assert_eq!(read.seconds_unchecked().len(), 0);
    assert_eq!(read.minutes_unchecked().len(), 0);
    assert_eq!(read.hours_unchecked().len(), 0);
    assert!(read.days().is_none());
    assert!(read.weeks().is_none());
    assert!(read.years().is_none());
    assert_eq!(read.len(), 0);
    assert!(read.is_empty());
    assert_eq!(read.landmark(), None);
    assert_eq!(read.remaining_ticks(), TOTAL_SECS_IN_WHEEL);
    // the watermark stays where it was
    assert_eq!(wheel.watermark(), 4_000_000);
}

#[test]
fn the_longest_advance_that_is_ticked() {
    let mut wheel = RwWheel::<U32SumAggregator>::new(0);
    wheel.insert(Entry::new(1u32, 0)).unwrap();
    wheel.advance(Duration::seconds(CYCLE_LENGTH_SECS));
    assert_eq!(wheel.watermark(), CYCLE_LENGTH_SECS * 1000);
    assert_eq!(wheel.read().len(), TOTAL_WHEEL_SLOTS);
    assert!(wheel.read().is_full());
    // 60 s + 60 min + 24 h + 7 d + 52 w + 10 y
    assert_eq!(
        CYCLE_LENGTH_SECS,
        60 + 3600 + 86_400 + 604_800 + 31_449_600 + 314_496_000
    );
    // one year into the second cycle
    assert_eq!(wheel.read().years_unchecked().rotation_count(), 1);
    assert_eq!(wheel.read().current_time_in_cycle().whole_weeks(), 53);
    assert_eq!(
        wheel.read().current_time_in_cycle().whole_seconds(),
        CYCLE_LENGTH_SECS - TOTAL_SECS_IN_WHEEL
    );
    assert_eq!(wheel.landmark(), None);
}

#[test]
fn skipped_minutes_keep_what_is_pending() {
    // an entry 63 s ahead is still pending when the advance starts to skip minutes
    let mut wheel = RwWheel::<U32SumAggregator>::new(0);
    wheel.advance_to(59_000);
    wheel.insert(Entry::new(5u32, 59_000 + 63_000)).unwrap();
    wheel.advance(Duration::seconds(64));
    assert_eq!(wheel.watermark(), 123_000);
    assert_eq!(wheel.landmark(), Some(5));
    assert_eq!(wheel.read().seconds_unchecked().interval(1), Some(5));
    wheel.advance(Duration::hours(3));
    assert_eq!(wheel.landmark(), Some(5));
    assert_eq!(wheel.read().hours_unchecked().interval(2), None);
    assert_eq!(wheel.read().hours_unchecked().interval(3), Some(5));
    wheel.advance(Duration::seconds(3600 - 123));
    assert_eq!(wheel.read().hours_unchecked().interval(3), None);
    assert_eq!(wheel.read().hours_unchecked().interval(4), Some(5));
}

#[test]
fn drill_down_data_folds_to_its_slots() {
    let mut wheel = RwWheel::<U64SumAggregator>::with_drill_down(0);
    let mut time = 0u64;
    for second in 0..3 * 3600u64 {
        wheel.insert(Entry::new(second % 7, time)).unwrap();
        time += 1000;
        wheel.advance_to(time);
    }
    let minutes = wheel.read().minutes_unchecked();
    assert!(minutes.has_drill_down());
    let len = minutes.len();
    assert_eq!(len, 60);
    for slot in 1..=len {
        let drill: u64 = minutes.drill_down(slot).unwrap().iter().sum();
        assert_eq!(Some(drill), minutes.combine_range(len - slot, len - slot + 1));
    }
    let newest: u64 = minutes.combine_drill_down_range(len - 1, len).iter().sum();
    assert_eq!(Some(newest), minutes.interval(1));
    assert_eq!(
        minutes.interval(1).map(U64SumAggregator::lower),
        Some(newest)
    );
    let all: u64 = minutes.combine_drill_down_range(0, len).iter().sum();
    assert_eq!(Some(all), minutes.interval(len));
    assert_eq!(minutes.combine_drill_down_range(0, len).len(), 60);
    assert!(minutes.combine_drill_down_range(3, 3).is_empty());
    let hours = wheel.read().hours_unchecked();
    let hour: u64 = hours.drill_down(1).unwrap().iter().sum();
    assert_eq!(Some(hour), hours.interval(1));
    assert_eq!(hours.drill_down(1).unwrap().len(), 60);
    assert!(hours.drill_down(0).is_none());
    assert!(hours.drill_down(4).is_none());
    // a wheel without drill-down data has none to cut
    let plain = AggregationWheel::<U64SumAggregator>::with_capacity(60);
    assert!(!plain.has_drill_down());
    assert!(plain.drill_down(1).is_none());
    assert!(plain.combine_drill_down_range(0, 0).is_empty());
}

#[test]
fn aggregation_wheel_rotates_every_capacity_ticks() {
    let mut wheel = AggregationWheel::<U32SumAggregator>::with_capacity(3);
    assert!(wheel.is_empty());
    assert_eq!(wheel.capacity(), 3);
    assert_eq!(wheel.ticks_remaining(), 3);
    wheel.insert_head(4);
    wheel.insert_head(6);
    assert_eq!(wheel.total(), Some(10));
    assert_eq!(wheel.interval(1), None);
    assert!(wheel.tick().is_none());
    assert_eq!(wheel.interval(1), Some(10));
    assert_eq!(wheel.ticks_remaining(), 2);
    assert!(wheel.tick().is_none());
    wheel.insert_head(1);
    let rotation = wheel.tick().unwrap();
    assert_eq!(rotation.total, Some(11));
    assert!(rotation.drill_down_slots.is_none());
    assert_eq!(wheel.total(), None);
    assert_eq!(wheel.rotation_count(), 0);
    assert!(wheel.is_full());
    assert_eq!(wheel.iter(), vec![Some(10), None, Some(1)]);
    assert_eq!(wheel.interval(3), Some(11));
    assert_eq!(wheel.interval(2), Some(1));
    assert_eq!(wheel.interval(4), None);
    // with nothing gathered since the rotation, the total is asked and has nothing
    assert_eq!(wheel.interval_or_total(2), None);
    wheel.insert_head(7);
    assert!(wheel.tick().is_none());
    assert_eq!(wheel.iter(), vec![None, Some(1), Some(7)]);
    assert_eq!(wheel.interval_or_total(0), None);
    assert_eq!(wheel.interval_or_total(1), Some(7));
    assert_eq!(wheel.interval_or_total(3), Some(7));
    assert_eq!(wheel.combine_range(0, 2), Some(1));
    assert_eq!(wheel.combine_range(1, 3), Some(8));
    wheel.clear();
    assert!(wheel.is_empty());
    assert_eq!(wheel.total(), None);
    assert_eq!(wheel.rotation_count(), 0);
}

#[test]
fn aggregation_wheel_hands_up_its_slots_with_drill_down() {
    let mut wheel = AggregationWheel::<U32SumAggregator>::with_capacity_and_drill_down(4);
    wheel.insert_head(3);
    assert!(wheel.tick().is_none());
    assert!(wheel.tick().is_none());
    wheel.insert_head(9);
    assert!(wheel.tick().is_none());
    let rotation = wheel.tick().unwrap();
    assert_eq!(rotation.total, Some(12));
    assert_eq!(rotation.drill_down_slots, Some(vec![3, 0, 9, 0]));
    let mut upper = AggregationWheel::<U32SumAggregator>::with_capacity_and_drill_down(2);
    upper.insert_rotation_data(rotation);
    assert!(upper.tick().is_none());
    assert_eq!(upper.interval(1), Some(12));
    assert_eq!(upper.drill_down(1), Some(&vec![3, 0, 9, 0]));
}

#[test]
fn skipping_ticks_is_ticking() {
    let mut skipped = AggregationWheel::<U32SumAggregator>::with_capacity(5);
    let mut ticked = AggregationWheel::<U32SumAggregator>::with_capacity(5);
    for wheel in [&mut skipped, &mut ticked] {
        for data in 0..5u32 {
            wheel.insert_head(data + 1);
            let _ = wheel.tick();
        }
        wheel.insert_head(40);
    }
    for _ in 0..3 {
        skipped.fast_skip_tick();
        for _ in 0..4 {
            assert!(ticked.tick().is_none());
        }
        assert_eq!(skipped.iter(), ticked.iter());
        assert_eq!(skipped.rotation_count(), 4);
        assert_eq!(skipped.total(), ticked.total());
        assert_eq!(skipped.tick().map(|r| r.total), ticked.tick().map(|r| r.total));
    }
    assert_eq!(skipped.iter(), vec![None; 5]);
}

#[test]
fn sums_wrap_round_and_can_be_undone() {
    assert_eq!(U32SumAggregator::combine(u32::MAX, 2), 1);
    assert_eq!(U32SumAggregator::combine(3, 4), 7);
    assert_eq!(U32SumAggregator::inverse_combine(1, 2), u32::MAX);
    assert_eq!(U32SumAggregator::inverse_combine(7, 4), 3);
    assert_eq!(U32SumAggregator::identity(), 0);
    assert_eq!(U64SumAggregator::combine(u64::MAX, u64::MAX), u64::MAX - 1);
    assert_eq!(U64SumAggregator::inverse_combine(0, 1), u64::MAX);
    let mut mutable = U64SumAggregator::lift(5);
    U64SumAggregator::combine_mutable(&mut mutable, 6);
    assert_eq!(U64SumAggregator::lower(U64SumAggregator::freeze(mutable)), 11);
    let mut mutable = U32SumAggregator::lift(u32::MAX);
    U32SumAggregator::combine_mutable(&mut mutable, 6);
    assert_eq!(U32SumAggregator::lower(U32SumAggregator::freeze(mutable)), 5);
}

#[test]
fn durations_count_whole_units() {
    let d = Duration::milliseconds(90_061_999);
    assert_eq!(d.whole_milliseconds(), 90_061_999);
    assert_eq!(d.whole_seconds(), 90_061);
    assert_eq!(d.whole_minutes(), 1501);
    assert_eq!(d.whole_hours(), 25);
    assert_eq!(d.whole_days(), 1);
    assert_eq!(d.whole_weeks(), 0);
    assert_eq!(Duration::weeks(2).whole_days(), 14);
    assert_eq!(Duration::days(8).whole_seconds(), 691_200);
    assert_eq!(Duration::hours(3).whole_minutes(), 180);
    assert_eq!(Duration::minutes(2).whole_milliseconds(), 120_000);
    assert_eq!(Duration::seconds(u64::MAX).whole_seconds(), u64::MAX);
    assert_eq!(Duration::seconds(1), Duration::milliseconds(1000));
}

#[test]
fn ring_indices_go_round() {
    assert_eq!(next_power_of_two(0), 1);
    assert_eq!(next_power_of_two(1), 1);
    assert_eq!(next_power_of_two(60), 64);
    assert_eq!(next_power_of_two(64), 64);
    assert_eq!(next_power_of_two(65), 128);
    assert_eq!(capacity_to_slots(24), 32);
    assert!(is_power_of_two(1));
    assert!(is_power_of_two(64));
    assert!(!is_power_of_two(0));
    assert!(!is_power_of_two(60));
    assert!(is_power_of_two(1 << 30));
    assert!(!is_power_of_two(1 << 31));
    assert_eq!(wrap_index(70, 64), 6);
    assert_eq!(wrap_index(63, 64), 63);
    assert_eq!(wrap_add(60, 10, 64), 6);
    assert_eq!(wrap_add(0, 64, 64), 0);
    assert_eq!(wrap_sub(3, 10, 64), 57);
    assert_eq!(wrap_sub(10, 3, 64), 7);
    assert_eq!(count(60, 4, 64), 8);
    assert_eq!(count(4, 60, 64), 56);
    assert_eq!(count(5, 5, 64), 0);
}

#[test]
fn write_ahead_wheel_hands_out_second_by_second() {
    // a capacity of 5 is rounded up to 8
    let mut wheel = WriteAheadWheel::<U32SumAggregator>::with_capacity_and_watermark(5, 1000);
    assert_eq!(wheel.capacity(), 8);
    assert_eq!(wheel.num_slots(), 8);
    assert_eq!(wheel.write_ahead_len(), 8);
    assert_eq!(wheel.len(), 0);
    assert!(wheel.is_drained());
    assert!(wheel.can_write_ahead(7));
    assert!(!wheel.can_write_ahead(8));
    wheel.insert(Entry::new(1, 2500)).unwrap();
    wheel.insert(Entry::new(2, 2999)).unwrap();
    wheel.insert(Entry::new(4, 5000)).unwrap();
    assert!(wheel.insert(Entry::new(8, 9000)).unwrap_err().is_overflow());
    assert!(!wheel.is_drained());
    assert_eq!(wheel.tick(), None);
    assert_eq!(wheel.watermark(), 2000);
    assert_eq!(wheel.at(0), Some(&3));
    assert_eq!(wheel.tick(), Some(3));
    assert_eq!(wheel.tick(), None);
    assert_eq!(wheel.at(0), None);
    assert_eq!(wheel.at(1), Some(&4));
    assert_eq!(wheel.tick(), None);
    assert_eq!(wheel.tick(), Some(4));
    assert!(wheel.is_drained());
    assert_eq!(wheel.watermark(), 6000);
    assert_eq!(wheel.head(), wheel.tail());
    let default = WriteAheadWheel::<U32SumAggregator>::default();
    assert_eq!(default.watermark(), 0);
    assert_eq!(default.write_ahead_len(), DEFAULT_WRITE_AHEAD_SLOTS);
    // the smallest wheel holds one second
    let mut least = WriteAheadWheel::<U32SumAggregator>::with_capacity_and_watermark(0, 0);
    assert_eq!(least.write_ahead_len(), 1);
    assert!(least.insert(Entry::new(1, 1000)).unwrap_err().is_overflow());
    assert!(least.insert(Entry::new(1, 999)).is_ok());
    assert_eq!(least.tick(), Some(1));
    assert_eq!(least.tick(), None);
}

#[test]
fn wheels_are_made_with_options() {
    let options = uwheel::wheel::Options::default()
        .with_drill_down()
        .with_write_ahead(128);
    let mut wheel = RwWheel::<U32SumAggregator>::with_options(9000, options);
    assert_eq!(wheel.watermark(), 9000);
    assert_eq!(wheel.write().write_ahead_len(), 128);
    assert!(wheel.insert(Entry::new(1, 9000 + 127_000)).is_ok());
    wheel.advance(Duration::seconds(60));
    assert!(wheel.read().seconds_unchecked().has_drill_down());
    assert!(wheel.read().minutes_unchecked().has_drill_down());
    let plain = RwWheel::<U32SumAggregator>::with_options(0, uwheel::wheel::Options::default());
    assert!(plain.read().seconds().is_none());
    let haw = Haw::<U32SumAggregator>::with_options(5, Options::default().with_drill_down());
    assert_eq!(haw.watermark(), 5);
    assert!(haw.is_empty());
    assert!(!haw.is_full());
    let haw = Haw::<U32SumAggregator>::with_drill_down(6);
    assert_eq!(haw.watermark(), 6);
    assert!(haw.minutes().is_none());
    let entry: Entry<u32> = (3u32, 4u64).into();
    let copy = entry;
    assert_eq!(entry.data, 3);
    assert_eq!(entry.timestamp, 4);
    assert_eq!(copy.clone().data, 3);
}

#[test]
fn coarse_intervals_reach_back_to_the_first_second() {
    let minute = 60u64;
    let hour = 60 * minute;
    let day = 24 * hour;
    let week = 7 * day;
    let year = 52 * week;
    let mut wheel = RwWheel::<U64SumAggregator>::new(0);
    wheel.insert(Entry::new(1u64, 0)).unwrap();
    wheel.advance(Duration::seconds(1));
    wheel.insert(Entry::new(10u64, 1000)).unwrap();
    // one hour
    wheel.advance(Duration::seconds(hour - 1));
    assert_eq!(wheel.interval(Duration::hours(1)), Some(11));
    // one day, one hour, one minute and one second
    wheel.advance(Duration::seconds(day + minute + 1));
    wheel.insert(Entry::new(100u64, wheel.watermark())).unwrap();
    assert_eq!(
        wheel.interval(Duration::seconds(day + hour + minute + 1)),
        Some(11)
    );
    assert_eq!(wheel.interval(Duration::seconds(minute + 1)), None);
    // all six wheels
    wheel.advance(Duration::seconds(year + week));
    let all = year + week + day + hour + minute + 1;
    assert_eq!(wheel.watermark(), all * 1000);
    assert_eq!(wheel.interval(Duration::seconds(all)), Some(111));
    assert_eq!(wheel.landmark(), Some(111));
    // five wheels: the first year is left out
    assert_eq!(
        wheel.interval(Duration::seconds(week + day + hour + minute + 1)),
        None
    );
    // years and weeks
    wheel.advance(Duration::seconds(week - (day + hour + minute + 1)));
    assert_eq!(wheel.read().current_time_in_cycle().whole_seconds(), year + 2 * week);
    assert_eq!(wheel.interval(Duration::seconds(year + 2 * week)), Some(111));
    // nothing came in the two weeks since the year was completed
    assert_eq!(wheel.interval(Duration::weeks(2)), None);
    assert_eq!(wheel.interval(Duration::weeks(52)), Some(111));
    assert_eq!(wheel.read().weeks_unchecked().rotation_count(), 2);
    assert_eq!(wheel.read().years_unchecked().interval(1), Some(111));
}

#[test]
fn the_write_ahead_capacity_is_rounded_up_to_a_power_of_two() {
    let mut wheel = WriteAheadWheel::<U32SumAggregator>::with_capacity_and_watermark(100, 7000);
    assert_eq!(wheel.watermark(), 7000);
    assert_eq!(wheel.write_ahead_len(), 128);
    assert_eq!(wheel.capacity(), 128);
    assert_eq!(wheel.num_slots(), 128);
    for offset in 0..128 {
        assert_eq!(wheel.at(offset), None);
    }
    assert!(wheel.insert(Entry::new(3, 7000 + 127_999)).is_ok());
    match wheel.insert(Entry::new(4, 7000 + 128_000)) {
        Err(Error::Overflow {
            max_write_ahead_ts, ..
        }) => assert_eq!(max_write_ahead_ts, 135_000),
        _ => panic!("an entry at the horizon is beyond it"),
    }
    assert_eq!(wheel.at(127), Some(&3));

    let options = uwheel::wheel::Options::default().with_write_ahead(100);
    let mut wheel = RwWheel::<U32SumAggregator>::with_options(7000, options);
    assert_eq!(wheel.write().write_ahead_len(), 128);
    assert!(wheel.insert(Entry::new(1, 7000 + 127_000)).is_ok());
    assert!(wheel.insert(Entry::new(1, 7000 + 128_000)).unwrap_err().is_overflow());
    let options = uwheel::wheel::Options::default().with_write_ahead(64);
    let mut wheel = RwWheel::<U32SumAggregator>::with_options(0, options);
    assert_eq!(wheel.write().write_ahead_len(), 64);
}

#[test]
fn the_minutes_wheel_is_there_once_a_minute_is_completed() {
    let mut wheel = RwWheel::<U32SumAggregator>::with_drill_down(0);
    for second in 0..59u64 {
        wheel.insert(Entry::new(second as u32, second * 1000)).unwrap();
    }
    wheel.advance(Duration::seconds(59));
    assert!(wheel.read().seconds().is_some());
    assert!(wheel.read().minutes().is_none());
    wheel.insert(Entry::new(59, 59_000)).unwrap();
    wheel.advance(Duration::seconds(1));
    let minutes = wheel.read().minutes().unwrap();
    assert!(wheel.read().hours().is_none());
    assert_eq!(minutes.len(), 1);
    // the range reaches beyond the one slot that is completed
    let drill = minutes.combine_drill_down_range(0, SECONDS);
    assert_eq!(drill.len(), 60);
    assert_eq!(drill, (0..60u32).collect::<Vec<u32>>());
    let sum: u32 = drill.iter().sum();
    assert_eq!(sum, 59 * 60 / 2);
    assert_eq!(minutes.interval(1), Some(sum));
    assert_eq!(minutes.combine_range(0, SECONDS), Some(sum));
    assert_eq!(minutes.combine_and_lower_range(0, 1), Some(sum));
    assert_eq!(minutes.combine_range(1, SECONDS), None);
    assert_eq!(minutes.combine_range(5, 2), None);
    assert!(minutes.combine_drill_down_range(1, SECONDS).is_empty());
    assert!(minutes.combine_drill_down_range(7, 3).is_empty());
    // an hour is completed 59 minutes later
    wheel.advance(Duration::seconds(3539));
    assert!(wheel.read().hours().is_none());
    wheel.advance(Duration::seconds(1));
    assert_eq!(wheel.read().hours_unchecked().len(), 1);
    assert_eq!(wheel.read().hours_unchecked().interval(1), Some(sum));
    assert!(wheel.read().days().is_none());
}
