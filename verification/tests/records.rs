use iter_progress::{Elapsed, ProgressRecord, ProgressRecorderIter, ProgressableIter, Ratio, Timestamp};

fn as_f32(ratio: Ratio) -> f32 {
    (ratio.numer as f32) / (ratio.denom as f32)
}

/// A record of the `num`-th element, `nanos` nanoseconds after the start,
/// with the given estimate of what is left.
fn record(num: usize, nanos: i128, size_hint: (usize, Option<usize>)) -> ProgressRecord {
    let start = Timestamp::new(1_000, 0);
    let sec = (nanos.div_euclid(1_000_000_000)) as i64;
    let nsec = (nanos.rem_euclid(1_000_000_000)) as i32;
    let now = Timestamp::new(1_000 + sec, nsec);
    let empty: Vec<u8> = Vec::new();
    let mut recorder = ProgressRecorderIter::with_start(empty.into_iter(), start);
    let mut last = recorder.generate_record_at(now, size_hint);
    while last.num_done() < num {
        last = recorder.generate_record_at(now, size_hint);
    }
    last
}

#[test]
fn test_size_hint() {
    let vec: Vec<u8> = vec![0, 1, 2, 3, 4];
    let mut progressor = vec.iter().progress();

    let (state, _) = progressor.next().unwrap();
    assert_eq!(state.fraction().map(as_f32), Some(0.2));
    assert_eq!(state.percent().map(as_f32), Some(20.));

    let (state, _) = progressor.next().unwrap();
    assert_eq!(state.fraction().map(as_f32), Some(0.4));
    assert_eq!(state.percent().map(as_f32), Some(40.));

    let mut progressor = (0..).progress();

    let (state, val) = progressor.next().unwrap();
    assert_eq!(val, 0);
    assert_eq!(state.fraction(), None);
    let (state, val) = progressor.next().unwrap();
    assert_eq!(val, 1);
    assert_eq!(state.fraction(), None);
}

#[test]
fn five_elements_with_exact_size() {
    let vec: Vec<u8> = vec![10, 11, 12, 13, 14];
    let mut progressor = vec.iter().progress();

    let (first, element) = progressor.next().unwrap();
    assert_eq!(*element, 10);
    assert_eq!(first.num_done(), 1);
    assert!(first.is_size_known());
    assert_eq!(first.fraction(), Some(Ratio { numer: 1, denom: 5 }));
    assert_eq!(first.percent(), Some(Ratio { numer: 100, denom: 5 }));

    let (second, element) = progressor.next().unwrap();
    assert_eq!(*element, 11);
    assert_eq!(second.num_done(), 2);
    assert_eq!(second.fraction(), Some(Ratio { numer: 2, denom: 5 }));

    for expected in 3..=5 {
        let (state, _) = progressor.next().unwrap();
        assert_eq!(state.num_done(), expected);
        assert_eq!(state.fraction(), Some(Ratio { numer: expected as i128, denom: 5 }));
    }
    assert!(progressor.next().is_none());
}

#[test]
fn nth_element_is_counted_n() {
    let mut progressor = (100u32..).progress();
    for n in 1..=250usize {
        let (state, element) = progressor.next().unwrap();
        assert_eq!(state.num_done(), n);
        assert_eq!(element, 99 + n as u32);
        assert_eq!(progressor.pulled_so_far(), n);
    }
}

#[test]
fn unbounded_source_never_has_a_fraction() {
    let mut progressor = (0u64..).progress();
    for _ in 0..100 {
        let (state, _) = progressor.next().unwrap();
        assert!(!state.is_size_known());
        assert_eq!(state.fraction(), None);
        assert_eq!(state.percent(), None);
    }
}

#[test]
fn bounded_but_inexact_estimate_has_no_fraction() {
    let state = record(3, 0, (2, Some(7)));
    assert!(!state.is_size_known());
    assert_eq!(state.fraction(), None);
    assert_eq!(state.percent(), None);
    let state = record(3, 0, (7, None));
    assert_eq!(state.fraction(), None);
}

#[test]
fn fraction_counts_what_is_left() {
    let state = record(3, 0, (9, Some(9)));
    assert_eq!(state.fraction(), Some(Ratio { numer: 3, denom: 12 }));
    assert_eq!(state.percent(), Some(Ratio { numer: 300, denom: 12 }));
    assert_eq!(state.fraction().map(as_f32), Some(0.25));
    assert_eq!(state.percent().map(as_f32), Some(25.));
    // a source that is used up
    let state = record(4, 0, (0, Some(0)));
    assert_eq!(state.fraction(), Some(Ratio { numer: 4, denom: 4 }));
}

#[test]
fn fraction_of_largest_estimate_does_not_overflow() {
    let state = record(2, 0, (usize::MAX, Some(usize::MAX)));
    assert_eq!(state.fraction(), Some(Ratio { numer: 2, denom: usize::MAX as i128 + 2 }));
    assert_eq!(state.percent(), Some(Ratio { numer: 200, denom: usize::MAX as i128 + 2 }));
}

#[test]
fn exhaustion_is_sticky() {
    let vec: Vec<u8> = vec![1, 2];
    let mut progressor = vec.into_iter().progress();
    assert!(progressor.next().is_some());
    assert!(progressor.next().is_some());
    assert_eq!(progressor.pulled_so_far(), 2);
    for _ in 0..10 {
        assert!(progressor.next().is_none());
        assert_eq!(progressor.pulled_so_far(), 2);
    }
    assert!(progressor.next_at(Timestamp::new(0, 0)).is_none());
    assert_eq!(progressor.pulled_so_far(), 2);
}

#[test]
fn empty_source_gives_no_record() {
    let empty: Vec<u8> = Vec::new();
    let mut progressor = empty.iter().progress();
    assert_eq!(progressor.pulled_so_far(), 0);
    assert!(progressor.next().is_none());
    assert_eq!(progressor.pulled_so_far(), 0);
}

#[test]
fn messages_follow_the_clock_readings() {
    let vec: Vec<u8> = vec![0, 1, 2, 3, 4];
    let start = Timestamp::new(1_700_000_000, 250_000_000);
    let mut progressor = ProgressRecorderIter::with_start(vec.iter(), start);

    let (state, _) = progressor.next_at(Timestamp::new(1_700_000_000, 750_000_000)).unwrap();
    assert_eq!(state.message(), "Have seen 1 items and been iterating for 0 seconds");
    // the first element is always reported
    assert_eq!(state.should_print_every_items(2), true);
    assert_eq!(state.should_print_every_items(3), true);
    assert_eq!(state.should_print_every_items(5), true);
    assert_eq!(state.rate(), Ratio { numer: 1, denom: 0 });
    assert_eq!(as_f32(state.rate()), f32::INFINITY);

    let (state, _) = progressor.next_at(Timestamp::new(1_700_000_001, 250_000_000)).unwrap();
    assert_eq!(state.message(), "Have seen 2 items and been iterating for 1 seconds");
    assert_eq!(state.should_print_every_items(2), false);
    assert_eq!(state.should_print_every_items(3), false);
    assert_eq!(state.should_print_every_items(5), false);
    assert_eq!(as_f32(state.rate()), 2.);

    let (state, _) = progressor.next_at(Timestamp::new(1_700_000_001, 750_000_000)).unwrap();
    assert_eq!(state.message(), "Have seen 3 items and been iterating for 1 seconds");
    assert_eq!(state.should_print_every_items(2), true);
    assert_eq!(state.should_print_every_items(3), false);
    assert_eq!(state.should_print_every_items(5), false);
    assert_eq!(as_f32(state.rate()), 3.);

    let (state, _) = progressor.next_at(Timestamp::new(1_700_000_002, 250_000_000)).unwrap();
    assert_eq!(state.message(), "Have seen 4 items and been iterating for 2 seconds");
    assert_eq!(state.should_print_every_items(2), false);
    assert_eq!(state.should_print_every_items(3), true);
    assert_eq!(state.should_print_every_items(5), false);
    assert_eq!(as_f32(state.rate()), 2.);
}

#[test]
fn rate_in_the_first_second_is_infinite() {
    let state = record(7, 999_999_999, (0, None));
    assert_eq!(state.duration_since_start().num_seconds(), 0);
    let rate = state.rate();
    assert_eq!(rate, Ratio { numer: 7, denom: 0 });
    assert_eq!(as_f32(rate), f32::INFINITY);
    assert!(as_f32(rate) != 0.0);
}

#[test]
fn rate_is_count_over_whole_seconds() {
    let state = record(7, 2_999_999_999, (0, None));
    assert_eq!(state.rate(), Ratio { numer: 7, denom: 2 });
    assert_eq!(as_f32(state.rate()), 3.5);
}

#[test]
fn prints_on_first_and_every_nth_after_it() {
    for n in 1..=12usize {
        for count in 1..=60usize {
            let state = record(count, 0, (0, None));
            assert_eq!(state.should_print_every_items(n), (count - 1) % n == 0);
        }
        assert!(record(1, 0, (0, None)).should_print_every_items(n));
        assert!(record(1 + n, 0, (0, None)).should_print_every_items(n));
        assert!(record(1 + 3 * n, 0, (0, None)).should_print_every_items(n));
    }
    assert!(record(1, 0, (0, None)).should_print_every_items(usize::MAX));
    assert!(!record(2, 0, (0, None)).should_print_every_items(usize::MAX));
}

#[test]
fn elapsed_grows_with_the_readings() {
    let vec: Vec<u8> = vec![0, 1, 2, 3];
    let start = Timestamp::new(50, 900_000_000);
    let mut progressor = ProgressRecorderIter::with_start(vec.iter(), start);
    let readings = [
        Timestamp::new(50, 900_000_000),
        Timestamp::new(51, 100_000_000),
        Timestamp::new(51, 100_000_000),
        Timestamp::new(3_000, 0),
    ];
    let expected: [i128; 4] = [0, 200_000_000, 200_000_000, 2_949_100_000_000];
    let mut last = Elapsed::from_nanos(0);
    for i in 0..4 {
        let (state, _) = progressor.next_at(readings[i]).unwrap();
        let elapsed = state.duration_since_start();
        assert_eq!(elapsed.num_nanoseconds(), expected[i]);
        assert!(elapsed.num_nanoseconds() >= last.num_nanoseconds());
        assert!(elapsed.num_seconds() >= last.num_seconds());
        last = elapsed;
    }
}

#[test]
fn clock_set_back_gives_a_negative_elapsed() {
    let state = record(1, -1_500_000_000, (0, None));
    assert_eq!(state.duration_since_start().num_nanoseconds(), -1_500_000_000);
    // whole seconds round towards zero
    assert_eq!(state.duration_since_start().num_seconds(), -1);
    assert_eq!(state.message(), "Have seen 1 items and been iterating for -1 seconds");
    assert_eq!(state.rate(), Ratio { numer: 1, denom: -1 });
    let state = record(1, -999_999_999, (0, None));
    assert_eq!(state.message(), "Have seen 1 items and been iterating for 0 seconds");
}

#[test]
fn size_hint_is_the_sources_own() {
    let vec: Vec<u8> = vec![0, 1, 2, 3, 4];
    let mut progressor = vec.iter().progress();
    assert_eq!(progressor.size_hint(), (5, Some(5)));
    progressor.next();
    progressor.next();
    assert_eq!(progressor.size_hint(), (3, Some(3)));
    let unbounded = (0u8..).filter(|x| x % 2 == 0).progress();
    assert_eq!(unbounded.size_hint(), (0u8..).filter(|x| x % 2 == 0).size_hint());
    let endless = (0u64..).progress();
    assert_eq!(endless.size_hint(), (usize::MAX, None));
}

#[test]
fn record_carries_the_estimate_after_the_pull() {
    let vec: Vec<u8> = vec![0, 1, 2];
    let mut progressor = vec.iter().filter(|x| **x != 1).progress();
    // a filter knows only an upper bound
    let (state, _) = progressor.next().unwrap();
    assert!(!state.is_size_known());
    assert_eq!(state.fraction(), None);
    let (state, element) = progressor.next().unwrap();
    assert_eq!(*element, 2);
    assert_eq!(state.num_done(), 2);
    // now the source is used up and says so: nothing is left
    assert_eq!(state.fraction(), Some(Ratio { numer: 2, denom: 2 }));
}

#[test]
fn count_uses_up_what_is_left() {
    let vec: Vec<u8> = vec![0, 1, 2, 3, 4];
    let mut progressor = vec.iter().progress();
    progressor.next();
    assert_eq!(progressor.count(), 4);
    let empty: Vec<u8> = Vec::new();
    assert_eq!(empty.iter().progress().count(), 0);
}

#[test]
fn new_starts_the_clock_now() {
    let before = Timestamp::now();
    let vec: Vec<u8> = vec![0];
    let mut progressor = ProgressRecorderIter::new(vec.iter());
    let (state, _) = progressor.next().unwrap();
    let after = Timestamp::now();
    let whole = after.since(&before);
    assert!(state.duration_since_start().num_nanoseconds() <= whole.num_nanoseconds());
    assert!(state.duration_since_start().num_seconds() < 3_600);
    assert!(state.duration_since_start().num_seconds() > -3_600);
}

#[test]
fn wall_clock_is_read() {
    let now = Timestamp::now();
    assert!(now.nsec >= 0 && now.nsec < 1_000_000_000);
    // later than 2020-01-01
    assert!(now.sec > 1_577_836_800);
    let later = Timestamp::now();
    assert!(later.since(&now).num_seconds() < 3_600);
}
