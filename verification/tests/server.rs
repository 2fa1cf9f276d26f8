use runtime::{time_diff_in_ms, Datum, DatumType, Timestamp};

fn at(secs: i64, millis: u32) -> Timestamp {
    Timestamp { secs, millis }
}

#[test]
fn difference_within_one_second() {
    assert_eq!(time_diff_in_ms(at(100, 750), at(100, 250)), 500);
}

#[test]
fn difference_across_seconds() {
    assert_eq!(time_diff_in_ms(at(10, 250), at(9, 750)), 500);
    assert_eq!(time_diff_in_ms(at(12, 0), at(10, 0)), 2000);
    assert_eq!(time_diff_in_ms(at(12, 1), at(10, 999)), 1002);
}

#[test]
fn difference_of_equal_times_is_zero() {
    assert_eq!(time_diff_in_ms(at(1_700_000_000, 123), at(1_700_000_000, 123)), 0);
}

#[test]
fn difference_is_negative_when_the_first_is_earlier() {
    assert_eq!(time_diff_in_ms(at(9, 750), at(10, 250)), -500);
    assert_eq!(time_diff_in_ms(at(-1, 0), at(0, 0)), -1000);
}

#[test]
fn difference_agrees_with_the_same_sum_in_floating_point() {
    let cases = [
        (at(1_500_000_000, 17), at(1_499_999_990, 980)),
        (at(0, 0), at(0, 999)),
        (at(-5, 300), at(7, 1)),
        (at(1_700_000_000, 1999), at(1_700_000_000, 0)),
    ];
    for (a, b) in cases {
        let float = (a.secs as f64 - b.secs as f64) * 1000.0 + (a.millis as f64 - b.millis as f64);
        assert_eq!(time_diff_in_ms(a, b) as f64, float);
    }
}

#[test]
fn difference_at_the_ends_of_the_range() {
    let d = time_diff_in_ms(at(i64::MAX, u32::MAX), at(i64::MIN, 0));
    let expected = (i64::MAX as i128 - i64::MIN as i128) * 1000 + u32::MAX as i128;
    assert_eq!(d, expected);
    let d = time_diff_in_ms(at(i64::MIN, 0), at(i64::MAX, u32::MAX));
    assert_eq!(d, -expected);
}

#[test]
fn live_datum_is_recorded_with_level_and_latency() {
    let d = Datum { datum_type: DatumType::Live(3), ts: at(1000, 900), payload: vec![0; 1400] };
    assert_eq!(d.datum_type(), DatumType::Live(3));
    assert_eq!(d.observe(at(1001, 150)), Some((3, 250)));
}

#[test]
fn other_datum_is_passed_over() {
    let d = Datum { datum_type: DatumType::Dummy, ts: at(1000, 900), payload: vec![1, 2, 3] };
    assert_eq!(d.observe(at(1001, 150)), None);
}

#[test]
fn datum_clone_is_equal() {
    let d = Datum { datum_type: DatumType::Live(1), ts: at(5, 6), payload: vec![7, 8, 9] };
    let c = d.clone();
    assert_eq!(c, d);
    assert_eq!(c.payload, vec![7, 8, 9]);
}

#[test]
fn latency_against_a_clock_reading() {
    let clock = chrono::Utc::now();
    let now = at(clock.timestamp(), clock.timestamp_subsec_millis());
    let d = Datum { datum_type: DatumType::Live(4), ts: at(0, 0), payload: Vec::new() };
    let expected = clock.timestamp() as i128 * 1000 + clock.timestamp_subsec_millis() as i128;
    assert_eq!(d.observe(now), Some((4, expected)));

    let sent = at(now.secs - 2, now.millis);
    let d = Datum { datum_type: DatumType::Live(0), ts: sent, payload: vec![1] };
    assert_eq!(d.observe(now), Some((0, 2000)));
}

#[test]
fn latency_is_negative_when_the_sender_clock_is_ahead() {
    let d = Datum { datum_type: DatumType::Live(1), ts: at(100, 500), payload: Vec::new() };
    assert_eq!(d.observe(at(100, 0)), Some((1, -500)));
}
