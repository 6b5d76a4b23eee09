use chrono::{DateTime, TimeDelta, TimeZone, Timelike, Utc};
use crosshair::instant::{Span, Timestamp, MAX_SECS, MIN_SECS};

fn dt(secs: i64, nanos: u32) -> DateTime<Utc> {
    DateTime::from_timestamp(secs, nanos).unwrap()
}

fn ts(d: &DateTime<Utc>) -> Timestamp {
    Timestamp::from_parts(d.timestamp(), d.timestamp_subsec_nanos()).unwrap()
}

/// Instants around minutes, days and leap seconds, before and after the epoch.
fn samples() -> Vec<DateTime<Utc>> {
    let mut out = Vec::new();
    for secs in [
        MIN_SECS,
        MIN_SECS + 1,
        -86_401,
        -86_400,
        -61,
        -60,
        -1,
        0,
        59,
        60,
        86_399,
        86_400,
        1_483_228_799,
        1_483_228_800,
        1_783_641_615,
        MAX_SECS - 86_400,
        MAX_SECS - 1,
        MAX_SECS,
    ] {
        for nanos in [0, 1, 999_999_999, 1_000_000_000, 1_500_000_000, 1_999_999_999] {
            if let Some(d) = DateTime::from_timestamp(secs, nanos) {
                out.push(d);
            }
        }
    }
    out
}

#[test]
fn timestamps_exist_where_the_calendar_has_an_instant() {
    for secs in [
        i64::MIN,
        MIN_SECS - 1,
        MIN_SECS,
        -1,
        0,
        59,
        60,
        1_483_228_799,
        MAX_SECS,
        MAX_SECS + 1,
        i64::MAX,
    ] {
        for nanos in [0, 999_999_999, 1_000_000_000, 1_999_999_999, 2_000_000_000, u32::MAX] {
            let ours = Timestamp::from_parts(secs, nanos);
            assert_eq!(ours.is_some(), DateTime::<Utc>::from_timestamp(secs, nanos).is_some());
            if let Some(t) = ours {
                assert_eq!(t.secs(), secs);
                assert_eq!(t.nanos(), nanos);
            }
        }
    }
    assert_eq!(DateTime::<Utc>::MIN_UTC.timestamp(), MIN_SECS);
    assert_eq!(DateTime::<Utc>::MAX_UTC.timestamp(), MAX_SECS);
}

#[test]
fn order_is_that_of_the_calendar() {
    let all = samples();
    for a in &all {
        for b in &all {
            assert_eq!(ts(a).is_before(&ts(b)), a < b, "{a:?} {b:?}");
        }
    }
}

#[test]
fn minute_start_clears_seconds_and_fraction() {
    for a in samples() {
        let expected = a.with_second(0).unwrap().with_nanosecond(0).unwrap();
        assert_eq!(ts(&a).minute_start(), ts(&expected), "{a:?}");
    }
    let t = Utc.with_ymd_and_hms(2026, 7, 10, 0, 0, 15).unwrap();
    assert_eq!(ts(&t).minute_start().secs(), t.timestamp() - 15);
}

#[test]
fn difference_is_that_of_the_calendar() {
    let all = samples();
    for a in &all {
        for b in &all {
            let delta: TimeDelta = *a - *b;
            let expected =
                delta.num_seconds() as i128 * 1_000_000_000 + delta.subsec_nanos() as i128;
            assert_eq!(ts(a).nanos_since(&ts(b)), expected, "{a:?} {b:?}");
            assert_eq!(ts(b).nanos_since(&ts(a)), -expected);
        }
    }
}

#[test]
fn moving_forward_is_that_of_the_calendar() {
    for a in samples() {
        for seconds in [1u32, 1_800, 7_200, 21_600, 86_400] {
            if let Some(expected) = a.checked_add_signed(TimeDelta::seconds(seconds as i64)) {
                assert_eq!(ts(&a).plus_seconds(seconds), ts(&expected), "{a:?}");
            }
        }
    }
    let leap = dt(1_483_228_799, 1_500_000_000);
    let later = ts(&leap).plus_seconds(1_800);
    assert_eq!((later.secs(), later.nanos()), (1_483_230_599, 500_000_000));
}

#[test]
fn spans_hold_less_than_a_second_beside_whole_seconds() {
    let s = Span::from_parts(7, 999_999_999).unwrap();
    assert_eq!((s.secs(), s.nanos()), (7, 999_999_999));
    assert!(Span::from_parts(7, 1_000_000_000).is_none());
    let max = Span::from_secs(u64::MAX);
    assert_eq!((max.secs(), max.nanos()), (u64::MAX, 0));
}
