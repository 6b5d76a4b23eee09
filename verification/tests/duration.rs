use crosshair::duration::duration_in_range;
use crosshair::tick::tick_interval;

/// Texts on whose sum the parser overflows: 2^64 - 1 seconds and exactly one second more.
const OVERFLOWING: [&str; 10] = [
    "18446744073709551615s 1000ms",
    "18446744073709551615s1000000us",
    "18446744073709551615 sec 1000 millis",
    "18446744073709551615s 1000000µs",
    "18446744073709551615s 999999999ns 1nsec",
    "18446744073709551615.5s 0.5s",
    "18446744073709551615.4s 0.01m",
    "584542046090y 19767615s 1000ms",
    "307445734561825860m 15s 0.5s 500ms",
    "7013928460400M 2185215s 1000msec",
];

#[test]
fn only_sums_at_the_limit_are_out_of_range() {
    for text in OVERFLOWING {
        assert!(!duration_in_range(text), "{text:?}");
    }
    for text in [
        "",
        "0",
        "soon",
        "2592000000000000ns",
        "1234567890123456ns",
        "0000000000000000001h",
        "12years 3months 12days 10h 20m 30s 250ms 125us 300ns",
        "18446744073709551615s",
        "18446744073709551616s",
        "18446744073709551615s 999ms",
        "18446744073709551615s 1001ms",
        "18446744073709551614s 1000ms",
        "18446744073709551615.5s",
        "18446744073709551613s 3000ms",
        "18446744073709551615s 0.05m",
        "18446744073709551616s 1000ms",
        "18446744073709551615x 18446744073709551615s 1000ms",
        "0.00000000000000000001s 18446744073709551615s 1000ms",
        "1..5s 18446744073709551615s 1000ms",
        "307445734561825860.2m",
        "584542046090.6y",
        "584542046091y 1000ms",
        "99999999999999999999999999999999999999999999years 1000ms",
        "99999999999999999999999999999999999999999999ns",
    ] {
        assert!(duration_in_range(text), "{text:?}");
    }
}

#[test]
fn texts_in_range_are_parsed_as_they_stand() {
    assert_eq!(tick_interval("2592000000000000ns").unwrap().secs(), 30 * 86_400);
    let most = tick_interval("18446744073709551615s 999ms").unwrap();
    assert_eq!((most.secs(), most.nanos()), (u64::MAX, 999_000_000));
    assert_eq!(tick_interval("18446744073709551614s 1000ms").unwrap().secs(), u64::MAX);
    assert_eq!(tick_interval("18446744073709551615.5s").unwrap().nanos(), 500_000_000);
    assert_eq!(tick_interval("307445734561825860.2m").unwrap().secs(), u64::MAX - 3);
    for text in [
        "18446744073709551616s",
        "18446744073709551615s 1001ms",
        "18446744073709551613s 3000ms",
        "18446744073709551615s 0.05m",
        "584542046091y 1000ms",
        "99999999999999999999999999999999999999999999ns",
    ] {
        assert!(tick_interval(text).unwrap_err().starts_with("number is too large"), "{text:?}");
    }
}

#[test]
fn every_name_of_a_unit_is_weighed() {
    for (names, seconds) in [
        (vec!["seconds", "second", "secs", "sec", "s"], 1u64),
        (vec!["minutes", "minute", "min", "mins", "m"], 60),
        (vec!["hours", "hour", "hr", "hrs", "h"], 3_600),
        (vec!["days", "day", "d"], 86_400),
        (vec!["weeks", "week", "wk", "wks", "w"], 604_800),
        (vec!["months", "month", "M"], 2_630_016),
        (vec!["years", "year", "yr", "yrs", "y"], 31_557_600),
    ] {
        for name in names {
            assert_eq!(tick_interval(&format!("1{name}")).unwrap().secs(), seconds);
            let count = u64::MAX / seconds;
            let rest = u64::MAX % seconds;
            let text = format!("{count}{name} {rest}s 1000ms");
            assert!(!duration_in_range(&text), "{text:?}");
            let text = format!("{count}{name} {rest}s 999ms");
            assert!(duration_in_range(&text), "{text:?}");
            assert_eq!(tick_interval(&text).unwrap().secs(), u64::MAX);
        }
    }
    for (names, count) in [
        (vec!["nanos", "nsec", "ns"], 1_000_000_000u64),
        (vec!["usec", "us", "µs"], 1_000_000),
        (vec!["millis", "msec", "ms"], 1_000),
    ] {
        for name in names {
            let text = format!("18446744073709551615s {count}{name}");
            assert!(!duration_in_range(&text), "{text:?}");
            let text = format!("18446744073709551615s {}{name}", count - 1);
            assert!(duration_in_range(&text), "{text:?}");
            assert_eq!(tick_interval(&text).unwrap().secs(), u64::MAX);
        }
    }
}
