use std::collections::hash_map::DefaultHasher;
use std::hash::{Hash, Hasher};

use saguaro_common::interval::{format_interval, from_pg_binary, parse_interval, to_pg_binary};
use saguaro_common::Interval;

const MICROS_PER_SEC: i64 = 1_000_000;

fn iv(months: i32, days: i32, micros: i64) -> Interval {
    Interval::new(months, days, micros)
}

fn hash_of(v: &Interval) -> u64 {
    let mut h = DefaultHasher::new();
    v.hash(&mut h);
    h.finish()
}

#[test]
fn one_month_equals_thirty_days_by_estimate() {
    let a = iv(1, 0, 0);
    let b = iv(0, 30, 0);
    assert_eq!(a, b); // equal by canonical estimate
    assert_eq!(hash_of(&a), hash_of(&b));
    // ...but ordering is by the estimate, so 31 days > 1 month.
    assert!(iv(0, 31, 0) > a);
    assert!(iv(0, 29, 0) < a);
}

#[test]
fn parse_verbose_forms() {
    assert_eq!(parse_interval("1 year 2 months"), Some(iv(14, 0, 0)));
    assert_eq!(parse_interval("3 days"), Some(iv(0, 3, 0)));
    assert_eq!(parse_interval("1 week"), Some(iv(0, 7, 0)));
    assert_eq!(
        parse_interval("1 day 02:03:04"),
        Some(iv(0, 1, (2 * 3_600 + 3 * 60 + 4) * MICROS_PER_SEC))
    );
    assert_eq!(
        parse_interval("04:05:06"),
        Some(iv(0, 0, (4 * 3_600 + 5 * 60 + 6) * MICROS_PER_SEC))
    );
    assert_eq!(parse_interval("-1 day"), Some(iv(0, -1, 0)));
    assert_eq!(parse_interval("1 day ago"), Some(iv(0, -1, 0)));
    assert_eq!(
        parse_interval("90 minutes"),
        Some(iv(0, 0, 90 * 60 * MICROS_PER_SEC))
    );
    // Hours beyond a day are kept (not wrapped).
    assert_eq!(
        parse_interval("100:00:00"),
        Some(iv(0, 0, 100 * 3_600 * MICROS_PER_SEC))
    );
    assert_eq!(
        parse_interval("2 hours 30 mins"),
        Some(iv(0, 0, (2 * 3_600 + 30 * 60) * MICROS_PER_SEC))
    );
}

#[test]
fn parse_rejects_garbage() {
    assert_eq!(parse_interval(""), None);
    assert_eq!(parse_interval("hello"), None);
    assert_eq!(parse_interval("1 fortnight"), None);
    assert_eq!(parse_interval("1"), None); // number with no unit
    assert_eq!(parse_interval("12:60:00"), None); // bad minutes
    assert_eq!(parse_interval("1 day ago extra"), None);
}

#[test]
fn format_matches_postgres_style() {
    assert_eq!(
        format_interval(&iv(14, 3, (4 * 3_600 + 5 * 60 + 6) * MICROS_PER_SEC)),
        "1 year 2 mons 3 days 04:05:06"
    );
    assert_eq!(format_interval(&iv(0, 0, 0)), "00:00:00");
    assert_eq!(format_interval(&iv(1, 0, 0)), "1 mon");
    assert_eq!(format_interval(&iv(24, 0, 0)), "2 years");
    assert_eq!(format_interval(&iv(0, 1, 0)), "1 day");
    assert_eq!(format_interval(&iv(0, 0, -MICROS_PER_SEC)), "-00:00:01");
    assert_eq!(format_interval(&iv(0, 0, 500_000)), "00:00:00.5");
}

#[test]
fn pg_binary_round_trips() {
    for v in [
        iv(0, 0, 0),
        iv(14, 3, 12_345_678),
        iv(-1, -2, -3_000_000),
        iv(0, 0, i64::MAX),
    ] {
        assert_eq!(from_pg_binary(&to_pg_binary(&v)), Some(v));
    }
    assert_eq!(from_pg_binary(&[0u8; 8]), None); // wrong length
}

#[test]
fn parse_format_round_trip() {
    for text in [
        "1 year 2 mons 3 days 04:05:06",
        "1 mon",
        "2 years",
        "-00:00:01",
        "5 days",
    ] {
        let parsed = parse_interval(text).unwrap();
        assert_eq!(format_interval(&parsed), text);
    }
}

#[test]
fn interval_texts_with_mixed_signs_read_back() {
    for v in [iv(-14, 3, -1), iv(11, -3, 86_400_000_000), iv(0, 0, i64::MAX)] {
        let parsed = parse_interval(&format_interval(&v)).unwrap();
        assert_eq!((parsed.months, parsed.days, parsed.micros), (v.months, v.days, v.micros));
    }
}
