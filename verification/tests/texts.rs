use saguaro_common::bytea::{format_hex, parse_hex};
use saguaro_common::datetime::{
    civil_from_days, days_from_civil, format_date, format_time, format_timestamp, parse_date,
    parse_time, parse_timestamp,
};
use saguaro_common::uuid::{format_uuid, parse_uuid};
use saguaro_common::parse_bool_text;

const MICROS_PER_SEC: i64 = 1_000_000;

#[test]
fn format_uses_lowercase_hex_with_prefix() {
    assert_eq!(format_hex(&[]), "\\x");
    assert_eq!(format_hex(&[0xde, 0xad, 0xbe, 0xef]), "\\xdeadbeef");
    assert_eq!(format_hex(&[0x00, 0x0f, 0xa0]), "\\x000fa0");
}

#[test]
fn parse_accepts_hex_and_rejects_other_forms() {
    assert_eq!(parse_hex("\\x"), Some(vec![]));
    assert_eq!(parse_hex("\\xDEADbeef"), Some(vec![0xde, 0xad, 0xbe, 0xef]));
    assert_eq!(parse_hex("  \\x00ff "), Some(vec![0x00, 0xff]));
    assert_eq!(parse_hex("\\xabc"), None); // odd digit count
    assert_eq!(parse_hex("\\xzz"), None); // non-hex
    assert_eq!(parse_hex("deadbeef"), None); // missing prefix
    assert_eq!(parse_hex("\\001"), None); // legacy escape not supported
}

#[test]
fn bytea_round_trips() {
    for bytes in [vec![], vec![0x00], vec![0xff, 0x10, 0x00, 0x7f]] {
        assert_eq!(parse_hex(&format_hex(&bytes)), Some(bytes));
    }
}

#[test]
fn time_parse_format_round_trip() {
    let micros = parse_time("13:45:30.5").unwrap();
    assert_eq!(
        micros,
        (13 * 3_600 + 45 * 60 + 30) * MICROS_PER_SEC + 500_000
    );
    assert_eq!(format_time(micros), "13:45:30.5");
    assert_eq!(parse_time("  00:00:00 "), Some(0));
    assert_eq!(format_time(0), "00:00:00");
    assert_eq!(
        format_time(parse_time("23:59:59.999999").unwrap()),
        "23:59:59.999999"
    );
    assert_eq!(parse_time("25:00:00"), None); // hour out of range
    assert_eq!(parse_time("12:60:00"), None); // minute out of range
    assert_eq!(parse_time("noon"), None);
}

#[test]
fn epoch_and_neighbors() {
    assert_eq!(days_from_civil(1970, 1, 1), 0);
    assert_eq!(days_from_civil(1970, 1, 2), 1);
    assert_eq!(days_from_civil(1969, 12, 31), -1);
    assert_eq!(civil_from_days(0), (1970, 1, 1));
    assert_eq!(civil_from_days(-1), (1969, 12, 31));
}

#[test]
fn known_dates_round_trip() {
    assert_eq!(days_from_civil(2000, 1, 1), 10957);
    for (y, m, d) in [(1, 1, 1), (1969, 7, 20), (2024, 2, 29), (2099, 12, 31)] {
        let days = days_from_civil(y, m, d);
        assert_eq!(civil_from_days(days), (y, m, d), "round trip {y}-{m}-{d}");
    }
}

#[test]
fn parse_accepts_valid_and_rejects_invalid() {
    assert_eq!(parse_date("1970-01-01"), Some(0));
    assert_eq!(
        parse_date("  2024-02-29 "),
        Some(days_from_civil(2024, 2, 29))
    );
    assert_eq!(parse_date("2023-02-29"), None); // not a leap year
    assert_eq!(parse_date("2024-13-01"), None);
    assert_eq!(parse_date("2024-00-01"), None);
    assert_eq!(parse_date("2024-01-32"), None);
    assert_eq!(parse_date("2024-01-00"), None);
    assert_eq!(parse_date("2024-01"), None);
    assert_eq!(parse_date("2024-01-15-extra"), None);
    assert_eq!(parse_date("not-a-date"), None);
}

#[test]
fn format_matches_parse() {
    assert_eq!(format_date(0), "1970-01-01");
    for s in ["1970-01-01", "2024-02-29", "1999-12-31", "0001-01-01"] {
        assert_eq!(format_date(parse_date(s).unwrap()), s);
    }
}

#[test]
fn timestamp_epoch_and_components() {
    assert_eq!(parse_timestamp("1970-01-01 00:00:00"), Some(0));
    assert_eq!(parse_timestamp("1970-01-01"), Some(0)); // date-only -> midnight
    assert_eq!(parse_timestamp("1970-01-01T00:00:01"), Some(1_000_000)); // 'T' separator
    assert_eq!(
        parse_timestamp("2024-01-15 12:30:45"),
        Some(
            days_from_civil(2024, 1, 15) * 86_400_000_000 + (12 * 3600 + 30 * 60 + 45) * 1_000_000
        )
    );
}

#[test]
fn timestamp_fractions_and_rejections() {
    assert_eq!(parse_timestamp("1970-01-01 00:00:00.5"), Some(500_000));
    assert_eq!(parse_timestamp("1970-01-01 00:00:00.123456"), Some(123_456));
    // Digits beyond microsecond resolution are ignored.
    assert_eq!(
        parse_timestamp("1970-01-01 00:00:00.1234569"),
        Some(123_456)
    );
    assert_eq!(parse_timestamp("2024-01-15 24:00:00"), None); // hour out of range
    assert_eq!(parse_timestamp("2024-01-15 12:60:00"), None); // minute out of range
    assert_eq!(parse_timestamp("2024-01-15 12:00:60"), None); // second out of range
    assert_eq!(parse_timestamp("2023-02-29 00:00:00"), None); // bad date part
    assert_eq!(parse_timestamp("2024-01-15 12:00"), None); // missing seconds
}

#[test]
fn timestamp_format_round_trips() {
    for s in [
        "1970-01-01 00:00:00",
        "2024-01-15 12:30:45",
        "2024-02-29 23:59:59.123456",
        "1969-12-31 23:59:59", // pre-epoch (negative micros)
        "2000-01-01 00:00:00.5",
    ] {
        assert_eq!(format_timestamp(parse_timestamp(s).unwrap()), s);
    }
}

#[test]
fn format_is_canonical_lowercase() {
    assert_eq!(
        format_uuid(&[0; 16]),
        "00000000-0000-0000-0000-000000000000"
    );
    let bytes = [
        0x0a, 0x0b, 0x0c, 0x0d, 0x0e, 0x0f, 0x10, 0x11, 0x12, 0x13, 0x14, 0x15, 0x16, 0x17, 0x18,
        0x19,
    ];
    assert_eq!(format_uuid(&bytes), "0a0b0c0d-0e0f-1011-1213-141516171819");
}

#[test]
fn parse_accepts_lenient_forms() {
    let canonical = "0a0b0c0d-0e0f-1011-1213-141516171819";
    let expected = [
        0x0a, 0x0b, 0x0c, 0x0d, 0x0e, 0x0f, 0x10, 0x11, 0x12, 0x13, 0x14, 0x15, 0x16, 0x17, 0x18,
        0x19,
    ];
    assert_eq!(parse_uuid(canonical), Some(expected));
    assert_eq!(
        parse_uuid("0A0B0C0D-0E0F-1011-1213-141516171819"),
        Some(expected)
    ); // upper
    assert_eq!(
        parse_uuid("0a0b0c0d0e0f10111213141516171819"),
        Some(expected)
    ); // no hyphens
    assert_eq!(
        parse_uuid("  {0a0b0c0d-0e0f-1011-1213-141516171819}  "),
        Some(expected)
    ); // braces + whitespace
}

#[test]
fn parse_rejects_bad_input() {
    assert_eq!(parse_uuid("not-a-uuid"), None);
    assert_eq!(parse_uuid("0a0b"), None); // too short
    assert_eq!(parse_uuid("0a0b0c0d0e0f10111213141516171819ff"), None); // too long
    assert_eq!(parse_uuid("0a0b0c0d-0e0f-1011-1213-1415161718zz"), None); // non-hex
}

#[test]
fn uuid_round_trips() {
    let s = "12345678-9abc-def0-1234-56789abcdef0";
    assert_eq!(format_uuid(&parse_uuid(s).unwrap()), s);
}

#[test]
fn boolean_text_is_read_leniently() {
    for text in ["true", "T", "yes", "on", "1", " TRUE "] {
        assert_eq!(parse_bool_text(text), Some(true), "{text}");
    }
    for text in ["false", "F", "no", "off", "0"] {
        assert_eq!(parse_bool_text(text), Some(false), "{text}");
    }
    assert_eq!(parse_bool_text("maybe"), None);
}

#[test]
fn days_follow_each_other() {
    for (date, next) in [
        ("2023-02-28", "2023-03-01"),
        ("2024-02-28", "2024-02-29"),
        ("2024-02-29", "2024-03-01"),
        ("1900-02-28", "1900-03-01"),
        ("2000-02-28", "2000-02-29"),
        ("1999-12-31", "2000-01-01"),
    ] {
        let days = parse_date(date).unwrap();
        assert_eq!(format_date(days), date);
        assert_eq!(format_date(days + 1), next);
        assert_eq!(parse_date(next), Some(days + 1));
    }
    assert_eq!(civil_from_days(0), (1970, 1, 1));
    for days in [-1_000_000_000_000, -719_469, -1, 0, 1, 1_000_000_000_000] {
        let (year, month, day) = civil_from_days(days);
        assert_eq!(days_from_civil(year, month, day), days);
    }
}

#[test]
fn timestamps_are_dates_and_times() {
    let day = parse_date("2024-02-29").unwrap() * 86_400 * MICROS_PER_SEC;
    let noon = parse_time("12:00:00.25").unwrap();
    for text in [
        "2024-02-29 12:00:00.25",
        "2024-02-29T12:00:00.25",
        "\t2024-02-29\t 12:00:00.25 ",
    ] {
        assert_eq!(parse_timestamp(text), Some(day + noon), "{text}");
    }
    assert_eq!(parse_timestamp("T12:00:00"), None);
    assert_eq!(parse_timestamp("2024-02-29T"), None);
    assert_eq!(parse_timestamp("2024-02-30 12:00:00"), None);
    assert_eq!(parse_timestamp("2024-02-29 24:00:00"), None);
    assert_eq!(parse_timestamp("9223372036854775807-01-01 00:00:00"), None);
}
