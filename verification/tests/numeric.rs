use std::collections::hash_map::DefaultHasher;
use std::hash::{Hash, Hasher};
use std::str::FromStr;

use saguaro_common::numeric::{
    apply_typmod, format_numeric, from_i64, from_pg_binary, parse_numeric, to_i64_rounded,
    to_pg_binary,
};
use saguaro_common::Decimal;

const NUMERIC_POS: u16 = 0x0000;
const NUMERIC_NEG: u16 = 0x4000;

/// The decimal that the decimal crate reads.
fn exact(text: &str) -> Option<Decimal> {
    let read = rust_decimal::Decimal::from_str(text).ok()?;
    Decimal::from_parts(
        read.is_sign_negative(),
        read.mantissa().unsigned_abs(),
        read.scale(),
    )
}

fn dec(text: &str) -> Decimal {
    exact(text).unwrap()
}

fn hash_of(value: &Decimal) -> u64 {
    let mut hasher = DefaultHasher::new();
    value.hash(&mut hasher);
    hasher.finish()
}

#[test]
fn equal_values_with_different_scale_are_eq_and_hash_alike() {
    // The invariant Value's derived Eq/Hash depend on: 1, 1.0, and 1.00 are
    // the same value and must hash identically.
    let a = dec("1");
    let b = dec("1.0");
    let c = dec("1.00");
    assert_eq!(a, b);
    assert_eq!(b, c);
    assert_eq!(hash_of(&a), hash_of(&b));
    assert_eq!(hash_of(&b), hash_of(&c));
}

#[test]
fn ordering_is_by_value_not_representation() {
    let mut v = [
        dec("2.5"),
        dec("-1"),
        dec("1.50"),
        dec("1.5"),
        dec("10"),
    ];
    v.sort_by(|a, b| a.partial_cmp(b).unwrap());
    let formatted: Vec<String> = v.iter().map(format_numeric).collect();
    // 1.5 and 1.50 are equal by value; both sort between -1 and 2.5.
    assert_eq!(formatted[0], "-1");
    assert!(formatted[1] == "1.5" || formatted[1] == "1.50");
    assert!(formatted[2] == "1.5" || formatted[2] == "1.50");
    assert_eq!(formatted[3], "2.5");
    assert_eq!(formatted[4], "10");
}

#[test]
fn format_preserves_scale() {
    assert_eq!(format_numeric(&dec("1.50")), "1.50");
    assert_eq!(format_numeric(&dec("1")), "1");
    assert_eq!(
        format_numeric(&dec("-0.001")),
        "-0.001"
    );
}

#[test]
fn parse_accepts_plain_and_scientific_and_rejects_garbage() {
    assert_eq!(parse_numeric("3.14"), exact("3.14"));
    assert_eq!(parse_numeric("  -42 "), exact("-42"));
    assert_eq!(parse_numeric("1.5e3"), exact("1500"));
    assert_eq!(parse_numeric("abc"), None);
    assert_eq!(parse_numeric(""), None);
}

#[test]
fn pg_binary_round_trips_and_matches_known_encodings() {
    // Known encodings: text, ndigits, weight, sign, dscale, digits.
    type Case = (&'static str, i16, i16, u16, u16, &'static [u16]);
    let cases: &[Case] = &[
        ("0", 0, 0, NUMERIC_POS, 0, &[]),
        ("1", 1, 0, NUMERIC_POS, 0, &[1]),
        ("1.50", 2, 0, NUMERIC_POS, 2, &[1, 5000]),
        ("0.5", 1, -1, NUMERIC_POS, 1, &[5000]),
        ("12345.678", 3, 1, NUMERIC_POS, 3, &[1, 2345, 6780]),
        ("10000", 1, 1, NUMERIC_POS, 0, &[1]),
        ("-2.5", 2, 0, NUMERIC_NEG, 1, &[2, 5000]),
    ];
    for (text, ndigits, weight, sign, dscale, groups) in cases {
        let d = dec(text);
        let enc = to_pg_binary(&d);
        assert_eq!(
            i16::from_be_bytes([enc[0], enc[1]]),
            *ndigits,
            "ndigits {text}"
        );
        assert_eq!(
            i16::from_be_bytes([enc[2], enc[3]]),
            *weight,
            "weight {text}"
        );
        assert_eq!(u16::from_be_bytes([enc[4], enc[5]]), *sign, "sign {text}");
        assert_eq!(
            u16::from_be_bytes([enc[6], enc[7]]),
            *dscale,
            "dscale {text}"
        );
        let got: Vec<u16> = enc[8..]
            .chunks(2)
            .map(|c| u16::from_be_bytes([c[0], c[1]]))
            .collect();
        assert_eq!(got, *groups, "digits {text}");
        // Round-trip preserves value and display scale.
        let back = from_pg_binary(&enc).unwrap();
        assert_eq!(back, d, "value {text}");
        assert_eq!(format_numeric(&back), format_numeric(&d), "scale {text}");
    }
}

#[test]
fn pg_binary_round_trips_many_values() {
    // Deterministic spread of mantissas/scales (no RNG in tests).
    for mantissa in [0_i128, 1, -1, 7, 123, -4096, 999999, -1000000, 271828182] {
        for scale in [0_u32, 1, 2, 4, 5, 9] {
            let d = Decimal::from_parts(mantissa < 0, mantissa.unsigned_abs(), scale).unwrap();
            let back = from_pg_binary(&to_pg_binary(&d)).unwrap();
            assert_eq!(back, d, "value m={mantissa} s={scale}");
            assert_eq!(
                format_numeric(&back),
                format_numeric(&d),
                "scale m={mantissa} s={scale}"
            );
        }
    }
}

#[test]
fn from_pg_binary_rejects_nan_and_malformed() {
    let nan = [0, 0, 0, 0, 0xC0, 0x00, 0, 0]; // sign = NUMERIC_NAN
    assert_eq!(from_pg_binary(&nan), None);
    assert_eq!(from_pg_binary(&[0, 1]), None); // too short
    // ndigits says 1 group but no group bytes follow.
    assert_eq!(from_pg_binary(&[0, 1, 0, 0, 0, 0, 0, 0]), None);
}

#[test]
fn apply_typmod_rounds_pads_and_overflows() {
    let d = |s: &str| dec(s);
    // Unconstrained: unchanged.
    assert_eq!(apply_typmod(d("1.239"), None, 0), Some(d("1.239")));
    // NUMERIC(10,2): rounds half-away-from-zero and pads to scale 2.
    assert_eq!(
        format_numeric(&apply_typmod(d("1.239"), Some(10), 2).unwrap()),
        "1.24"
    );
    assert_eq!(
        format_numeric(&apply_typmod(d("1.005"), Some(10), 2).unwrap()),
        "1.01"
    );
    assert_eq!(
        format_numeric(&apply_typmod(d("1"), Some(10), 2).unwrap()),
        "1.00"
    );
    assert_eq!(
        format_numeric(&apply_typmod(d("-2.5"), Some(4), 0).unwrap()),
        "-3"
    ); // ties away
    // Overflow: NUMERIC(4,2) allows |v| < 100.
    assert_eq!(
        format_numeric(&apply_typmod(d("99.99"), Some(4), 2).unwrap()),
        "99.99"
    );
    assert_eq!(apply_typmod(d("100"), Some(4), 2), None);
    assert_eq!(apply_typmod(d("-100"), Some(4), 2), None);
    // NUMERIC(2,2): only |v| < 1.
    assert_eq!(
        format_numeric(&apply_typmod(d("0.99"), Some(2), 2).unwrap()),
        "0.99"
    );
    assert_eq!(apply_typmod(d("1.00"), Some(2), 2), None);
}

#[test]
fn round_half_away_from_zero_matches_postgres() {
    let two = |s: &str| format_numeric(&apply_typmod(dec(s), Some(10), 2).unwrap());
    assert_eq!(two("1.005"), "1.01");
    assert_eq!(two("2.675"), "2.68");
    assert_eq!(two("-1.005"), "-1.01");
}

#[test]
fn admitted_numbers_stay() {
    for (text, precision, scale) in [("1.239", 10, 2), ("1", 28, 27), ("-0.004", 4, 2)] {
        let admitted = apply_typmod(dec(text), Some(precision), scale).unwrap();
        let again = apply_typmod(admitted, Some(precision), scale).unwrap();
        assert_eq!(format_numeric(&again), format_numeric(&admitted));
    }
}

#[test]
fn integers_convert_both_ways() {
    for n in [0, 1, -1, i64::MAX, i64::MIN] {
        assert_eq!(to_i64_rounded(&from_i64(n)), Some(n));
    }
    assert_eq!(to_i64_rounded(&dec("2.5")), Some(3));
    assert_eq!(to_i64_rounded(&dec("-2.5")), Some(-3));
    assert_eq!(to_i64_rounded(&dec("9223372036854775808")), None);
}

#[test]
fn texts_of_decimals_read_back() {
    for text in ["0", "0.00", "1.50", "-0.001", "79228162514264337593543950335"] {
        let decimal = parse_numeric(text).unwrap();
        assert_eq!(format_numeric(&decimal), text);
        let back = parse_numeric(&format_numeric(&decimal)).unwrap();
        assert_eq!((back.magnitude(), back.scale()), (decimal.magnitude(), decimal.scale()));
    }
}

#[test]
fn decimals_beyond_the_limits_are_refused() {
    assert!(Decimal::from_parts(false, 1 << 96, 0).is_none());
    assert!(Decimal::from_parts(false, 1, 29).is_none());
    assert_eq!(parse_numeric("79228162514264337593543950336"), None);
}

#[test]
fn wire_sums_carry_between_groups() {
    // Groups of four digits on both sides of the point.
    let encoded = [0, 3, 0, 1, 0, 0, 0, 3, 0, 1, 9, 41, 26, 124];
    assert_eq!(format_numeric(&from_pg_binary(&encoded).unwrap()), "12345.678");
}
