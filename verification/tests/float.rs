use std::cmp::Ordering;
use std::collections::hash_map::DefaultHasher;
use std::hash::{Hash, Hasher};

use saguaro_common::{float_text, OrderedF32, OrderedF64};

fn of(value: f64) -> OrderedF64 {
    OrderedF64::new(value.to_bits())
}

fn format_double(value: f64) -> String {
    float_text::format_double(of(value), &format!("{value:e}"), &format!("{value}")).unwrap()
}

fn parse_double(text: &str) -> Option<f64> {
    text.trim().parse::<f64>().ok()
}

fn hash_of(value: f64) -> u64 {
    let mut hasher = DefaultHasher::new();
    of(value).hash(&mut hasher);
    hasher.finish()
}

#[test]
fn total_order_places_nan_last_and_equal_to_itself() {
    let mut values = [
        of(1.0),
        of(f64::NAN),
        of(-1.0),
        of(f64::INFINITY),
        of(f64::NEG_INFINITY),
    ];
    values.sort_by(|a, b| a.partial_cmp(b).unwrap());
    let ordered: Vec<f64> = values.iter().map(|v| f64::from_bits(v.get())).collect();
    assert_eq!(ordered[0], f64::NEG_INFINITY);
    assert_eq!(ordered[1], -1.0);
    assert_eq!(ordered[2], 1.0);
    assert_eq!(ordered[3], f64::INFINITY);
    assert!(ordered[4].is_nan()); // NaN sorts last
    assert_eq!(of(f64::NAN), of(f64::NAN)); // reflexive
}

#[test]
fn negative_and_positive_zero_are_equal_and_hash_alike() {
    assert_eq!(of(-0.0), of(0.0));
    assert_eq!(of(-0.0).partial_cmp(&of(0.0)), Some(Ordering::Equal));
    assert_eq!(hash_of(-0.0), hash_of(0.0));
}

#[test]
fn equal_values_hash_alike() {
    assert_eq!(hash_of(3.5), hash_of(3.5));
    assert_eq!(hash_of(f64::NAN), hash_of(f64::NAN));
}

#[test]
fn format_handles_finite_and_non_finite() {
    assert_eq!(format_double(42.0), "42");
    assert_eq!(format_double(1.5), "1.5");
    assert_eq!(format_double(-0.25), "-0.25");
    assert_eq!(format_double(-0.0), "-0"); // sign of zero preserved
    assert_eq!(format_double(f64::INFINITY), "Infinity");
    assert_eq!(format_double(f64::NEG_INFINITY), "-Infinity");
    assert_eq!(format_double(f64::NAN), "NaN");
}

#[test]
fn format_uses_scientific_only_for_extreme_exponents() {
    // Moderate magnitudes stay fixed-point (no pathological expansions).
    assert_eq!(format_double(100000.0), "100000");
    assert_eq!(format_double(0.0001), "0.0001");
    assert_eq!(format_double(1e15), "1000000000000000");
    // Extreme exponents use scientific notation spelled `e+/-NN`.
    assert_eq!(format_double(1e16), "1e+16");
    assert_eq!(format_double(1e308), "1e+308");
    assert_eq!(format_double(1e-5), "1e-05");
    assert_eq!(format_double(-2.5e-300), "-2.5e-300");
    // ...and these still round-trip exactly.
    for value in [1e16, 1e308, 1e-5, 5e-324, -2.5e-300] {
        assert_eq!(parse_double(&format_double(value)), Some(value));
    }
}

#[test]
fn finite_values_round_trip_through_format() {
    for value in [0.0, 1.0, -1.0, 9.876543210987654, 1e-300, 1e300, 123456.789] {
        assert_eq!(parse_double(&format_double(value)), Some(value));
    }
}

#[test]
fn format_needs_an_exponent() {
    assert_eq!(float_text::format_double(of(1.5), "1.5", "1.5"), None);
    assert_eq!(float_text::format_double(of(1.5), "1.5ex", "1.5"), None);
}

#[test]
fn single_precision_numbers_are_ordered_alike() {
    let of = |value: f32| OrderedF32::new(value.to_bits());
    assert!(of(f32::NEG_INFINITY) < of(-1.0));
    assert!(of(-1.0) < of(0.5));
    assert!(of(f32::INFINITY) < of(f32::NAN));
    assert_eq!(of(-0.0), of(0.0));
    assert_eq!(of(f32::NAN), of(-f32::NAN));
    assert!(of(1.0).is_finite() && !of(f32::NAN).is_finite() && of(f32::NAN).is_nan());
}
