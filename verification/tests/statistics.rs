use std::collections::BTreeMap;

use saguaro_common::{
    value_is_finite, ColumnStatistics, NDistinct, OrderedF32, OrderedF64, TableStatistics, Value,
};

fn f64_of(value: f64) -> OrderedF64 {
    OrderedF64::new(value.to_bits())
}

fn f32_of(value: f32) -> OrderedF32 {
    OrderedF32::new(value.to_bits())
}

/// One column exercising every float-carrying field, all finite.
fn finite_statistics() -> TableStatistics {
    TableStatistics {
        row_count: 100,
        page_count: 2,
        columns: BTreeMap::from([(
            0,
            ColumnStatistics {
                null_frac: f64_of(0.5),
                avg_width: 8,
                n_distinct: NDistinct::Fraction(f64_of(0.1)),
                most_common: vec![
                    (Value::Float(f64_of(1.5)), f64_of(0.5)),
                    (Value::Real(f32_of(2.5)), f64_of(0.25)),
                ],
                histogram_bounds: vec![
                    Value::Float(f64_of(-3.0)),
                    Value::Real(f32_of(3.0)),
                ],
            },
        )]),
    }
}

fn column(stats: &mut TableStatistics) -> &mut ColumnStatistics {
    stats.columns.get_mut(&0).unwrap()
}

#[test]
fn finite_statistics_are_finite() {
    assert!(finite_statistics().is_finite());
}

#[test]
fn each_non_finite_field_is_detected() {
    let mut stats = finite_statistics();
    column(&mut stats).null_frac = f64_of(f64::NAN);
    assert!(!stats.is_finite(), "NaN null_frac");

    let mut stats = finite_statistics();
    column(&mut stats).n_distinct = NDistinct::Fraction(f64_of(f64::INFINITY));
    assert!(!stats.is_finite(), "infinite n_distinct fraction");

    let mut stats = finite_statistics();
    column(&mut stats).most_common[0].1 = f64_of(f64::NAN);
    assert!(!stats.is_finite(), "NaN MCV frequency");

    let mut stats = finite_statistics();
    column(&mut stats).most_common[0].0 = Value::Float(f64_of(f64::NEG_INFINITY));
    assert!(!stats.is_finite(), "non-finite Float MCV value");

    let mut stats = finite_statistics();
    column(&mut stats).most_common[1].0 = Value::Real(f32_of(f32::NAN));
    assert!(!stats.is_finite(), "non-finite Real MCV value");

    let mut stats = finite_statistics();
    column(&mut stats).histogram_bounds[0] = Value::Float(f64_of(f64::INFINITY));
    assert!(!stats.is_finite(), "non-finite Float histogram bound");

    let mut stats = finite_statistics();
    column(&mut stats).histogram_bounds[1] = Value::Real(f32_of(f32::NEG_INFINITY));
    assert!(!stats.is_finite(), "non-finite Real histogram bound");
}

#[test]
fn statistics_are_compared_field_by_field() {
    assert!(finite_statistics() == finite_statistics());
    let mut stats = finite_statistics();
    column(&mut stats).avg_width = 9;
    assert!(stats != finite_statistics());
    assert!(value_is_finite(&Value::Integer(1)));
    assert!(!value_is_finite(&Value::Float(f64_of(f64::NAN))));
}
