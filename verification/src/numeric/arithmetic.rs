//! Rounding, rescaling, adding and multiplying decimals, and their text. The
//! arithmetic itself is that of the `rust_decimal` crate.

use vstd::prelude::*;

use crate::numeric::{self, Decimal, DecimalView};
use crate::order::Order;
use crate::text;

verus! {

impl DecimalView {
    /// Zero with a minus sign.
    pub open spec fn is_negative_zero(self) -> bool {
        self.negative && self.magnitude == 0
    }

    /// The number `n` without digits after the decimal point.
    pub open spec fn whole(n: int) -> DecimalView {
        DecimalView {
            negative: n < 0,
            magnitude: if n < 0 {
                (-n) as nat
            } else {
                n as nat
            },
            scale: 0,
        }
    }

    /// Rounded to `places` digits after the decimal point, halves away from zero.
    /// A number that has no more digits than that stays as it is.
    pub open spec fn round_to(self, places: nat) -> DecimalView {
        if self.scale <= places {
            self
        } else if self.magnitude == 0 {
            DecimalView { scale: places, ..self }
        } else {
            let magnitude = dropped(self.magnitude, (self.scale - places) as nat);
            DecimalView { negative: self.negative && magnitude != 0, magnitude, scale: places }
        }
    }

    /// With `scale` digits after the decimal point, or as many as fit: dropped digits
    /// round the rest, halves away from zero, and zeros are appended as long as the
    /// magnitude has room for them.
    pub open spec fn rescaled(self, scale: nat) -> DecimalView {
        if self.scale == scale || self.magnitude == 0 {
            DecimalView { scale, ..self }
        } else if self.scale > scale {
            DecimalView {
                magnitude: dropped(self.magnitude, (self.scale - scale) as nat),
                scale,
                ..self
            }
        } else {
            let places = room(self.magnitude, (scale - self.scale) as nat);
            DecimalView {
                magnitude: self.magnitude * numeric::pow10(places),
                scale: self.scale + places,
                ..self
            }
        }
    }

    /// The magnitude in units of the place `scale`, for a scale that is not smaller.
    pub open spec fn units(self, scale: nat) -> nat {
        self.magnitude * numeric::pow10((scale - self.scale) as nat)
    }

    /// The greater of two scales.
    pub open spec fn common_scale(self, other: DecimalView) -> nat {
        if self.scale >= other.scale {
            self.scale
        } else {
            other.scale
        }
    }
}

/// A magnitude without its last `places` digits, rounded up from half on.
pub open spec fn dropped(magnitude: nat, places: nat) -> nat {
    let unit = numeric::pow10(places);
    (magnitude + unit / 2) / unit
}

/// How many zeros, up to `places`, can be appended to a magnitude.
pub open spec fn room(magnitude: nat, places: nat) -> nat
    decreases places,
{
    if places == 0 || magnitude * 10 > numeric::MAX_MAGNITUDE {
        0
    } else {
        1 + room(magnitude * 10, (places - 1) as nat)
    }
}

/// `rust_decimal::Decimal::round_dp_with_strategy` with `MidpointAwayFromZero` keeps a
/// number with at most `places` digits after the point and otherwise rounds to that
/// many, halves away from zero; a number that is rounded to zero loses its sign.
#[verifier::external_body]
fn round_half_away(value: &Decimal, places: u32) -> (rounded: Decimal)
    ensures
        rounded@ == value@.round_to(places as nat),
{
    let mut inner = rust_decimal::Decimal::from_i128_with_scale(value.magnitude as i128, value.scale);
    inner.set_sign_negative(value.negative);
    let away = rust_decimal::RoundingStrategy::MidpointAwayFromZero;
    let result = inner.round_dp_with_strategy(places, away);
    Decimal {
        negative: result.is_sign_negative(),
        magnitude: result.mantissa().unsigned_abs(),
        scale: result.scale(),
    }
}

/// `rust_decimal::Decimal::rescale` gives a number the wanted scale, or the greatest
/// one below it with which the magnitude still fits. Dropped digits round the rest,
/// halves away from zero, and the sign stays.
#[verifier::external_body]
pub(crate) fn rescale(value: &Decimal, scale: u32) -> (result: Decimal)
    requires
        scale <= numeric::MAX_SCALE,
    ensures
        result@ == value@.rescaled(scale as nat),
{
    let mut inner = rust_decimal::Decimal::from_i128_with_scale(value.magnitude as i128, value.scale);
    inner.set_sign_negative(value.negative);
    inner.rescale(scale);
    Decimal {
        negative: inner.is_sign_negative(),
        magnitude: inner.mantissa().unsigned_abs(),
        scale: inner.scale(),
    }
}

/// What `rust_decimal::Decimal::checked_add` returns.
pub uninterp spec fn decimal_sum(a: DecimalView, b: DecimalView) -> Option<DecimalView>;

/// `rust_decimal::Decimal::checked_add`. Adding to zero gives the other number, and
/// adding zero changes nothing. Numbers of one sign are aligned to the greater scale
/// and added exactly where the sum fits; with no digits after the point a sum that
/// does not fit is `None`. What is left open is the other sums: with different signs,
/// and those that are rounded to fit.
#[verifier::external_body]
pub(crate) fn checked_add(a: &Decimal, b: &Decimal) -> (sum: Option<Decimal>)
    ensures
        match sum {
            Some(sum) => decimal_sum(a@, b@) == Some(sum@),
            None => decimal_sum(a@, b@) is None,
        },
        a@.magnitude == 0 ==> sum is Some && sum->0@ == b@,
        a@.magnitude != 0 && b@.magnitude == 0 ==> sum is Some && sum->0@ == a@,
        a@.magnitude != 0 && b@.magnitude != 0 && a@.negative == b@.negative && a@.units(
            a@.common_scale(b@),
        ) + b@.units(a@.common_scale(b@)) <= numeric::MAX_MAGNITUDE ==> sum is Some && sum->0@ == (
        DecimalView {
            negative: a@.negative,
            magnitude: a@.units(a@.common_scale(b@)) + b@.units(a@.common_scale(b@)),
            scale: a@.common_scale(b@),
        }),
        a@.negative == b@.negative && a@.scale == 0 && b@.scale == 0 && a@.magnitude + b@.magnitude
            > numeric::MAX_MAGNITUDE ==> sum is None,
{
    let mut left = rust_decimal::Decimal::from_i128_with_scale(a.magnitude as i128, a.scale);
    left.set_sign_negative(a.negative);
    let mut right = rust_decimal::Decimal::from_i128_with_scale(b.magnitude as i128, b.scale);
    right.set_sign_negative(b.negative);
    match left.checked_add(right) {
        Some(sum) => Some(
            Decimal {
                negative: sum.is_sign_negative(),
                magnitude: sum.mantissa().unsigned_abs(),
                scale: sum.scale(),
            },
        ),
        None => None,
    }
}

/// The product of two numbers where it needs no rounding: it is exact if its magnitude
/// fits, and zero is always written as `0`.
pub open spec fn exact_product(a: DecimalView, b: DecimalView) -> Option<DecimalView> {
    if a.magnitude == 0 || b.magnitude == 0 {
        Some(DecimalView::whole(0))
    } else if a.magnitude * b.magnitude <= numeric::MAX_MAGNITUDE {
        Some(
            DecimalView {
                negative: a.negative != b.negative,
                magnitude: a.magnitude * b.magnitude,
                scale: a.scale + b.scale,
            },
        )
    } else {
        None
    }
}

/// `rust_decimal::Decimal::checked_mul`, for factors whose scales add up to a scale
/// that a decimal can have and whose product fits or has no digits after the point:
/// the product is then exact, and `None` where it does not fit.
#[verifier::external_body]
pub(crate) fn checked_mul(a: &Decimal, b: &Decimal) -> (product: Option<Decimal>)
    requires
        a@.scale + b@.scale <= numeric::MAX_SCALE,
        a@.magnitude * b@.magnitude <= numeric::MAX_MAGNITUDE || a@.scale + b@.scale == 0,
    ensures
        match product {
            Some(product) => exact_product(a@, b@) == Some(product@),
            None => exact_product(a@, b@) is None,
        },
{
    let mut left = rust_decimal::Decimal::from_i128_with_scale(a.magnitude as i128, a.scale);
    left.set_sign_negative(a.negative);
    let mut right = rust_decimal::Decimal::from_i128_with_scale(b.magnitude as i128, b.scale);
    right.set_sign_negative(b.negative);
    match left.checked_mul(right) {
        Some(product) => Some(
            Decimal {
                negative: product.is_sign_negative(),
                magnitude: product.mantissa().unsigned_abs(),
                scale: product.scale(),
            },
        ),
        None => None,
    }
}

/// Exact `i64` -> `Decimal`.
pub fn from_i64(value: i64) -> (decimal: Decimal)
    ensures
        decimal@ == DecimalView::whole(value as int),
{
    let wide: i128 = value as i128;
    if wide < 0 {
        Decimal::of_parts(true, (-wide) as u128, 0)
    } else {
        Decimal::of_parts(false, wide as u128, 0)
    }
}

/// The integer that a number is when it is rounded, halves away from zero.
pub open spec fn rounded_integer(value: DecimalView) -> int {
    let rounded = value.round_to(0);
    if rounded.negative {
        -(rounded.magnitude as int)
    } else {
        rounded.magnitude as int
    }
}

/// `Decimal` -> `i64`, rounding ties away from zero (PostgreSQL's `numeric`
/// rounding), or `None` if the rounded value is out of `i64` range.
pub fn to_i64_rounded(value: &Decimal) -> (n: Option<i64>)
    ensures
        match n {
            Some(n) => n == rounded_integer(value@),
            None => rounded_integer(value@) < i64::MIN || rounded_integer(value@) > i64::MAX,
        },
{
    let rounded: Decimal = round_half_away(value, 0);
    let magnitude: i128 = rounded.magnitude() as i128;
    let n: i128 = if rounded.is_sign_negative() {
        -magnitude
    } else {
        magnitude
    };
    if n < i64::MIN as i128 || n > i64::MAX as i128 {
        None
    } else {
        Some(n as i64)
    }
}

/// An integer comes back from the decimal that it is.
pub proof fn integers_come_back(n: int)
    ensures
        rounded_integer(DecimalView::whole(n)) == n,
{
}

/// What `NUMERIC(precision, scale)` makes of a number.
pub open spec fn with_typmod(value: DecimalView, precision: Option<u32>, scale: u32) -> Option<
    DecimalView,
> {
    match precision {
        None => Some(value),
        Some(precision) => {
            let rounded = value.round_to(scale as nat);
            let whole_digits = (precision - scale) as nat;
            let kept = if scale <= numeric::MAX_SCALE {
                scale
            } else {
                numeric::MAX_SCALE
            };
            if whole_digits > numeric::MAX_SCALE || rounded.magnitude >= numeric::pow10(
                whole_digits + rounded.scale,
            ) {
                None
            } else {
                Some(rounded.rescaled(kept as nat))
            }
        },
    }
}

/// Coerce a value to a `NUMERIC` type modifier. For unconstrained `NUMERIC`
/// (`precision` is `None`) the value is returned unchanged. For `NUMERIC(p, s)`
/// the value is rounded to `scale` fractional digits (round-half-away-from-zero,
/// matching PostgreSQL) and padded to exactly `scale`; `None` is returned when
/// the integer part no longer fits `precision - scale` digits (an overflow the
/// caller maps to `NumericValueOutOfRange`). `scale <= precision` is assumed
/// (enforced when the type is parsed).
pub fn apply_typmod(value: Decimal, precision: Option<u32>, scale: u32) -> (coerced: Option<
    Decimal,
>)
    requires
        precision is Some ==> scale <= precision->0,
    ensures
        match coerced {
            Some(coerced) => with_typmod(value@, precision, scale) == Some(coerced@),
            None => with_typmod(value@, precision, scale) is None,
        },
{
    let precision: u32 = match precision {
        Some(precision) => precision,
        None => return Some(value),
    };
    let rounded: Decimal = round_half_away(&value, scale);
    let whole_digits: u32 = precision - scale;
    if whole_digits > numeric::MAX_SCALE {
        return None;
    }
    let limit: Decimal = Decimal::of_parts(false, limit_of(whole_digits), 0);
    let size: Decimal = Decimal::of_parts(false, rounded.magnitude(), rounded.scale());
    let over: bool = match size.order(&limit) {
        Order::Less => false,
        _ => true,
    };
    proof {
        lemma_over_limit(size@, whole_digits as nat);
    }
    if over {
        return None;
    }
    let kept: u32 = if scale <= numeric::MAX_SCALE {
        scale
    } else {
        numeric::MAX_SCALE
    };
    Some(rescale(&rounded, kept))
}

fn limit_of(digits: u32) -> (limit: u128)
    requires
        digits <= numeric::MAX_SCALE,
    ensures
        limit == numeric::pow10(digits as nat),
        limit <= numeric::MAX_MAGNITUDE,
{
    numeric::power_of_ten(digits)
}

/// A number reaches a power of ten where its magnitude does.
proof fn lemma_over_limit(size: DecimalView, digits: nat)
    requires
        size.valid(),
        !size.negative,
        digits <= 28,
    ensures
        size.key() >= (DecimalView {
            negative: false,
            magnitude: numeric::pow10(digits),
            scale: 0,
        }).key() <==> size.magnitude >= numeric::pow10(digits + size.scale),
{
    let m = size.magnitude as int;
    let u = numeric::pow10((28 - size.scale) as nat) as int;
    let s = numeric::pow10(size.scale) as int;
    let d = numeric::pow10(digits) as int;
    numeric::lemma_pow10_add(size.scale, (28 - size.scale) as nat);
    numeric::lemma_pow10_add(digits, size.scale);
    numeric::lemma_pow10_monotonic((28 - size.scale) as nat, 28);
    assert(size.scale + (28 - size.scale) as nat == 28);
    assert(d * (s * u) == (d * s) * u) by (nonlinear_arith);
    assert(m * u >= (d * s) * u <==> m >= d * s) by (nonlinear_arith)
        requires
            u > 0,
    ;
}

/// A number that `NUMERIC(p, s)` admits, for the precisions that there are, has
/// exactly `s` digits after the point, and padding does not change its value.
pub proof fn typmod_gives_the_scale(value: DecimalView, precision: u32, scale: u32)
    requires
        value.valid(),
        scale <= precision <= numeric::MAX_SCALE,
        with_typmod(value, Some(precision), scale) is Some,
    ensures
        with_typmod(value, Some(precision), scale)->0.scale == scale,
        with_typmod(value, Some(precision), scale)->0.key() == value.round_to(scale as nat).key(),
        with_typmod(value, Some(precision), scale)->0.valid(),
{
    let rounded = value.round_to(scale as nat);
    let whole_digits = (precision - scale) as nat;
    numeric::lemma_pow10_values();
    numeric::lemma_pow10_monotonic(whole_digits + rounded.scale, precision as nat);
    numeric::lemma_pow10_monotonic(precision as nat, 28);
    if rounded.magnitude == 0 {
        assert(0 * numeric::pow10((28 - scale) as nat) == 0);
        assert(0 * numeric::pow10((28 - rounded.scale) as nat) == 0);
    } else if rounded.scale < scale {
        let places = (scale - rounded.scale) as nat;
        numeric::lemma_pow10_add(whole_digits + rounded.scale, places);
        assert(whole_digits + rounded.scale + places == precision as nat);
        let m = rounded.magnitude as int;
        let p = numeric::pow10(places) as int;
        let q = numeric::pow10(whole_digits + rounded.scale) as int;
        numeric::lemma_pow10_monotonic(places, places);
        assert(m * p <= q * p) by (nonlinear_arith)
            requires
                m < q,
                p > 0,
        ;
        lemma_room(rounded.magnitude, places);
        let rest = numeric::pow10((28 - scale) as nat) as int;
        numeric::lemma_pow10_add(places, (28 - scale) as nat);
        assert(places + (28 - scale) as nat == (28 - rounded.scale) as nat);
        assert((m * p) * rest == m * (p * rest)) by (nonlinear_arith);
    }
}

/// A number that `NUMERIC(p, s)` has admitted is admitted again, and stays as it is.
pub proof fn admitted_numbers_stay(value: DecimalView, precision: u32, scale: u32)
    requires
        value.valid(),
        scale <= precision <= numeric::MAX_SCALE,
        with_typmod(value, Some(precision), scale) is Some,
    ensures
        with_typmod(
            with_typmod(value, Some(precision), scale)->0,
            Some(precision),
            scale,
        ) == with_typmod(value, Some(precision), scale),
{
    let rounded = value.round_to(scale as nat);
    let admitted = with_typmod(value, Some(precision), scale)->0;
    let whole_digits = (precision - scale) as nat;
    typmod_gives_the_scale(value, precision, scale);
    numeric::lemma_pow10_monotonic(0, precision as nat);
    assert(whole_digits + scale as nat == precision as nat);
    if rounded.magnitude != 0 && rounded.scale < scale {
        let places = (scale - rounded.scale) as nat;
        numeric::lemma_pow10_add(whole_digits + rounded.scale, places);
        numeric::lemma_pow10_monotonic(precision as nat, 28);
        numeric::lemma_pow10_values();
        numeric::lemma_pow10_monotonic(0, places);
        let m = rounded.magnitude as int;
        let p = numeric::pow10(places) as int;
        let q = numeric::pow10(whole_digits + rounded.scale) as int;
        assert(m * p < q * p) by (nonlinear_arith)
            requires
                m < q,
                p > 0,
        ;
        lemma_room(rounded.magnitude, places);
    }
}

/// Zeros can be appended as long as the result fits.
pub proof fn lemma_room(magnitude: nat, places: nat)
    requires
        magnitude * numeric::pow10(places) <= numeric::MAX_MAGNITUDE,
    ensures
        room(magnitude, places) == places,
    decreases places,
{
    if places > 0 {
        let rest = numeric::pow10((places - 1) as nat);
        numeric::lemma_pow10_monotonic((places - 1) as nat, places);
        assert(magnitude * (10 * rest) == (magnitude * 10) * rest) by (nonlinear_arith);
        assert(magnitude * 10 <= (magnitude * 10) * rest) by (nonlinear_arith)
            requires
                rest >= 1,
        ;
        lemma_room(magnitude * 10, (places - 1) as nat);
    }
}

/// A decimal as text: a minus sign if it has one, the digits before the point, and a
/// point and the digits behind it unless there are none.
pub open spec fn numeric_text(value: DecimalView) -> Seq<char> {
    let unit = numeric::pow10(value.scale);
    let sign = if value.negative {
        seq!['-']
    } else {
        Seq::empty()
    };
    let whole = sign + text::decimal_text(value.magnitude / unit);
    if value.scale == 0 {
        whole
    } else {
        whole + seq!['.'] + text::zero_padded(value.magnitude % unit, value.scale as int)
    }
}

/// There is no white space around the text of a decimal.
pub proof fn numeric_text_is_trimmed(value: DecimalView)
    ensures
        text::trimmed(numeric_text(value)) == numeric_text(value),
{
    let s = numeric_text(value);
    let unit = numeric::pow10(value.scale);
    let whole = text::decimal_text(value.magnitude / unit);
    text::lemma_decimal_text_denotes(value.magnitude / unit);
    assert(text::digit_like(whole[0]));
    assert(text::digit_like(whole[whole.len() - 1]));
    if value.negative {
        assert(s[0] == '-');
    } else {
        assert(s[0] == whole[0]);
    }
    if value.scale == 0 {
        assert(s.last() == whole.last());
    } else {
        let rest = text::zero_padded(value.magnitude % unit, value.scale as int);
        text::lemma_zero_padded_denotes(value.magnitude % unit, value.scale as int);
        assert(text::digit_like(rest[rest.len() - 1]));
        assert(s.last() == rest.last());
    }
    text::lemma_trimmed_is_itself(s);
}

/// Format a decimal as text, preserving its scale (trailing zeros are kept, so a
/// value with scale 2 renders like `"1.50"`).
pub fn format_numeric(value: &Decimal) -> (text: String)
    ensures
        text@ == numeric_text(value@),
{
    let mut out: String = String::new();
    let magnitude: u128 = value.magnitude();
    let scale: u32 = value.scale();
    let unit: u128 = numeric::power_of_ten(scale);
    if value.is_sign_negative() {
        out.push('-');
    }
    text::push_decimal(&mut out, magnitude / unit);
    if scale != 0 {
        out.push('.');
        text::push_zero_padded(&mut out, magnitude % unit, scale as usize);
    }
    assert(out@ =~= numeric_text(value@));
    out
}

/// What `rust_decimal::Decimal::from_str_exact` makes of a text.
pub uninterp spec fn exact_decimal(text: Seq<char>) -> Option<DecimalView>;

/// What `rust_decimal::Decimal::from_scientific` makes of a text.
pub uninterp spec fn scientific_decimal(text: Seq<char>) -> Option<DecimalView>;

/// `rust_decimal::Decimal::from_str_exact` depends on the text alone, and it reads the
/// rendering of every decimal but zero with a minus sign back as that decimal.
#[verifier::external_body]
fn parse_exact(text: &str) -> (decimal: Option<Decimal>)
    ensures
        match decimal {
            Some(decimal) => exact_decimal(text@) == Some(decimal@),
            None => exact_decimal(text@) is None,
        },
        forall|value: DecimalView|
            value.valid() && !value.is_negative_zero() && text@ == #[trigger] numeric_text(value)
                ==> decimal is Some && decimal->0@ == value,
{
    match rust_decimal::Decimal::from_str_exact(text) {
        Ok(inner) => Some(
            Decimal {
                negative: inner.is_sign_negative(),
                magnitude: inner.mantissa().unsigned_abs(),
                scale: inner.scale(),
            },
        ),
        Err(_) => None,
    }
}

/// `rust_decimal::Decimal::from_scientific` depends on the text alone.
#[verifier::external_body]
fn parse_scientific(text: &str) -> (decimal: Option<Decimal>)
    ensures
        match decimal {
            Some(decimal) => scientific_decimal(text@) == Some(decimal@),
            None => scientific_decimal(text@) is None,
        },
{
    match rust_decimal::Decimal::from_scientific(text) {
        Ok(inner) => Some(
            Decimal {
                negative: inner.is_sign_negative(),
                magnitude: inner.mantissa().unsigned_abs(),
                scale: inner.scale(),
            },
        ),
        Err(_) => None,
    }
}

/// The decimal that a text denotes, in plain or else in scientific notation.
pub open spec fn decimal_of_text(text: Seq<char>) -> Option<DecimalView> {
    let inner = text::trimmed(text);
    match exact_decimal(inner) {
        Some(value) => Some(value),
        None => scientific_decimal(inner),
    }
}

/// Parse a decimal from text (plain or scientific notation). Surrounding
/// whitespace is ignored. Returns `None` for malformed input or a magnitude that
/// does not fit `Decimal`. What the two notations are is left to the parsers of the
/// decimal crate, but for the text of a decimal, which gives back that decimal.
pub fn parse_numeric(text: &str) -> (decimal: Option<Decimal>)
    ensures
        match decimal {
            Some(decimal) => decimal_of_text(text@) == Some(decimal@),
            None => decimal_of_text(text@) is None,
        },
        forall|value: DecimalView|
            value.valid() && !value.is_negative_zero() && text::trimmed(text@)
                == #[trigger] numeric_text(value) ==> decimal is Some && decimal->0@ == value,
{
    let chars: Vec<char> = text::chars_of(text);
    let inner: String = text::string_of(text::trim(&chars));
    match parse_exact(&inner) {
        Some(decimal) => Some(decimal),
        None => parse_scientific(&inner),
    }
}

} // verus!
