//! What rounding, type modifiers and texts of decimals mean for their values.

use vstd::arithmetic::power::pow;
use vstd::prelude::*;

use crate::numeric::arithmetic::{self, numeric_text, rounded_integer, with_typmod};
use crate::numeric::{self, DecimalView};
use crate::text;

verus! {

/// The number of units of the last place, with its sign.
pub open spec fn signed(value: DecimalView) -> int {
    if value.negative {
        -(value.magnitude as int)
    } else {
        value.magnitude as int
    }
}

pub(crate) proof fn lemma_power(n: nat)
    ensures
        numeric::pow10(n) == pow(10, n),
        pow(10, n) > 0,
    decreases n,
{
    reveal(pow);
    if n > 0 {
        lemma_power((n - 1) as nat);
    }
}

proof fn lemma_dropped(magnitude: nat, places: nat)
    requires
        places > 0,
    ensures
        ({
            let (m, r, u) = (
                magnitude as int,
                arithmetic::dropped(magnitude, places) as int,
                pow(10, places),
            );
            (2 * r - 1) * u <= 2 * m < (2 * r + 1) * u
        }),
{
    lemma_power(places);
    let u = numeric::pow10(places) as int;
    let m = magnitude as int;
    reveal(pow);
    assert(u == 10 * pow(10, (places - 1) as nat));
    assert(u % 2 == 0 && u > 0);
    let h = u / 2;
    let r = arithmetic::dropped(magnitude, places) as int;
    vstd::arithmetic::div_mod::lemma_fundamental_div_mod(m + h, u);
    vstd::arithmetic::div_mod::lemma_mod_bound(m + h, u);
    let rest = (m + h) % u;
    assert((2 * r - 1) * u <= 2 * m < (2 * r + 1) * u) by (nonlinear_arith)
        requires
            m + h == u * r + rest,
            0 <= rest < u,
            u == 2 * h,
    ;
}

/// Rounding to fewer digits gives the nearest number with that many, the one farther
/// from zero of two that are as near, and keeps the sign of what does not become zero; a
/// number with no more digits stays as it is.
pub proof fn rounding_is_to_the_nearest(value: DecimalView, places: nat)
    ensures
        value.scale <= places ==> value.round_to(places) == value,
        value.scale > places ==> {
            let rounded = value.round_to(places);
            let unit = pow(10, (value.scale - places) as nat);
            &&& rounded.scale == places
            &&& (2 * rounded.magnitude - 1) * unit <= 2 * value.magnitude
            &&& 2 * value.magnitude < (2 * rounded.magnitude + 1) * unit
            &&& rounded.magnitude > 0 ==> rounded.negative == value.negative
        },
{
    if value.scale > places {
        let k = (value.scale - places) as nat;
        let unit = pow(10, k);
        lemma_power(k);
        if value.magnitude == 0 {
            assert((2 * 0 - 1) * unit <= 0) by (nonlinear_arith)
                requires
                    unit > 0,
            ;
            assert(0 < (2 * 0 + 1) * unit) by (nonlinear_arith)
                requires
                    unit > 0,
            ;
        } else {
            lemma_dropped(value.magnitude, k);
        }
    }
}

/// The integer that a number is rounded to is the nearest, and of two that are as near
/// the one farther from zero.
pub proof fn rounded_integers_are_nearest(value: DecimalView)
    ensures
        ({
            let n = rounded_integer(value);
            let unit = pow(10, value.scale);
            let twice = 2 * signed(value);
            &&& (2 * n - 1) * unit <= twice <= (2 * n + 1) * unit
            &&& signed(value) > 0 ==> twice < (2 * n + 1) * unit
            &&& signed(value) < 0 ==> (2 * n - 1) * unit < twice
        }),
{
    rounding_is_to_the_nearest(value, 0);
    lemma_power(value.scale);
    let rounded = value.round_to(0);
    let r = rounded.magnitude as int;
    let m = value.magnitude as int;
    let unit = pow(10, value.scale);
    let n = rounded_integer(value);
    if value.scale == 0 {
        reveal(pow);
        assert((2 * n - 1) * unit == 2 * n - 1 && (2 * n + 1) * unit == 2 * n + 1)
            by (nonlinear_arith)
            requires
                unit == 1,
        ;
    } else {
        assert(n == r || n == -r);
        let (low, high) = ((2 * r - 1) * unit, (2 * r + 1) * unit);
        if n == r {
            assert((2 * n - 1) * unit == low && (2 * n + 1) * unit == high);
        } else {
            assert((2 * n - 1) * unit == -high && (2 * n + 1) * unit == -low) by (nonlinear_arith)
                requires
                    n == -r,
                    low == (2 * r - 1) * unit,
                    high == (2 * r + 1) * unit,
            ;
        }
        if r == 0 {
            assert(low == -unit && high == unit) by (nonlinear_arith)
                requires
                    r == 0,
                    low == (2 * r - 1) * unit,
                    high == (2 * r + 1) * unit,
            ;
        }
    }
}

/// `NUMERIC(p, s)` admits a number exactly if, rounded to `s` digits after the point, it
/// lies strictly between minus and plus ten to the power of `p - s`, and makes of it the
/// rounded number; `NUMERIC` admits every number as it is.
pub proof fn typmods_bound_the_whole_digits(value: DecimalView, precision: u32, scale: u32)
    requires
        value.valid(),
        scale <= precision <= 28,
    ensures
        with_typmod(value, None, scale) == Some(value),
        ({
            let rounded = value.round_to(scale as nat);
            let admitted = with_typmod(value, Some(precision), scale);
            let bound = pow(10, (precision - scale) as nat) * pow(10, rounded.scale);
            &&& admitted is Some <==> rounded.magnitude < bound
            &&& admitted is Some ==> {
                &&& admitted->0.scale == scale
                &&& admitted->0.negative == rounded.negative
                &&& admitted->0.magnitude == rounded.magnitude * pow(
                    10,
                    (scale - rounded.scale) as nat,
                )
            }
        }),
{
    let rounded = value.round_to(scale as nat);
    let whole = (precision - scale) as nat;
    lemma_power(whole);
    lemma_power(rounded.scale);
    lemma_power((scale - rounded.scale) as nat);
    numeric::lemma_pow10_add(whole, rounded.scale);
    if with_typmod(value, Some(precision), scale) is Some {
        arithmetic::typmod_gives_the_scale(value, precision, scale);
        let places = (scale - rounded.scale) as nat;
        if rounded.magnitude == 0 {
            assert(0 * pow(10, places) == 0);
        } else if rounded.scale < scale {
            numeric::lemma_pow10_values();
            numeric::lemma_pow10_add(whole + rounded.scale, places);
            numeric::lemma_pow10_monotonic(precision as nat, 28);
            assert(whole + rounded.scale + places == precision as nat);
            let m = rounded.magnitude as int;
            let p = numeric::pow10(places) as int;
            let q = numeric::pow10(whole + rounded.scale) as int;
            assert(m * p <= q * p) by (nonlinear_arith)
                requires
                    m < q,
                    p > 0,
            ;
            arithmetic::lemma_room(rounded.magnitude, places);
        } else {
            reveal(pow);
            assert(rounded.magnitude * 1 == rounded.magnitude);
        }
    }
}

/// The text of a decimal shows its value: a minus sign exactly if it has one, the digits
/// before the point, and a point and as many digits behind it as the scale says; without
/// the point the digits are those of the magnitude.
pub proof fn numeric_texts_show_the_value(value: DecimalView) -> (parts: (Seq<char>, Seq<char>))
    ensures
        ({
            let sign = if value.negative {
                seq!['-']
            } else {
                Seq::<char>::empty()
            };
            let (whole, fraction) = parts;
            &&& whole.len() > 0
            &&& fraction.len() == value.scale
            &&& value.scale == 0 ==> numeric_text(value) == sign + whole
            &&& value.scale > 0 ==> numeric_text(value) == sign + whole + seq!['.'] + fraction
            &&& text::all_digits(whole) && text::all_digits(fraction)
            &&& text::number(whole) * pow(10, value.scale) + text::number(fraction)
                == value.magnitude
            &&& whole.len() > 1 ==> whole[0] != '0'
        }),
{
    let unit = numeric::pow10(value.scale) as nat;
    lemma_power(value.scale);
    let (a, b) = (value.magnitude / unit, value.magnitude % unit);
    let whole = text::decimal_text(a);
    vstd::arithmetic::div_mod::lemma_fundamental_div_mod(value.magnitude as int, unit as int);
    vstd::arithmetic::div_mod::lemma_mod_bound(value.magnitude as int, unit as int);
    assert(a * unit + b == value.magnitude) by (nonlinear_arith)
        requires
            value.magnitude == unit * a + b,
    ;
    text::lemma_decimal_text_denotes(a);
    lemma_no_leading_zero(a);
    if value.scale == 0 {
        reveal(pow);
        assert(text::number(Seq::<char>::empty()) == 0);
        (whole, Seq::empty())
    } else {
        let fraction = text::zero_padded(b, value.scale as int);
        text::lemma_zero_padded_denotes(b, value.scale as int);
        text::lemma_decimal_text_length(b, value.scale);
        (whole, fraction)
    }
}

proof fn lemma_no_leading_zero(n: nat)
    ensures
        n > 0 ==> text::decimal_text(n)[0] != '0',
        n < 10 ==> text::decimal_text(n).len() == 1,
        text::decimal_text(n).len() > 0,
    decreases n,
{
    if n >= 10 {
        lemma_no_leading_zero(n / 10);
    }
}

/// An integer is written as a decimal as it is written as an integer.
pub proof fn whole_numbers_are_written_as_integers(n: int)
    ensures
        numeric_text(DecimalView::whole(n)) == text::signed_decimal_text(n),
{
    assert(numeric::pow10(0) == 1);
    let value = DecimalView::whole(n);
    assert(value.magnitude / 1 == value.magnitude);
    assert(numeric_text(value) =~= text::signed_decimal_text(n));
}

/// White space around a number changes nothing of what it denotes, and a text in plain
/// notation is not read in any other way.
pub proof fn numbers_are_read_in_plain_notation_first(
    before: Seq<char>,
    inner: Seq<char>,
    after: Seq<char>,
)
    requires
        text::is_blank(before),
        text::is_blank(after),
        inner.len() > 0,
        !text::white_space(inner[0]),
        !text::white_space(inner.last()),
    ensures
        arithmetic::decimal_of_text(before + inner + after) == arithmetic::decimal_of_text(inner),
        arithmetic::exact_decimal(inner) is Some ==> arithmetic::decimal_of_text(inner)
            == arithmetic::exact_decimal(inner),
        arithmetic::exact_decimal(inner) is None ==> arithmetic::decimal_of_text(inner)
            == arithmetic::scientific_decimal(inner),
{
    text::lemma_blanks_are_trimmed(before, inner, after);
    text::lemma_trimmed_is_itself(inner);
}

} // verus!
