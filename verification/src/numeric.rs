//! `NUMERIC` / `DECIMAL` values: exact base-10 numbers with up to 28 to 29
//! significant digits and a scale of 0 to 28.
//!
//! A [`Decimal`] compares and hashes *by value* - `1.0`, `1.00`, and `1` are all
//! equal and hash alike - while still carrying its own display scale.
//! `parse_numeric`/`format_numeric` are the text I/O helpers (format preserves
//! the value's scale, e.g. `1.50` stays `"1.50"`).

use core::cmp::Ordering;
use core::hash::{Hash, Hasher};
use vstd::prelude::*;

use crate::order::{self, Order};

pub mod arithmetic;
pub mod rounding;
pub mod wire;

pub use arithmetic::{apply_typmod, format_numeric, from_i64, parse_numeric, to_i64_rounded};
pub use wire::{from_pg_binary, to_pg_binary};

verus! {

/// The greatest scale of a decimal.
pub const MAX_SCALE: u32 = 28;

/// The magnitude of a decimal fits 96 bits.
pub const MAX_MAGNITUDE: u128 = 79_228_162_514_264_337_593_543_950_335;

/// `10` to the power `n`.
pub open spec fn pow10(n: nat) -> nat
    decreases n,
{
    if n == 0 {
        1
    } else {
        10 * pow10((n - 1) as nat)
    }
}

/// The parts of a decimal: its sign, the digits without the decimal point, and
/// the number of digits after the point.
pub struct DecimalView {
    pub negative: bool,
    pub magnitude: nat,
    pub scale: nat,
}

impl DecimalView {
    /// The magnitude and the scale are in range.
    pub open spec fn valid(self) -> bool {
        self.magnitude <= MAX_MAGNITUDE && self.scale <= MAX_SCALE
    }

    /// The number in units of the last place that any decimal can have; decimals
    /// are equal, and ordered, as these numbers are.
    pub open spec fn key(self) -> int
        recommends
            self.valid(),
    {
        let units = self.magnitude * pow10((MAX_SCALE - self.scale) as nat);
        if self.negative {
            -units
        } else {
            units as int
        }
    }
}

/// An exact decimal number: its magnitude divided by a power of ten.
#[derive(Clone, Copy, Debug)]
pub struct Decimal {
    negative: bool,
    magnitude: u128,
    scale: u32,
}

impl View for Decimal {
    type V = DecimalView;

    closed spec fn view(&self) -> DecimalView {
        DecimalView {
            negative: self.negative,
            magnitude: self.magnitude as nat,
            scale: self.scale as nat,
        }
    }
}

pub proof fn lemma_pow10_add(a: nat, b: nat)
    ensures
        pow10(a + b) == pow10(a) * pow10(b),
        pow10(a) > 0,
    decreases a,
{
    if a > 0 {
        lemma_pow10_add((a - 1) as nat, b);
        assert(10 * (pow10((a - 1) as nat) * pow10(b)) == (10 * pow10((a - 1) as nat)) * pow10(b))
            by (nonlinear_arith);
        assert((a - 1) as nat + b == (a + b - 1) as nat);
    } else {
        assert(1 * pow10(b) == pow10(b));
    }
}

pub proof fn lemma_pow10_monotonic(a: nat, b: nat)
    requires
        a <= b,
    ensures
        0 < pow10(a) <= pow10(b),
    decreases b,
{
    if a < b {
        lemma_pow10_monotonic(a, (b - 1) as nat);
    } else if a > 0 {
        lemma_pow10_monotonic((a - 1) as nat, (a - 1) as nat);
    }
}

pub proof fn lemma_pow10_values()
    ensures
        pow10(0) == 1,
        pow10(1) == 10,
        pow10(2) == 100,
        pow10(3) == 1_000,
        pow10(4) == 10_000,
        pow10(6) == 1_000_000,
        pow10(28) == 10_000_000_000_000_000_000_000_000_000,
        pow10(29) == 100_000_000_000_000_000_000_000_000_000,
{
    reveal_with_fuel(pow10, 30);
}

/// `10` to the power `n`, for every scale that a decimal can have.
pub(crate) fn power_of_ten(n: u32) -> (power: u128)
    requires
        n <= 28,
    ensures
        power == pow10(n as nat),
        0 < power <= 10_000_000_000_000_000_000_000_000_000,
{
    let mut power: u128 = 1;
    let mut i: u32 = 0;
    proof {
        lemma_pow10_values();
    }
    while i < n
        invariant
            i <= n <= 28,
            power == pow10(i as nat),
            pow10(28) == 10_000_000_000_000_000_000_000_000_000,
        decreases n - i,
    {
        proof {
            lemma_pow10_monotonic((i + 1) as nat, 28);
        }
        power = power * 10;
        i += 1;
    }
    proof {
        lemma_pow10_monotonic(n as nat, 28);
    }
    power
}

impl Decimal {
    #[verifier::type_invariant]
    spec fn in_range(self) -> bool {
        self@.valid()
    }

    /// The decimal with the given parts, if they are in range.
    pub fn from_parts(negative: bool, magnitude: u128, scale: u32) -> (decimal: Option<Self>)
        ensures
            match decimal {
                Some(decimal) => magnitude <= MAX_MAGNITUDE && scale <= MAX_SCALE && decimal@ == (
                DecimalView { negative, magnitude: magnitude as nat, scale: scale as nat }),
                None => magnitude > MAX_MAGNITUDE || scale > MAX_SCALE,
            },
    {
        if magnitude > MAX_MAGNITUDE || scale > MAX_SCALE {
            return None;
        }
        Some(Decimal { negative, magnitude, scale })
    }

    pub(crate) fn of_parts(negative: bool, magnitude: u128, scale: u32) -> (decimal: Self)
        requires
            magnitude <= MAX_MAGNITUDE,
            scale <= MAX_SCALE,
        ensures
            decimal@ == (DecimalView {
                negative,
                magnitude: magnitude as nat,
                scale: scale as nat,
            }),
    {
        Decimal { negative, magnitude, scale }
    }

    pub fn is_sign_negative(&self) -> (negative: bool)
        ensures
            negative == self@.negative,
    {
        self.negative
    }

    /// The digits of the number, without the decimal point.
    pub fn magnitude(&self) -> (magnitude: u128)
        ensures
            magnitude == self@.magnitude,
            self@.valid(),
    {
        proof {
            use_type_invariant(self);
        }
        self.magnitude
    }

    /// The number of digits after the decimal point.
    pub fn scale(&self) -> (scale: u32)
        ensures
            scale == self@.scale,
            self@.valid(),
    {
        proof {
            use_type_invariant(self);
        }
        self.scale
    }

    /// The parts before and after the decimal point, the latter in units of the
    /// last place that any decimal can have.
    fn split(&self) -> (parts: (u128, u128))
        ensures
            self@.valid(),
            parts.1 < pow10(28),
            self@.magnitude * pow10((28 - self@.scale) as nat) == parts.0 * pow10(28) + parts.1,
    {
        let magnitude: u128 = self.magnitude();
        let scale: u32 = self.scale();
        let unit: u128 = power_of_ten(scale);
        let lift: u128 = power_of_ten(28 - scale);
        let whole: u128 = magnitude / unit;
        let rest: u128 = magnitude % unit;
        proof {
            lemma_pow10_add(scale as nat, (28 - scale) as nat);
            lemma_pow10_values();
            assert(magnitude == unit * whole + rest) by (nonlinear_arith)
                requires
                    whole == magnitude / unit,
                    rest == magnitude % unit,
                    unit > 0,
            ;
            assert(rest * lift < unit * lift) by (nonlinear_arith)
                requires
                    rest < unit,
                    lift > 0,
            ;
            assert((unit * whole + rest) * lift == whole * (unit * lift) + rest * lift)
                by (nonlinear_arith);
        }
        (whole, rest * lift)
    }

    /// The order of the numbers, whatever their scales.
    pub fn order(&self, other: &Self) -> (order: Order)
        ensures
            order == order::int_order(self@.key(), other@.key()),
    {
        let (whole, fraction): (u128, u128) = self.split();
        let (other_whole, other_fraction): (u128, u128) = other.split();
        let by_magnitude: Order = if whole < other_whole {
            Order::Less
        } else if whole > other_whole {
            Order::Greater
        } else if fraction < other_fraction {
            Order::Less
        } else if fraction > other_fraction {
            Order::Greater
        } else {
            Order::Equal
        };
        let zero: bool = whole == 0 && fraction == 0;
        let other_zero: bool = other_whole == 0 && other_fraction == 0;
        proof {
            lemma_pow10_values();
            let p = pow10(28) as int;
            let (w, f, v, g) = (whole as int, fraction as int, other_whole as int, other_fraction as int);
            assert(w < v ==> w * p + f < v * p + g) by (nonlinear_arith)
                requires
                    0 <= f < p,
                    0 <= g,
            ;
            assert(v < w ==> v * p + g < w * p + f) by (nonlinear_arith)
                requires
                    0 <= g < p,
                    0 <= f,
            ;
            assert(w * p >= 0 && v * p >= 0) by (nonlinear_arith)
                requires
                    w >= 0,
                    v >= 0,
                    p >= 0,
            ;
            assert(w > 0 ==> w * p > 0) by (nonlinear_arith)
                requires
                    p > 0,
            ;
            assert(v > 0 ==> v * p > 0) by (nonlinear_arith)
                requires
                    p > 0,
            ;
        }
        if zero && other_zero {
            Order::Equal
        } else if self.negative && other.negative {
            match by_magnitude {
                Order::Less => Order::Greater,
                Order::Equal => Order::Equal,
                Order::Greater => Order::Less,
            }
        } else if self.negative {
            Order::Less
        } else if other.negative {
            Order::Greater
        } else {
            by_magnitude
        }
    }

    /// The same number without trailing zeros after the decimal point.
    pub fn normalized(&self) -> (normalized: Self)
        ensures
            normalized@.valid(),
            normalized@.key() == self@.key(),
            normalized@.is_normalized(),
    {
        let mut magnitude: u128 = self.magnitude();
        let mut scale: u32 = self.scale();
        let ghost units = magnitude * pow10((28 - scale) as nat);
        if magnitude == 0 {
            proof {
                assert(0 * pow10((28 - scale) as nat) == 0) by (nonlinear_arith);
                assert(0 * pow10(28) == 0) by (nonlinear_arith);
            }
            return Decimal { negative: false, magnitude: 0, scale: 0 };
        }
        while scale > 0 && magnitude % 10 == 0
            invariant
                0 < magnitude <= MAX_MAGNITUDE,
                scale <= 28,
                magnitude * pow10((28 - scale) as nat) == units,
            decreases scale,
        {
            proof {
                let tenth = (magnitude / 10) as nat;
                let rest = pow10((28 - scale) as nat);
                assert(pow10((28 - (scale - 1)) as nat) == 10 * rest);
                assert((10 * tenth) * rest == tenth * (10 * rest)) by (nonlinear_arith);
            }
            magnitude = magnitude / 10;
            scale = scale - 1;
        }
        Decimal { negative: self.negative, magnitude, scale }
    }
}

impl DecimalView {
    /// Zero is written as `0`, and nothing else ends in a zero after the point.
    pub open spec fn is_normalized(self) -> bool {
        &&& self.magnitude == 0 ==> self.scale == 0 && !self.negative
        &&& self.scale > 0 ==> self.magnitude % 10 != 0
    }

    /// A number has one normalized form, so equal numbers share it.
    pub proof fn normalized_form_is_unique(a: DecimalView, b: DecimalView)
        requires
            a.valid(),
            b.valid(),
            a.is_normalized(),
            b.is_normalized(),
            a.key() == b.key(),
        ensures
            a == b,
    {
        let x = pow10((28 - a.scale) as nat);
        let y = pow10((28 - b.scale) as nat);
        lemma_pow10_monotonic((28 - a.scale) as nat, (28 - a.scale) as nat);
        lemma_pow10_monotonic((28 - b.scale) as nat, (28 - b.scale) as nat);
        assert(a.magnitude > 0 ==> a.magnitude * x > 0) by (nonlinear_arith)
            requires
                x > 0,
        ;
        assert(b.magnitude > 0 ==> b.magnitude * y > 0) by (nonlinear_arith)
            requires
                y > 0,
        ;
        assert(a.magnitude == 0 ==> a.magnitude * x == 0) by (nonlinear_arith);
        assert(b.magnitude == 0 ==> b.magnitude * y == 0) by (nonlinear_arith);
        if a.scale < b.scale {
            Self::lemma_longer_ends_in_zero(a, b);
        } else if b.scale < a.scale {
            Self::lemma_longer_ends_in_zero(b, a);
        } else {
            assert(a.magnitude == b.magnitude) by (nonlinear_arith)
                requires
                    a.magnitude * x == b.magnitude * y,
                    x == y,
                    x > 0,
            ;
        }
    }

    proof fn lemma_longer_ends_in_zero(a: DecimalView, b: DecimalView)
        requires
            a.valid(),
            b.valid(),
            a.scale < b.scale,
            a.magnitude * pow10((28 - a.scale) as nat) == b.magnitude * pow10(
                (28 - b.scale) as nat,
            ),
        ensures
            b.magnitude % 10 == 0,
    {
        let y = pow10((28 - b.scale) as nat);
        let d = (b.scale - a.scale) as nat;
        let e = pow10((d - 1) as nat);
        lemma_pow10_add(d, (28 - b.scale) as nat);
        lemma_pow10_monotonic((28 - b.scale) as nat, (28 - b.scale) as nat);
        assert(d + (28 - b.scale) as nat == (28 - a.scale) as nat);
        assert(pow10(d) == 10 * e);
        assert(b.magnitude == 10 * (a.magnitude * e)) by (nonlinear_arith)
            requires
                a.magnitude * ((10 * e) * y) == b.magnitude * y,
                y > 0,
        ;
    }
}

impl PartialEq for Decimal {
    fn eq(&self, other: &Self) -> (equal: bool) {
        matches!(self.order(other), Order::Equal)
    }
}

impl vstd::std_specs::cmp::PartialEqSpecImpl for Decimal {
    open spec fn obeys_eq_spec() -> bool {
        true
    }

    open spec fn eq_spec(&self, other: &Self) -> bool {
        self@.key() == other@.key()
    }
}

impl Eq for Decimal {

}

impl PartialOrd for Decimal {
    fn partial_cmp(&self, other: &Self) -> (order: Option<Ordering>) {
        Some(order::to_std_order(self.order(other)))
    }
}

impl vstd::std_specs::cmp::PartialOrdSpecImpl for Decimal {
    open spec fn obeys_partial_cmp_spec() -> bool {
        true
    }

    open spec fn partial_cmp_spec(&self, other: &Self) -> Option<Ordering> {
        Some(order::std_order(order::int_order(self@.key(), other@.key())))
    }
}

impl Hash for Decimal {
    /// Equal numbers have one normalized form, so they hash alike.
    fn hash<H: Hasher>(&self, state: &mut H) {
        let form: Decimal = self.normalized();
        let magnitude: u128 = form.magnitude();
        let signed: i128 = if form.negative {
            -(magnitude as i128)
        } else {
            magnitude as i128
        };
        order::hash_key(signed, state);
        order::hash_key(form.scale as i128, state);
    }
}

} // verus!
