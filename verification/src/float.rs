//! Floating-point numbers with a total order.
//!
//! IEEE 754 numbers are not totally ordered: NaN is unordered and not reflexively
//! equal, and the two zeros are distinct bit patterns that compare equal. Values
//! are used as B-tree keys and for `DISTINCT`, `GROUP BY` and `ORDER BY`, which
//! need a total order, so numbers are held in wrappers whose order matches
//! PostgreSQL's float btree semantics, with a hash consistent with their equality.

use core::cmp::Ordering;
use core::hash::{Hash, Hasher};
use vstd::prelude::*;

use crate::order::{self, Order};

verus! {

/// An IEEE 754 binary64 number, held as its bit pattern, with a total order:
/// NaN sorts greatest and equals itself, and the two zeros are equal. Construct
/// with [`OrderedF64::new`]; read the bits with [`OrderedF64::get`].
#[derive(Clone, Copy, Debug)]
pub struct OrderedF64(pub u64);

impl OrderedF64 {
    /// The bits other than the sign.
    pub open spec fn magnitude_bits(self) -> int {
        if self.0 >= 0x8000_0000_0000_0000 {
            self.0 - 0x8000_0000_0000_0000
        } else {
            self.0 as int
        }
    }

    /// The exponent has only one bits and the fraction is not zero.
    pub open spec fn spec_is_nan(self) -> bool {
        self.magnitude_bits() > 0x7ff0_0000_0000_0000
    }

    /// Neither an infinity nor a NaN.
    pub open spec fn spec_is_finite(self) -> bool {
        self.magnitude_bits() < 0x7ff0_0000_0000_0000
    }

    /// The number's place in the order. For numbers of one sign the bits other
    /// than the sign grow with the distance from zero.
    pub open spec fn key(self) -> int {
        if self.spec_is_nan() {
            0x8000_0000_0000_0000
        } else if self.0 >= 0x8000_0000_0000_0000 {
            -self.magnitude_bits()
        } else {
            self.magnitude_bits()
        }
    }

    /// Whether a bit pattern is NaN, infinite or finite decides its place: NaN is
    /// above every number, and all NaNs are one.
    pub proof fn nan_is_greatest(self, other: Self)
        requires
            self.spec_is_nan(),
        ensures
            self.key() >= other.key(),
            self.key() == other.key() <==> other.spec_is_nan(),
    {
    }

    #[inline]
    pub fn new(bits: u64) -> (number: Self)
        ensures
            number.0 == bits,
    {
        OrderedF64(bits)
    }

    #[inline]
    pub fn get(self) -> (bits: u64)
        ensures
            bits == self.0,
    {
        self.0
    }

    fn magnitude(self) -> (magnitude: u64)
        ensures
            magnitude == self.magnitude_bits(),
    {
        if self.0 >= 0x8000_0000_0000_0000 {
            self.0 - 0x8000_0000_0000_0000
        } else {
            self.0
        }
    }

    pub fn is_nan(self) -> (nan: bool)
        ensures
            nan == self.spec_is_nan(),
    {
        self.magnitude() > 0x7ff0_0000_0000_0000
    }

    pub fn is_finite(self) -> (finite: bool)
        ensures
            finite == self.spec_is_finite(),
    {
        self.magnitude() < 0x7ff0_0000_0000_0000
    }

    /// The number's place in the order.
    pub(crate) fn order_key(self) -> (key: i128)
        ensures
            key == self.key(),
    {
        if self.is_nan() {
            0x8000_0000_0000_0000i128
        } else if self.0 >= 0x8000_0000_0000_0000 {
            -(self.magnitude() as i128)
        } else {
            self.magnitude() as i128
        }
    }

    /// The place of the number in the total order.
    pub fn order(&self, other: &Self) -> (order: Order)
        ensures
            order == order::int_order(self.key(), other.key()),
    {
        order::order_ints(self.order_key(), other.order_key())
    }
}

impl From<u64> for OrderedF64 {
    fn from(bits: u64) -> (number: Self) {
        OrderedF64(bits)
    }
}

impl vstd::std_specs::convert::FromSpecImpl<u64> for OrderedF64 {
    open spec fn obeys_from_spec() -> bool {
        true
    }

    open spec fn from_spec(bits: u64) -> Self {
        OrderedF64(bits)
    }
}

impl PartialEq for OrderedF64 {
    fn eq(&self, other: &Self) -> (equal: bool) {
        self.order_key() == other.order_key()
    }
}

impl vstd::std_specs::cmp::PartialEqSpecImpl for OrderedF64 {
    open spec fn obeys_eq_spec() -> bool {
        true
    }

    open spec fn eq_spec(&self, other: &Self) -> bool {
        self.key() == other.key()
    }
}

impl Eq for OrderedF64 {

}

impl PartialOrd for OrderedF64 {
    fn partial_cmp(&self, other: &Self) -> (order: Option<Ordering>) {
        Some(order::to_std_order(self.order(other)))
    }
}

impl vstd::std_specs::cmp::PartialOrdSpecImpl for OrderedF64 {
    open spec fn obeys_partial_cmp_spec() -> bool {
        true
    }

    open spec fn partial_cmp_spec(&self, other: &Self) -> Option<Ordering> {
        Some(order::std_order(order::int_order(self.key(), other.key())))
    }
}

impl Hash for OrderedF64 {
    /// Equal numbers have equal keys, so they hash alike.
    fn hash<H: Hasher>(&self, state: &mut H) {
        order::hash_key(self.order_key(), state);
    }
}

/// An IEEE 754 binary32 number, held as its bit pattern, with a total order:
/// NaN sorts greatest and equals itself, and the two zeros are equal. Construct
/// with [`OrderedF32::new`]; read the bits with [`OrderedF32::get`].
#[derive(Clone, Copy, Debug)]
pub struct OrderedF32(pub u32);

impl OrderedF32 {
    /// The bits other than the sign.
    pub open spec fn magnitude_bits(self) -> int {
        if self.0 >= 0x8000_0000 {
            self.0 - 0x8000_0000
        } else {
            self.0 as int
        }
    }

    /// The exponent has only one bits and the fraction is not zero.
    pub open spec fn spec_is_nan(self) -> bool {
        self.magnitude_bits() > 0x7f80_0000
    }

    /// Neither an infinity nor a NaN.
    pub open spec fn spec_is_finite(self) -> bool {
        self.magnitude_bits() < 0x7f80_0000
    }

    /// The number's place in the order. For numbers of one sign the bits other
    /// than the sign grow with the distance from zero.
    pub open spec fn key(self) -> int {
        if self.spec_is_nan() {
            0x8000_0000
        } else if self.0 >= 0x8000_0000 {
            -self.magnitude_bits()
        } else {
            self.magnitude_bits()
        }
    }

    /// Whether a bit pattern is NaN, infinite or finite decides its place: NaN is
    /// above every number, and all NaNs are one.
    pub proof fn nan_is_greatest(self, other: Self)
        requires
            self.spec_is_nan(),
        ensures
            self.key() >= other.key(),
            self.key() == other.key() <==> other.spec_is_nan(),
    {
    }

    #[inline]
    pub fn new(bits: u32) -> (number: Self)
        ensures
            number.0 == bits,
    {
        OrderedF32(bits)
    }

    #[inline]
    pub fn get(self) -> (bits: u32)
        ensures
            bits == self.0,
    {
        self.0
    }

    fn magnitude(self) -> (magnitude: u32)
        ensures
            magnitude == self.magnitude_bits(),
    {
        if self.0 >= 0x8000_0000 {
            self.0 - 0x8000_0000
        } else {
            self.0
        }
    }

    pub fn is_nan(self) -> (nan: bool)
        ensures
            nan == self.spec_is_nan(),
    {
        self.magnitude() > 0x7f80_0000
    }

    pub fn is_finite(self) -> (finite: bool)
        ensures
            finite == self.spec_is_finite(),
    {
        self.magnitude() < 0x7f80_0000
    }

    /// The number's place in the order.
    pub(crate) fn order_key(self) -> (key: i128)
        ensures
            key == self.key(),
    {
        if self.is_nan() {
            0x8000_0000i128
        } else if self.0 >= 0x8000_0000 {
            -(self.magnitude() as i128)
        } else {
            self.magnitude() as i128
        }
    }

    /// The place of the number in the total order.
    pub fn order(&self, other: &Self) -> (order: Order)
        ensures
            order == order::int_order(self.key(), other.key()),
    {
        order::order_ints(self.order_key(), other.order_key())
    }
}

impl From<u32> for OrderedF32 {
    fn from(bits: u32) -> (number: Self) {
        OrderedF32(bits)
    }
}

impl vstd::std_specs::convert::FromSpecImpl<u32> for OrderedF32 {
    open spec fn obeys_from_spec() -> bool {
        true
    }

    open spec fn from_spec(bits: u32) -> Self {
        OrderedF32(bits)
    }
}

impl PartialEq for OrderedF32 {
    fn eq(&self, other: &Self) -> (equal: bool) {
        self.order_key() == other.order_key()
    }
}

impl vstd::std_specs::cmp::PartialEqSpecImpl for OrderedF32 {
    open spec fn obeys_eq_spec() -> bool {
        true
    }

    open spec fn eq_spec(&self, other: &Self) -> bool {
        self.key() == other.key()
    }
}

impl Eq for OrderedF32 {

}

impl PartialOrd for OrderedF32 {
    fn partial_cmp(&self, other: &Self) -> (order: Option<Ordering>) {
        Some(order::to_std_order(self.order(other)))
    }
}

impl vstd::std_specs::cmp::PartialOrdSpecImpl for OrderedF32 {
    open spec fn obeys_partial_cmp_spec() -> bool {
        true
    }

    open spec fn partial_cmp_spec(&self, other: &Self) -> Option<Ordering> {
        Some(order::std_order(order::int_order(self.key(), other.key())))
    }
}

impl Hash for OrderedF32 {
    /// Equal numbers have equal keys, so they hash alike.
    fn hash<H: Hasher>(&self, state: &mut H) {
        order::hash_key(self.order_key(), state);
    }
}

} // verus!
