//! What the order of values means for the values themselves.

use core::cmp::Ordering;
use vstd::prelude::*;

use crate::array::ArrayView;
use crate::float::{OrderedF32, OrderedF64};
use crate::interval::Interval;
use crate::numeric::{self, DecimalView};
use crate::order::{self, Order};
use crate::row;
use crate::schema::DataType;
use crate::value::{Value, ValueView};

verus! {

/// Scalars of one kind are ordered by their payloads.
proof fn lemma_same_kind(a: ValueView, b: ValueView)
    requires
        a.rank() == b.rank(),
        !(a is Array),
        !(b is Array),
    ensures
        a.order(b) == order::lex_order(a.payload_key(), b.payload_key()),
{
    order::lemma_lex_order_skips_prefix(seq![a.rank()], a.payload_key(), b.payload_key());
    order::lex_order_is_antisymmetric(a.scalar_key(), b.scalar_key());
    assert(a.key() == seq![a.scalar_key()]);
    assert(b.key() == seq![b.scalar_key()]);
    assert(a.key().drop_first() == Seq::<Seq<int>>::empty());
    assert(b.key().drop_first() == Seq::<Seq<int>>::empty());
    reveal_with_fuel(order::nested_lex_order, 2);
}

/// Keys of one integer each are ordered by it.
proof fn lemma_single(a: int, b: int)
    ensures
        a < b ==> order::lex_order(seq![a], seq![b]) == Order::Less,
        a == b ==> order::lex_order(seq![a], seq![b]) == Order::Equal,
        a > b ==> order::lex_order(seq![a], seq![b]) == Order::Greater,
{
    reveal_with_fuel(order::lex_order, 2);
}

/// The first difference decides the order of two keys; a proper prefix comes first.
proof fn lemma_first_difference(a: Seq<int>, b: Seq<int>, i: int)
    requires
        0 <= i <= a.len(),
        i < b.len(),
        forall|j: int| 0 <= j < i ==> a[j] == b[j],
        i == a.len() || a[i] < b[i],
    ensures
        order::lex_order(a, b) == Order::Less,
        order::lex_order(b, a) == Order::Greater,
    decreases i,
{
    if i > 0 {
        assert(a[0] == b[0]);
        lemma_first_difference(a.drop_first(), b.drop_first(), i - 1);
    }
}

/// The same of keys of keys.
proof fn lemma_first_nested_difference(a: Seq<Seq<int>>, b: Seq<Seq<int>>, i: int)
    requires
        0 <= i < a.len(),
        i < b.len(),
        forall|j: int| 0 <= j < i ==> a[j] == b[j],
        order::lex_order(a[i], b[i]) == Order::Less,
    ensures
        order::nested_lex_order(a, b) == Order::Less,
        order::nested_lex_order(b, a) == Order::Greater,
    decreases i,
{
    if i > 0 {
        assert(a[0] == b[0]);
        lemma_first_nested_difference(a.drop_first(), b.drop_first(), i - 1);
    } else {
        order::lex_order_is_antisymmetric(a[0], b[0]);
    }
}

/// Integers are ordered by their values.
pub proof fn integers_are_ordered_by_value(a: i64, b: i64)
    ensures
        a < b ==> Value::Integer(a)@.order(Value::Integer(b)@) == Order::Less,
        a == b ==> Value::Integer(a)@.order(Value::Integer(b)@) == Order::Equal,
        a > b ==> Value::Integer(a)@.order(Value::Integer(b)@) == Order::Greater,
{
    lemma_same_kind(Value::Integer(a)@, Value::Integer(b)@);
    lemma_single(a as int, b as int);
}

/// The earlier of two dates comes first.
pub proof fn dates_are_ordered_by_time(a: i64, b: i64)
    ensures
        a < b ==> Value::Date(a)@.order(Value::Date(b)@) == Order::Less,
        a == b ==> Value::Date(a)@.order(Value::Date(b)@) == Order::Equal,
        a > b ==> Value::Date(a)@.order(Value::Date(b)@) == Order::Greater,
{
    lemma_same_kind(Value::Date(a)@, Value::Date(b)@);
    lemma_single(a as int, b as int);
}

/// The earlier of two timestamps comes first, with or without a time zone.
pub proof fn timestamps_are_ordered_by_time(a: i64, b: i64)
    ensures
        a < b ==> Value::Timestamp(a)@.order(Value::Timestamp(b)@) == Order::Less,
        a == b ==> Value::Timestamp(a)@.order(Value::Timestamp(b)@) == Order::Equal,
        a > b ==> Value::Timestamp(a)@.order(Value::Timestamp(b)@) == Order::Greater,
        a < b ==> Value::TimestampTz(a)@.order(Value::TimestampTz(b)@) == Order::Less,
        a == b ==> Value::TimestampTz(a)@.order(Value::TimestampTz(b)@) == Order::Equal,
        a > b ==> Value::TimestampTz(a)@.order(Value::TimestampTz(b)@) == Order::Greater,
{
    lemma_same_kind(Value::Timestamp(a)@, Value::Timestamp(b)@);
    lemma_same_kind(Value::TimestampTz(a)@, Value::TimestampTz(b)@);
    lemma_single(a as int, b as int);
}

/// The earlier of two times of day comes first.
pub proof fn times_are_ordered_by_time(a: i64, b: i64)
    ensures
        a < b ==> Value::Time(a)@.order(Value::Time(b)@) == Order::Less,
        a == b ==> Value::Time(a)@.order(Value::Time(b)@) == Order::Equal,
        a > b ==> Value::Time(a)@.order(Value::Time(b)@) == Order::Greater,
{
    lemma_same_kind(Value::Time(a)@, Value::Time(b)@);
    lemma_single(a as int, b as int);
}

/// False comes before true, and each equals itself.
pub proof fn false_is_before_true(b: bool)
    ensures
        Value::Boolean(false)@.order(Value::Boolean(true)@) == Order::Less,
        Value::Boolean(true)@.order(Value::Boolean(false)@) == Order::Greater,
        Value::Boolean(b)@.order(Value::Boolean(b)@) == Order::Equal,
        Value::Null@.order(Value::Null@) == Order::Equal,
{
    lemma_same_kind(Value::Boolean(false)@, Value::Boolean(true)@);
    lemma_same_kind(Value::Boolean(true)@, Value::Boolean(false)@);
    ValueView::order_is_total(Value::Boolean(b)@, Value::Boolean(b)@);
    ValueView::order_is_total(Value::Null@, Value::Null@);
    lemma_single(0, 1);
    lemma_single(1, 0);
}

/// Texts are ordered by the first character in which they differ, and a text comes
/// before every longer text that begins with it.
pub proof fn texts_are_ordered_by_first_difference(a: String, b: String, i: int)
    requires
        0 <= i <= a@.len(),
        i < b@.len(),
        forall|j: int| 0 <= j < i ==> a@[j] == b@[j],
        i == a@.len() || (a@[i] as int) < (b@[i] as int),
    ensures
        Value::Text(a)@.order(Value::Text(b)@) == Order::Less,
        Value::Text(b)@.order(Value::Text(a)@) == Order::Greater,
{
    lemma_same_kind(Value::Text(a)@, Value::Text(b)@);
    lemma_same_kind(Value::Text(b)@, Value::Text(a)@);
    lemma_first_difference(order::char_key(a@), order::char_key(b@), i);
}

/// Byte strings are ordered by the first byte in which they differ, and a byte string
/// comes before every longer one that begins with it.
pub proof fn bytes_are_ordered_by_first_difference(a: Vec<u8>, b: Vec<u8>, i: int)
    requires
        0 <= i <= a@.len(),
        i < b@.len(),
        forall|j: int| 0 <= j < i ==> a@[j] == b@[j],
        i == a@.len() || a@[i] < b@[i],
    ensures
        Value::Bytes(a)@.order(Value::Bytes(b)@) == Order::Less,
        Value::Bytes(b)@.order(Value::Bytes(a)@) == Order::Greater,
{
    lemma_same_kind(Value::Bytes(a)@, Value::Bytes(b)@);
    lemma_same_kind(Value::Bytes(b)@, Value::Bytes(a)@);
    lemma_first_difference(order::byte_key(a@), order::byte_key(b@), i);
}

/// UUIDs are ordered by the first byte in which they differ.
pub proof fn uuids_are_ordered_by_first_difference(a: [u8; 16], b: [u8; 16], i: int)
    requires
        0 <= i < 16,
        forall|j: int| 0 <= j < i ==> a@[j] == b@[j],
        a@[i] < b@[i],
    ensures
        Value::Uuid(a)@.order(Value::Uuid(b)@) == Order::Less,
        Value::Uuid(b)@.order(Value::Uuid(a)@) == Order::Greater,
{
    lemma_same_kind(Value::Uuid(a)@, Value::Uuid(b)@);
    lemma_same_kind(Value::Uuid(b)@, Value::Uuid(a)@);
    lemma_first_difference(order::byte_key(a@), order::byte_key(b@), i);
}

/// Texts, byte strings and UUIDs that hold the same are equal.
pub proof fn equal_contents_are_equal(a: Value, b: Value)
    requires
        a@ == b@,
    ensures
        a@.order(b@) == Order::Equal,
{
    ValueView::order_is_total(a@, b@);
}

/// Numbers are ordered by the values that they denote, however many digits each has
/// after its point: `m / 10^s` stands to `n / 10^t` as `m * 10^t` to `n * 10^s`.
pub proof fn numbers_are_ordered_by_value(a: DecimalView, b: DecimalView)
    requires
        a.valid(),
        b.valid(),
    ensures
        ({
            let m = if a.negative {
                -(a.magnitude as int)
            } else {
                a.magnitude as int
            };
            let n = if b.negative {
                -(b.magnitude as int)
            } else {
                b.magnitude as int
            };
            let left = m * vstd::arithmetic::power::pow(10, b.scale);
            let right = n * vstd::arithmetic::power::pow(10, a.scale);
            let (x, y) = (ValueView::Numeric(a), ValueView::Numeric(b));
            &&& left < right ==> x.order(y) == Order::Less
            &&& left == right ==> x.order(y) == Order::Equal
            &&& left > right ==> x.order(y) == Order::Greater
        }),
{
    let m = if a.negative {
        -(a.magnitude as int)
    } else {
        a.magnitude as int
    };
    let n = if b.negative {
        -(b.magnitude as int)
    } else {
        b.magnitude as int
    };
    let (s, t) = (a.scale, b.scale);
    let p = numeric::pow10((28 - s) as nat) as int;
    let q = numeric::pow10((28 - t) as nat) as int;
    let u = numeric::pow10(s) as int;
    let v = numeric::pow10(t) as int;
    numeric::lemma_pow10_add((28 - s) as nat, s);
    numeric::lemma_pow10_add((28 - t) as nat, t);
    numeric::lemma_pow10_add(s, t);
    numeric::lemma_pow10_add(t, s);
    lemma_pow10_is_power(s);
    lemma_pow10_is_power(t);
    assert(a.key() == m * p) by (nonlinear_arith)
        requires
            a.key() == if a.negative {
                -(a.magnitude * p)
            } else {
                a.magnitude * p
            },
            m == if a.negative {
                -(a.magnitude as int)
            } else {
                a.magnitude as int
            },
    ;
    assert(b.key() == n * q) by (nonlinear_arith)
        requires
            b.key() == if b.negative {
                -(b.magnitude * q)
            } else {
                b.magnitude * q
            },
            n == if b.negative {
                -(b.magnitude as int)
            } else {
                b.magnitude as int
            },
    ;
    let one = numeric::pow10(28) as int;
    assert((28 - s) as nat + s == 28 && (28 - t) as nat + t == 28);
    numeric::lemma_pow10_values();
    assert(p * u == one && q * v == one && one > 0 && u > 0 && v > 0);
    let (x, y) = (a.key(), b.key());
    assert(x * (u * v) == (m * v) * one) by (nonlinear_arith)
        requires
            x == m * p,
            p * u == one,
    ;
    assert(y * (u * v) == (n * u) * one) by (nonlinear_arith)
        requires
            y == n * q,
            q * v == one,
    ;
    let (left, right) = (m * v, n * u);
    let w = u * v;
    assert(w > 0) by (nonlinear_arith)
        requires
            w == u * v,
            u > 0,
            v > 0,
    ;
    assert((left < right ==> x < y) && (left == right ==> x == y) && (left > right ==> x > y))
        by (nonlinear_arith)
        requires
            x * w == left * one,
            y * w == right * one,
            w > 0,
            one > 0,
    ;
    lemma_same_kind(ValueView::Numeric(a), ValueView::Numeric(b));
    lemma_single(x, y);
}

proof fn lemma_pow10_is_power(n: nat)
    ensures
        numeric::pow10(n) == vstd::arithmetic::power::pow(10, n),
    decreases n,
{
    reveal(vstd::arithmetic::power::pow);
    if n > 0 {
        lemma_pow10_is_power((n - 1) as nat);
    }
}

/// Intervals are ordered by their estimated lengths, a month being thirty days and a
/// day twenty-four hours of 3_600_000_000 microseconds.
pub proof fn intervals_are_ordered_by_length(a: Interval, b: Interval)
    ensures
        ({
            let hours_a = (a.months * 30 + a.days) * 24;
            let hours_b = (b.months * 30 + b.days) * 24;
            let left = hours_a * 3_600_000_000 + a.micros;
            let right = hours_b * 3_600_000_000 + b.micros;
            let (x, y) = (Value::Interval(a)@, Value::Interval(b)@);
            &&& left < right ==> x.order(y) == Order::Less
            &&& left == right ==> x.order(y) == Order::Equal
            &&& left > right ==> x.order(y) == Order::Greater
        }),
{
    lemma_same_kind(Value::Interval(a)@, Value::Interval(b)@);
    lemma_single(a.key(), b.key());
}

/// Double-precision numbers are ordered by their bits: a number with the sign bit
/// comes before one without, unless both are zeros; without the sign bit the larger
/// bits are the larger number, with it the smaller; and every NaN, the bits above those
/// of infinity, is equal to every other and above every number.
pub proof fn doubles_are_ordered_by_value(a: u64, b: u64)
    ensures
        ({
            let (x, y) = (Value::Float(OrderedF64(a))@, Value::Float(OrderedF64(b))@);
            let (m, n) = (a % 0x8000_0000_0000_0000, b % 0x8000_0000_0000_0000);
            let (minus_a, minus_b) = (a >= 0x8000_0000_0000_0000, b >= 0x8000_0000_0000_0000);
            let (nan_a, nan_b) = (m > 0x7ff0_0000_0000_0000, n > 0x7ff0_0000_0000_0000);
            &&& nan_a && nan_b ==> x.order(y) == Order::Equal
            &&& nan_a && !nan_b ==> x.order(y) == Order::Greater
            &&& !nan_a && nan_b ==> x.order(y) == Order::Less
            &&& !nan_a && !nan_b ==> {
                &&& m == 0 && n == 0 ==> x.order(y) == Order::Equal
                &&& minus_a && !minus_b && (m > 0 || n > 0) ==> x.order(y) == Order::Less
                &&& !minus_a && minus_b && (m > 0 || n > 0) ==> x.order(y) == Order::Greater
                &&& !minus_a && !minus_b && a < b ==> x.order(y) == Order::Less
                &&& !minus_a && !minus_b && a > b ==> x.order(y) == Order::Greater
                &&& minus_a && minus_b && a < b ==> x.order(y) == Order::Greater
                &&& minus_a && minus_b && a > b ==> x.order(y) == Order::Less
                &&& a == b ==> x.order(y) == Order::Equal
            }
        }),
{
    lemma_same_kind(Value::Float(OrderedF64(a))@, Value::Float(OrderedF64(b))@);
    lemma_single(OrderedF64(a).key(), OrderedF64(b).key());
}

/// Single-precision numbers are ordered by their bits in the same way.
pub proof fn reals_are_ordered_by_value(a: u32, b: u32)
    ensures
        ({
            let (x, y) = (Value::Real(OrderedF32(a))@, Value::Real(OrderedF32(b))@);
            let (m, n) = (a % 0x8000_0000, b % 0x8000_0000);
            let (minus_a, minus_b) = (a >= 0x8000_0000, b >= 0x8000_0000);
            let (nan_a, nan_b) = (m > 0x7f80_0000, n > 0x7f80_0000);
            &&& nan_a && nan_b ==> x.order(y) == Order::Equal
            &&& nan_a && !nan_b ==> x.order(y) == Order::Greater
            &&& !nan_a && nan_b ==> x.order(y) == Order::Less
            &&& !nan_a && !nan_b ==> {
                &&& m == 0 && n == 0 ==> x.order(y) == Order::Equal
                &&& minus_a && !minus_b && (m > 0 || n > 0) ==> x.order(y) == Order::Less
                &&& !minus_a && minus_b && (m > 0 || n > 0) ==> x.order(y) == Order::Greater
                &&& !minus_a && !minus_b && a < b ==> x.order(y) == Order::Less
                &&& !minus_a && !minus_b && a > b ==> x.order(y) == Order::Greater
                &&& minus_a && minus_b && a < b ==> x.order(y) == Order::Greater
                &&& minus_a && minus_b && a > b ==> x.order(y) == Order::Less
                &&& a == b ==> x.order(y) == Order::Equal
            }
        }),
{
    lemma_same_kind(Value::Real(OrderedF32(a))@, Value::Real(OrderedF32(b))@);
    lemma_single(OrderedF32(a).key(), OrderedF32(b).key());
}

/// Values of different kinds are ordered by their kinds alone: NULL, booleans,
/// integers, doubles, reals, numerics, texts, dates, timestamps, times, timestamps with
/// time zone, intervals, byte strings, UUIDs, arrays.
pub proof fn kinds_are_ordered_as_declared(a: ValueView, b: ValueView)
    requires
        ({
            ||| a is Null && !(b is Null)
            ||| a is Boolean && b is Integer
            ||| a is Integer && b is Float
            ||| a is Float && b is Real
            ||| a is Real && b is Numeric
            ||| a is Numeric && b is Text
            ||| a is Text && b is Date
            ||| a is Date && b is Timestamp
            ||| a is Timestamp && b is Time
            ||| a is Time && b is TimestampTz
            ||| a is TimestampTz && b is Interval
            ||| a is Interval && b is Bytes
            ||| a is Bytes && b is Uuid
            ||| a is Uuid && b is Array
        }),
    ensures
        a.order(b) == Order::Less,
        b.order(a) == Order::Greater,
{
    ValueView::kinds_are_ordered(a, b);
    ValueView::order_is_total(a, b);
}

/// Scalars are ordered as their scalar keys.
proof fn lemma_scalars(a: ValueView, b: ValueView)
    requires
        !(a is Array),
        !(b is Array),
    ensures
        a.order(b) == order::lex_order(a.scalar_key(), b.scalar_key()),
        a.order(b) == Order::Equal <==> a.scalar_key() == b.scalar_key(),
{
    order::lex_order_is_antisymmetric(a.scalar_key(), b.scalar_key());
    assert(a.key() == seq![a.scalar_key()]);
    assert(b.key() == seq![b.scalar_key()]);
    assert(a.key().drop_first() == Seq::<Seq<int>>::empty());
    assert(b.key().drop_first() == Seq::<Seq<int>>::empty());
    reveal_with_fuel(order::nested_lex_order, 2);
}

proof fn lemma_array_key(a: ArrayView)
    ensures
        ({
            let key = ValueView::Array(a).key();
            &&& key.len() == a.elements.len() + 3
            &&& key[0] == seq![14int]
            &&& key[1] == a.element_type.key()
            &&& forall|i: int|
                0 <= i < a.elements.len() ==> #[trigger] key[i + 2] == seq![1int]
                    + a.elements[i].scalar_key()
            &&& key[a.elements.len() as int + 2] == a.shape_key()
        }),
{
    let key = ValueView::Array(a).key();
    assert(key[0] == seq![14int] + Seq::<int>::empty());
    assert(seq![14int] + Seq::<int>::empty() == seq![14int]);
}

/// Arrays of one element type are ordered by the first elements that differ, and an
/// array comes before every one whose elements begin with its own and go on.
pub proof fn arrays_are_ordered_by_elements(a: ArrayView, b: ArrayView, i: int)
    requires
        a.element_type == b.element_type,
        !(a.element_type is Array),
        a.well_formed(),
        b.well_formed(),
        0 <= i <= a.elements.len(),
        i < b.elements.len(),
        forall|j: int|
            0 <= j < i ==> (#[trigger] a.elements[j]).order(b.elements[j]) == Order::Equal,
        i == a.elements.len() || a.elements[i].order(b.elements[i]) == Order::Less,
    ensures
        ValueView::Array(a).order(ValueView::Array(b)) == Order::Less,
        ValueView::Array(b).order(ValueView::Array(a)) == Order::Greater,
{
    lemma_array_key(a);
    lemma_array_key(b);
    let (x, y) = (ValueView::Array(a).key(), ValueView::Array(b).key());
    assert forall|j: int| 0 <= j < i + 2 implies x[j] == y[j] by {
        if j >= 2 {
            let k = j - 2;
            assert(a.elements[k].order(b.elements[k]) == Order::Equal);
            assert(a.elements[k].matches_type(a.element_type));
            assert(b.elements[k].matches_type(b.element_type));
            lemma_scalars(a.elements[k], b.elements[k]);
            assert(x[k + 2] == y[k + 2]);
        }
    }
    if i == a.elements.len() {
        assert(x[i + 2] == a.shape_key());
        assert(y[i + 2] == seq![1int] + b.elements[i].scalar_key());
        assert(x[i + 2][0] == 0);
        assert(y[i + 2][0] == 1);
        lemma_first_difference(x[i + 2], y[i + 2], 0);
    } else {
        assert(a.elements[i].matches_type(a.element_type));
        assert(b.elements[i].matches_type(b.element_type));
        lemma_scalars(a.elements[i], b.elements[i]);
        assert(x[i + 2] == seq![1int] + a.elements[i].scalar_key());
        assert(y[i + 2] == seq![1int] + b.elements[i].scalar_key());
        order::lemma_lex_order_skips_prefix(
            seq![1int],
            a.elements[i].scalar_key(),
            b.elements[i].scalar_key(),
        );
    }
    lemma_first_nested_difference(x, y, i + 2);
}

/// Arrays of one element type with the same elements are ordered by the number of their
/// dimensions, then by the first dimensions whose lengths differ, then by the first
/// whose lower bounds differ.
pub proof fn arrays_of_the_same_elements_are_ordered_by_shape(a: ArrayView, b: ArrayView, i: int)
    requires
        a.element_type == b.element_type,
        a.elements == b.elements,
        ({
            ||| a.dimensions.len() < b.dimensions.len()
            ||| {
                &&& a.dimensions.len() == b.dimensions.len()
                &&& 0 <= i < a.dimensions.len()
                &&& forall|j: int|
                    0 <= j < i ==> (#[trigger] a.dimensions[j]).len == b.dimensions[j].len
                &&& a.dimensions[i].len < b.dimensions[i].len
            }
            ||| {
                &&& a.dimensions.len() == b.dimensions.len()
                &&& 0 <= i < a.dimensions.len()
                &&& forall|j: int|
                    0 <= j < a.dimensions.len() ==> (#[trigger] a.dimensions[j]).len
                        == b.dimensions[j].len
                &&& forall|j: int|
                    0 <= j < i ==> (#[trigger] a.dimensions[j]).lower_bound
                        == b.dimensions[j].lower_bound
                &&& a.dimensions[i].lower_bound < b.dimensions[i].lower_bound
            }
        }),
    ensures
        ValueView::Array(a).order(ValueView::Array(b)) == Order::Less,
        ValueView::Array(b).order(ValueView::Array(a)) == Order::Greater,
{
    lemma_array_key(a);
    lemma_array_key(b);
    let (x, y) = (ValueView::Array(a).key(), ValueView::Array(b).key());
    let n = a.elements.len() as int;
    assert forall|j: int| 0 <= j < n + 2 implies x[j] == y[j] by {
        if j >= 2 {
            let k = j - 2;
            assert(x[k + 2] == y[k + 2]);
        }
    }
    let (s, t) = (a.shape_key(), b.shape_key());
    let d = a.dimensions.len() as int;
    assert(s[0] == t[0] && s[1] == d && t[1] == b.dimensions.len());
    if a.dimensions.len() < b.dimensions.len() {
        lemma_first_difference(s, t, 1);
    } else {
        assert forall|j: int| 0 <= j < d implies s[j + 2] == a.dimensions[j].len && t[j + 2]
            == b.dimensions[j].len && s[d + j + 2] == a.dimensions[j].lower_bound && t[d + j + 2]
            == b.dimensions[j].lower_bound by {}
        if a.dimensions[i].len < b.dimensions[i].len && forall|j: int|
            0 <= j < i ==> (#[trigger] a.dimensions[j]).len == b.dimensions[j].len {
            assert(s[i + 2] < t[i + 2]);
            assert forall|j: int| 0 <= j < i + 2 implies s[j] == t[j] by {
                if j >= 2 {
                    assert(a.dimensions[j - 2].len == b.dimensions[j - 2].len);
                }
            }
            lemma_first_difference(s, t, i + 2);
        } else {
            assert(s[d + i + 2] < t[d + i + 2]);
            assert forall|j: int| 0 <= j < d + i + 2 implies s[j] == t[j] by {
                if 2 <= j < d + 2 {
                    assert(a.dimensions[j - 2].len == b.dimensions[j - 2].len);
                } else if j >= d + 2 {
                    let k = j - d - 2;
                    assert(a.dimensions[k].lower_bound == b.dimensions[k].lower_bound);
                }
            }
            lemma_first_difference(s, t, d + i + 2);
        }
    }
    lemma_first_nested_difference(x, y, n + 2);
}

/// Arrays of different element types are ordered by these types alone, in their declared
/// order; among numeric types those without a precision come first, then the smaller
/// precision, then the smaller scale.
pub proof fn arrays_are_ordered_by_element_type(a: ArrayView, b: ArrayView)
    requires
        ({
            let (x, y) = (a.element_type, b.element_type);
            ||| x is Integer && y is Text
            ||| x is Text && y is Boolean
            ||| x is Boolean && y is Date
            ||| x is Date && y is Timestamp
            ||| x is Timestamp && y is Time
            ||| x is Time && y is TimestampTz
            ||| x is TimestampTz && y is Interval
            ||| x is Interval && y is Bytea
            ||| x is Bytea && y is Uuid
            ||| x is Uuid && y is Double
            ||| x is Double && y is Real
            ||| x is Real && y is Numeric
            ||| match (x, y) {
                (
                    DataType::Numeric { precision: None, scale: s },
                    DataType::Numeric { precision: None, scale: t },
                ) => s < t,
                (
                    DataType::Numeric { precision: None, .. },
                    DataType::Numeric { precision: Some(_), .. },
                ) => true,
                (
                    DataType::Numeric { precision: Some(p), scale: s },
                    DataType::Numeric { precision: Some(q), scale: t },
                ) => p < q || p == q && s < t,
                _ => false,
            }
        }),
    ensures
        ValueView::Array(a).order(ValueView::Array(b)) == Order::Less,
        ValueView::Array(b).order(ValueView::Array(a)) == Order::Greater,
{
    lemma_array_key(a);
    lemma_array_key(b);
    let (x, y) = (a.element_type, b.element_type);
    assert(x.key()[0] == x.spec_rank());
    assert(y.key()[0] == y.spec_rank());
    if x.spec_rank() < y.spec_rank() {
        lemma_first_difference(x.key(), y.key(), 0);
    } else {
        DataType::lemma_numeric_key(x);
        DataType::lemma_numeric_key(y);
        if x->precision is None && y->precision is None {
            lemma_first_difference(x.key(), y.key(), 2);
        } else if x->precision is None {
            lemma_first_difference(x.key(), y.key(), 1);
        } else if x->precision->0 < y->precision->0 {
            lemma_first_difference(x.key(), y.key(), 2);
        } else {
            lemma_first_difference(x.key(), y.key(), 3);
        }
    }
    lemma_first_nested_difference(ValueView::Array(a).key(), ValueView::Array(b).key(), 1);
}

/// Lists of values are ordered by the first values that differ, and a list comes before
/// every longer one that begins with it.
pub proof fn lists_are_ordered_by_first_difference(a: Seq<ValueView>, b: Seq<ValueView>, i: int)
    requires
        0 <= i <= a.len(),
        i < b.len(),
        forall|j: int| 0 <= j < i ==> (#[trigger] a[j]).order(b[j]) == Order::Equal,
        i == a.len() || a[i].order(b[i]) == Order::Less,
    ensures
        row::order_of_values(a, b) == Order::Less,
        row::order_of_values(b, a) == Order::Greater,
    decreases i,
{
    if i > 0 {
        assert(a[0].order(b[0]) == Order::Equal);
        let (x, y) = (a.drop_first(), b.drop_first());
        assert forall|j: int| 0 <= j < i - 1 implies (#[trigger] x[j]).order(y[j]) == Order::Equal by {
            assert(a[j + 1].order(b[j + 1]) == Order::Equal);
        }
        ValueView::order_is_total(a[0], b[0]);
        lists_are_ordered_by_first_difference(x, y, i - 1);
    } else if a.len() > 0 {
        ValueView::order_is_total(a[0], b[0]);
    }
}

/// Comparing values with the standard library's operators gives the order of values,
/// and `==` holds of those that are neither less nor greater.
pub proof fn operators_agree_with_the_order(a: Value, b: Value)
    ensures
        vstd::std_specs::cmp::PartialOrdSpec::partial_cmp_spec(&a, &b) == Some(
            match a@.order(b@) {
                Order::Less => Ordering::Less,
                Order::Equal => Ordering::Equal,
                Order::Greater => Ordering::Greater,
            },
        ),
        vstd::std_specs::cmp::PartialEqSpec::eq_spec(&a, &b) <==> a@.order(b@) == Order::Equal,
{
    ValueView::order_is_total(a@, b@);
}

} // verus!
