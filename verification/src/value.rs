//! SQL values.

use core::cmp::Ordering;
use vstd::prelude::*;

use crate::array::{ArrayView, SqlArray};
use crate::float::{OrderedF32, OrderedF64};
use crate::interval::Interval;
use crate::numeric::{Decimal, DecimalView};
use crate::order::{self, Order};
use crate::schema::DataType;
use crate::text;

pub mod diagnostic;
pub mod ordering;

verus! {

/// A SQL value. The order of the variants is the durable order of values of
/// different kinds in a B-tree.
#[derive(Debug, Hash)]
pub enum Value {
    Null,
    Boolean(bool),
    Integer(i64),
    /// `DOUBLE PRECISION`, with a total order (NaN sorts greatest and equals
    /// itself, `-0.0 == +0.0`).
    Float(OrderedF64),
    /// `REAL` (single precision), with the same NaN / signed-zero rules as `Float`.
    Real(OrderedF32),
    /// `NUMERIC` / `DECIMAL`, an exact base-10 value carrying its own scale. It
    /// compares and hashes by value (`1.0` == `1.00`).
    Numeric(Decimal),
    Text(String),
    /// `DATE`, stored as days from the Unix epoch (1970-01-01 = 0).
    Date(i64),
    /// `TIMESTAMP` (without time zone), stored as microseconds from the Unix epoch
    /// (1970-01-01 00:00:00 = 0).
    Timestamp(i64),
    /// `TIME` (without time zone), stored as microseconds since midnight
    /// (`0..86_400_000_000`).
    Time(i64),
    /// `TIMESTAMP WITH TIME ZONE`, stored as microseconds from the Unix epoch in
    /// UTC (input offsets are normalized to UTC; always displayed in UTC).
    TimestampTz(i64),
    /// `INTERVAL` - months/days/microseconds kept separate; compares by the
    /// canonical estimate (so `1 mon` == `30 days`).
    Interval(Interval),
    /// `BYTEA` - a raw byte string, ordered lexicographically.
    Bytes(Vec<u8>),
    /// `UUID`, stored as its 16 bytes in the canonical (network-order) byte order.
    Uuid([u8; 16]),
    /// A homogeneous rectangular SQL array.
    Array(SqlArray),
}

/// What a value holds.
pub enum ValueView {
    Null,
    Boolean(bool),
    Integer(i64),
    Float(OrderedF64),
    Real(OrderedF32),
    Numeric(DecimalView),
    Text(Seq<char>),
    Date(i64),
    Timestamp(i64),
    Time(i64),
    TimestampTz(i64),
    Interval(Interval),
    Bytes(Seq<u8>),
    Uuid(Seq<u8>),
    Array(ArrayView),
}

impl Value {
    /// What the value holds.
    pub open spec fn model(self) -> ValueView
        decreases self,
    {
        match self {
            Value::Null => ValueView::Null,
            Value::Boolean(b) => ValueView::Boolean(b),
            Value::Integer(n) => ValueView::Integer(n),
            Value::Float(f) => ValueView::Float(f),
            Value::Real(f) => ValueView::Real(f),
            Value::Numeric(d) => ValueView::Numeric(d@),
            Value::Text(t) => ValueView::Text(t@),
            Value::Date(n) => ValueView::Date(n),
            Value::Timestamp(n) => ValueView::Timestamp(n),
            Value::Time(n) => ValueView::Time(n),
            Value::TimestampTz(n) => ValueView::TimestampTz(n),
            Value::Interval(i) => ValueView::Interval(i),
            Value::Bytes(b) => ValueView::Bytes(b@),
            Value::Uuid(b) => ValueView::Uuid(b@),
            Value::Array(a) => ValueView::Array(a.model()),
        }
    }
}

impl View for Value {
    type V = ValueView;

    open spec fn view(&self) -> ValueView {
        self.model()
    }
}

impl ValueView {
    /// Position of the kind of value in declaration order.
    pub open spec fn rank(self) -> int {
        match self {
            ValueView::Null => 0,
            ValueView::Boolean(_) => 1,
            ValueView::Integer(_) => 2,
            ValueView::Float(_) => 3,
            ValueView::Real(_) => 4,
            ValueView::Numeric(_) => 5,
            ValueView::Text(_) => 6,
            ValueView::Date(_) => 7,
            ValueView::Timestamp(_) => 8,
            ValueView::Time(_) => 9,
            ValueView::TimestampTz(_) => 10,
            ValueView::Interval(_) => 11,
            ValueView::Bytes(_) => 12,
            ValueView::Uuid(_) => 13,
            ValueView::Array(_) => 14,
        }
    }

    /// What orders scalar values of one kind.
    pub open spec fn payload_key(self) -> Seq<int> {
        match self {
            ValueView::Null => Seq::empty(),
            ValueView::Boolean(b) => seq![
                if b {
                    1int
                } else {
                    0int
                },
            ],
            ValueView::Integer(n) => seq![n as int],
            ValueView::Float(f) => seq![f.key()],
            ValueView::Real(f) => seq![f.key()],
            ValueView::Numeric(d) => seq![d.key()],
            ValueView::Text(t) => order::char_key(t),
            ValueView::Date(n) => seq![n as int],
            ValueView::Timestamp(n) => seq![n as int],
            ValueView::Time(n) => seq![n as int],
            ValueView::TimestampTz(n) => seq![n as int],
            ValueView::Interval(i) => seq![i.key()],
            ValueView::Bytes(b) => order::byte_key(b),
            ValueView::Uuid(b) => order::byte_key(b),
            ValueView::Array(_) => Seq::empty(),
        }
    }

    /// The kind of a scalar value, followed by what orders values of that kind.
    pub open spec fn scalar_key(self) -> Seq<int> {
        seq![self.rank()] + self.payload_key()
    }

    /// The value's place in the durable order of values: values are ordered, and
    /// equal, as their keys are.
    pub open spec fn key(self) -> Seq<Seq<int>> {
        match self {
            ValueView::Array(array) => seq![self.scalar_key()] + array.key(),
            _ => seq![self.scalar_key()],
        }
    }

    /// The order of two values.
    pub open spec fn order(self, other: ValueView) -> Order {
        order::nested_lex_order(self.key(), other.key())
    }

    /// Equality of values.
    pub open spec fn same(self, other: ValueView) -> bool {
        self.key() == other.key()
    }

    /// The order is total and agrees with equality: exactly one of less, equal and
    /// greater holds of two values, seen from either side.
    pub proof fn order_is_total(a: ValueView, b: ValueView)
        ensures
            a.order(b) == Order::Equal <==> a.same(b),
            b.order(a) == order::reversed(a.order(b)),
    {
        order::nested_lex_order_is_antisymmetric(a.key(), b.key());
    }

    /// The order is transitive.
    pub proof fn order_is_transitive(a: ValueView, b: ValueView, c: ValueView)
        requires
            a.order(b) == Order::Less,
            b.order(c) == Order::Less,
        ensures
            a.order(c) == Order::Less,
    {
        order::nested_lex_order_is_transitive(a.key(), b.key(), c.key());
    }

    /// Values of different kinds are ordered by the declaration order of the kinds.
    pub proof fn kinds_are_ordered(a: ValueView, b: ValueView)
        requires
            a.rank() < b.rank(),
        ensures
            a.order(b) == Order::Less,
    {
        assert(a.key()[0] == a.scalar_key());
        assert(b.key()[0] == b.scalar_key());
        assert(a.scalar_key()[0] == a.rank());
        assert(b.scalar_key()[0] == b.rank());
    }

    /// Whether a logical value belongs to a semantic SQL type. NULL belongs to
    /// every type.
    pub open spec fn matches_type(self, data_type: DataType) -> bool {
        match self {
            ValueView::Null => true,
            ValueView::Integer(_) => data_type is Integer,
            ValueView::Text(_) => data_type is Text,
            ValueView::Boolean(_) => data_type is Boolean,
            ValueView::Date(_) => data_type is Date,
            ValueView::Timestamp(_) => data_type is Timestamp,
            ValueView::Time(_) => data_type is Time,
            ValueView::TimestampTz(_) => data_type is TimestampTz,
            ValueView::Interval(_) => data_type is Interval,
            ValueView::Bytes(_) => data_type is Bytea,
            ValueView::Uuid(_) => data_type is Uuid,
            ValueView::Float(_) => data_type is Double,
            ValueView::Real(_) => data_type is Real,
            ValueView::Numeric(_) => data_type is Numeric,
            ValueView::Array(array) => data_type matches DataType::Array(array_type)
                && array.element_type == array_type.element(),
        }
    }
}

impl Value {
    fn rank(&self) -> (rank: u8)
        ensures
            rank == self@.rank(),
    {
        match self {
            Value::Null => 0,
            Value::Boolean(_) => 1,
            Value::Integer(_) => 2,
            Value::Float(_) => 3,
            Value::Real(_) => 4,
            Value::Numeric(_) => 5,
            Value::Text(_) => 6,
            Value::Date(_) => 7,
            Value::Timestamp(_) => 8,
            Value::Time(_) => 9,
            Value::TimestampTz(_) => 10,
            Value::Interval(_) => 11,
            Value::Bytes(_) => 12,
            Value::Uuid(_) => 13,
            Value::Array(_) => 14,
        }
    }

    /// The order of two scalar values.
    pub(crate) fn scalar_order(&self, other: &Self) -> (order: Order)
        ensures
            order == order::lex_order(self@.scalar_key(), other@.scalar_key()),
    {
        let (a, b): (u8, u8) = (self.rank(), other.rank());
        proof {
            assert(self@.scalar_key()[0] == a);
            assert(other@.scalar_key()[0] == b);
        }
        if a < b {
            return Order::Less;
        }
        if a > b {
            return Order::Greater;
        }
        proof {
            order::lemma_lex_order_skips_prefix(
                seq![a as int],
                self@.payload_key(),
                other@.payload_key(),
            );
            reveal_with_fuel(order::lex_order, 2);
        }
        match (self, other) {
            (Value::Boolean(x), Value::Boolean(y)) => {
                if *x == *y {
                    Order::Equal
                } else if *x {
                    Order::Greater
                } else {
                    Order::Less
                }
            },
            (Value::Integer(x), Value::Integer(y))
            | (Value::Date(x), Value::Date(y))
            | (Value::Timestamp(x), Value::Timestamp(y))
            | (Value::Time(x), Value::Time(y))
            | (Value::TimestampTz(x), Value::TimestampTz(y)) => {
                if *x < *y {
                    Order::Less
                } else if *x > *y {
                    Order::Greater
                } else {
                    Order::Equal
                }
            },
            (Value::Float(x), Value::Float(y)) => x.order(y),
            (Value::Real(x), Value::Real(y)) => x.order(y),
            (Value::Numeric(x), Value::Numeric(y)) => x.order(y),
            (Value::Interval(x), Value::Interval(y)) => x.order(y),
            (Value::Text(x), Value::Text(y)) => {
                let (x, y): (Vec<char>, Vec<char>) = (
                    text::chars_of(x.as_str()),
                    text::chars_of(y.as_str()),
                );
                order::order_chars(x.as_slice(), y.as_slice())
            },
            (Value::Bytes(x), Value::Bytes(y)) => order::order_bytes(x.as_slice(), y.as_slice()),
            (Value::Uuid(x), Value::Uuid(y)) => order::order_bytes(x, y),
            _ => Order::Equal,
        }
    }

    /// The durable order of values.
    pub fn order(&self, other: &Self) -> (order: Order)
        ensures
            order == self@.order(other@),
    {
        proof {
            reveal_with_fuel(order::nested_lex_order, 2);
            assert(self@.key()[0] == self@.scalar_key());
            assert(other@.key()[0] == other@.scalar_key());
            order::lex_order_is_antisymmetric(self@.scalar_key(), other@.scalar_key());
        }
        match self.scalar_order(other) {
            Order::Equal => {
                proof {
                    assert(self@.scalar_key()[0] == other@.scalar_key()[0]);
                    assert(self@.rank() == self@.scalar_key()[0]);
                    assert(other@.rank() == other@.scalar_key()[0]);
                }
                match (self, other) {
                    (Value::Array(x), Value::Array(y)) => {
                        proof {
                            order::lemma_nested_order_skips_prefix(
                                seq![self@.scalar_key()],
                                x@.key(),
                                y@.key(),
                            );
                        }
                        x.order(y)
                    },
                    _ => {
                        proof {
                            assert(self@.key() == other@.key());
                            order::nested_lex_order_is_antisymmetric(self@.key(), other@.key());
                        }
                        Order::Equal
                    },
                }
            },
            decided => decided,
        }
    }
}

impl PartialEq for Value {
    fn eq(&self, other: &Self) -> (equal: bool) {
        proof {
            ValueView::order_is_total(self@, other@);
        }
        matches!(self.order(other), Order::Equal)
    }
}

impl vstd::std_specs::cmp::PartialEqSpecImpl for Value {
    open spec fn obeys_eq_spec() -> bool {
        true
    }

    open spec fn eq_spec(&self, other: &Self) -> bool {
        self@.same(other@)
    }
}

impl Eq for Value {

}

impl PartialOrd for Value {
    fn partial_cmp(&self, other: &Self) -> (order: Option<Ordering>) {
        Some(order::to_std_order(self.order(other)))
    }
}

impl vstd::std_specs::cmp::PartialOrdSpecImpl for Value {
    open spec fn obeys_partial_cmp_spec() -> bool {
        true
    }

    open spec fn partial_cmp_spec(&self, other: &Self) -> Option<Ordering> {
        Some(order::std_order(self@.order(other@)))
    }
}

impl Clone for Value {
    fn clone(&self) -> (copy: Self)
        ensures
            copy@ == self@,
        decreases self,
    {
        match self {
            Value::Null => Value::Null,
            Value::Boolean(b) => Value::Boolean(*b),
            Value::Integer(n) => Value::Integer(*n),
            Value::Float(f) => Value::Float(*f),
            Value::Real(f) => Value::Real(*f),
            Value::Numeric(d) => Value::Numeric(*d),
            Value::Text(t) => Value::Text(t.clone()),
            Value::Date(n) => Value::Date(*n),
            Value::Timestamp(n) => Value::Timestamp(*n),
            Value::Time(n) => Value::Time(*n),
            Value::TimestampTz(n) => Value::TimestampTz(*n),
            Value::Interval(i) => Value::Interval(*i),
            Value::Bytes(b) => {
                let copy: Vec<u8> = b.clone();
                assert(copy@ == b@);
                Value::Bytes(copy)
            },
            Value::Uuid(b) => Value::Uuid(*b),
            Value::Array(a) => Value::Array(a.clone()),
        }
    }
}

/// Texts that PostgreSQL reads as a boolean, in lower case.
pub open spec fn boolean_of_word(word: Seq<char>) -> Option<bool> {
    if word == "t"@ || word == "true"@ || word == "y"@ || word == "yes"@ || word == "on"@ || word
        == "1"@ {
        Some(true)
    } else if word == "f"@ || word == "false"@ || word == "n"@ || word == "no"@ || word == "off"@
        || word == "0"@ {
        Some(false)
    } else {
        None
    }
}

/// Parse PostgreSQL boolean input text, returning `None` for unrecognized input
/// so each caller can map the failure to its own SQLSTATE (the protocol
/// extended-query path uses a protocol error; the `COPY` import path uses
/// `SqlState::InvalidTextRepresentation`). Surrounding whitespace is ignored and
/// matching is case-insensitive, matching PostgreSQL's `boolin`.
pub fn parse_bool_text(text: &str) -> (parsed: Option<bool>)
    ensures
        parsed == boolean_of_word(text::ascii_lowered(text::trimmed(text@))),
{
    let chars: Vec<char> = text::chars_of(text);
    let lowered: Vec<char> = text::to_ascii_lowered(text::trim(chars.as_slice()));
    let word: &[char] = lowered.as_slice();
    if text::chars_equal(word, "t") || text::chars_equal(word, "true") || text::chars_equal(
        word,
        "y",
    ) || text::chars_equal(word, "yes") || text::chars_equal(word, "on") || text::chars_equal(
        word,
        "1",
    ) {
        Some(true)
    } else if text::chars_equal(word, "f") || text::chars_equal(word, "false")
        || text::chars_equal(word, "n") || text::chars_equal(word, "no") || text::chars_equal(
        word,
        "off",
    ) || text::chars_equal(word, "0") {
        Some(false)
    } else {
        None
    }
}

/// A text is read as true or false by its word in any case, whatever white space stands
/// around it; no word is both, and any other word is neither.
pub proof fn booleans_are_read_by_their_words(text: &str, parsed: Option<bool>)
    requires
        call_ensures(parse_bool_text, (text,), parsed),
    ensures
        ({
            let word = text::ascii_lowered(text::trimmed(text@));
            let is = |c: char| word == seq![c];
            &&& parsed == Some(true) <==> is('t') || is('y') || is('1') || word == "true"@ || word
                == "yes"@ || word == "on"@
            &&& parsed == Some(false) <==> is('f') || is('n') || is('0') || word == "false"@
                || word == "no"@ || word == "off"@
        }),
{
    reveal_strlit("t");
    reveal_strlit("true");
    reveal_strlit("y");
    reveal_strlit("yes");
    reveal_strlit("on");
    reveal_strlit("1");
    reveal_strlit("f");
    reveal_strlit("false");
    reveal_strlit("n");
    reveal_strlit("no");
    reveal_strlit("off");
    reveal_strlit("0");
    let word = text::ascii_lowered(text::trimmed(text@));
    assert("t"@ =~= seq!['t'] && "y"@ =~= seq!['y'] && "1"@ =~= seq!['1']);
    assert("f"@ =~= seq!['f'] && "n"@ =~= seq!['n'] && "0"@ =~= seq!['0']);
    if word == "true"@ || word == "yes"@ || word == "on"@ || word == "false"@ || word == "no"@
        || word == "off"@ {
        assert(word.len() > 1);
        assert(word[0] == 't' || word[0] == 'y' || word[0] == 'o' || word[0] == 'f' || word[0]
            == 'n');
    }
    if word.len() == 1 {
        assert(word =~= seq![word[0]]);
    }
}

} // verus!
