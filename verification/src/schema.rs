//! SQL types and catalog schema objects.

use vstd::prelude::*;

use crate::error::{self, DbError, Result, SqlState};
use crate::order::{self, Order};
use crate::text;

pub mod equality;
pub mod relation;
pub mod toast;

pub use relation::{
    ColumnDef, ColumnDefault, ColumnInfo, ConstraintKind, ConstraintSchema, ForeignKeyAction,
    ForeignKeyConstraint, IndexSchema, NamespaceSchema, ParsedColumnDef, ParsedDefault,
    QualifiedName, SequenceOptions, SequenceSchema, TableSchema, TruncateCatalogUpdate,
    TruncateTablePlan, ViewColumn, ViewSchema, INITIAL_SCHEMA_VERSION, VIEW_SCHEMA_FORMAT_VERSION,
};
pub use toast::{
    needs_toast_relation, toast_relation_name, toast_schema, CompressionSetting, RelationKind,
    TableOptionPatch, ToastCompression, ToastMode, ToastOptionPatch, ToastOptions,
};

verus! {

/// The semantic type of a SQL value.
#[derive(Debug, PartialOrd, Ord, Hash)]
pub enum DataType {
    Integer,
    Text,
    Boolean,
    /// `DATE` - calendar date, value carried as `Value::Date` (days from epoch).
    Date,
    /// `TIMESTAMP` (without time zone), value carried as `Value::Timestamp`
    /// (microseconds from epoch).
    Timestamp,
    /// `TIME` (without time zone), value carried as `Value::Time` (microseconds
    /// since midnight).
    Time,
    /// `TIMESTAMP WITH TIME ZONE`, value carried as `Value::TimestampTz`
    /// (microseconds from epoch, UTC-normalized).
    TimestampTz,
    /// `INTERVAL`, value carried as `Value::Interval` (months/days/microseconds).
    Interval,
    /// `BYTEA` - raw byte string, value carried as `Value::Bytes`.
    Bytea,
    /// `UUID` - 128-bit identifier, value carried as `Value::Uuid` (16 bytes).
    Uuid,
    /// `DOUBLE PRECISION` - IEEE 754 binary64, value carried as `Value::Float`.
    Double,
    /// `REAL` - IEEE 754 binary32 (single precision), value carried as `Value::Real`.
    Real,
    /// `NUMERIC` / `DECIMAL` - exact decimal, value carried as `Value::Numeric`.
    /// `precision: None` is unconstrained `NUMERIC` (any precision/scale); `Some(p)`
    /// constrains to `p` total digits with the given `scale` (values are rounded to
    /// `scale` and rejected when the integer part exceeds `p - scale` digits).
    Numeric { precision: Option<u32>, scale: u32 },
    /// A rectangular PostgreSQL array. Multidimensionality belongs to the value's
    /// shape; the boxed type is always a non-array scalar element type.
    Array(ArrayType),
}

/// The type of an array, given by the type of its elements, which is never
/// itself an array.
#[derive(Debug, PartialOrd, Ord, Hash)]
pub struct ArrayType(Box<DataType>);

impl DataType {
    /// Position of the type in declaration order.
    pub open spec fn spec_rank(self) -> int {
        match self {
            DataType::Integer => 0,
            DataType::Text => 1,
            DataType::Boolean => 2,
            DataType::Date => 3,
            DataType::Timestamp => 4,
            DataType::Time => 5,
            DataType::TimestampTz => 6,
            DataType::Interval => 7,
            DataType::Bytea => 8,
            DataType::Uuid => 9,
            DataType::Double => 10,
            DataType::Real => 11,
            DataType::Numeric { .. } => 12,
            DataType::Array(_) => 13,
        }
    }

    /// The parameters that tell types of one kind apart. An absent precision
    /// comes before every given one.
    pub closed spec fn parameter_key(self) -> Seq<int>
        decreases self,
    {
        match self {
            DataType::Numeric { precision: None, scale } => seq![0, scale as int],
            DataType::Numeric { precision: Some(precision), scale } => seq![
                1,
                precision as int,
                scale as int,
            ],
            DataType::Array(array) => seq![array.0.spec_rank()] + array.0.parameter_key(),
            _ => Seq::empty(),
        }
    }

    /// Position of the type in declaration order, followed by its parameters.
    pub open spec fn key(self) -> Seq<int> {
        seq![self.spec_rank()] + self.parameter_key()
    }

    /// Distinct types have distinct keys.
    pub proof fn keys_are_distinct(a: DataType, b: DataType)
        requires
            a.key() == b.key(),
        ensures
            a == b,
        decreases a,
    {
        assert(a.key()[0] == a.spec_rank());
        assert(b.key()[0] == b.spec_rank());
        assert(a.key().skip(1) == a.parameter_key());
        assert(b.key().skip(1) == b.parameter_key());
        match (a, b) {
            (
                DataType::Numeric { precision: p, scale: s },
                DataType::Numeric { precision: q, scale: t },
            ) => {
                assert(a.parameter_key()[0] == b.parameter_key()[0]);
                assert(a.parameter_key()[1] == b.parameter_key()[1]);
                if p is Some {
                    assert(a.parameter_key()[2] == b.parameter_key()[2]);
                }
            },
            (DataType::Array(x), DataType::Array(y)) => {
                Self::keys_are_distinct(*x.0, *y.0);
            },
            _ => {},
        }
    }

    pub(crate) proof fn lemma_numeric_key(self)
        requires
            self is Numeric,
        ensures
            self.key() == match self->precision {
                None => seq![12int, 0int, self->scale as int],
                Some(precision) => seq![12int, 1int, precision as int, self->scale as int],
            },
    {
    }

    fn is_same(&self, other: &Self) -> (same: bool)
        ensures
            same == (*self == *other),
        decreases *self,
    {
        match (self, other) {
            (DataType::Integer, DataType::Integer) => true,
            (DataType::Text, DataType::Text) => true,
            (DataType::Boolean, DataType::Boolean) => true,
            (DataType::Date, DataType::Date) => true,
            (DataType::Timestamp, DataType::Timestamp) => true,
            (DataType::Time, DataType::Time) => true,
            (DataType::TimestampTz, DataType::TimestampTz) => true,
            (DataType::Interval, DataType::Interval) => true,
            (DataType::Bytea, DataType::Bytea) => true,
            (DataType::Uuid, DataType::Uuid) => true,
            (DataType::Double, DataType::Double) => true,
            (DataType::Real, DataType::Real) => true,
            (
                DataType::Numeric { precision, scale },
                DataType::Numeric { precision: other_precision, scale: other_scale },
            ) => {
                (match (precision, other_precision) {
                    (None, None) => true,
                    (Some(p), Some(q)) => *p == *q,
                    _ => false,
                }) && *scale == *other_scale
            },
            (DataType::Array(a), DataType::Array(b)) => a.0.is_same(&b.0),
            _ => false,
        }
    }

    /// The type's position in declaration order.
    fn rank(&self) -> (rank: u8)
        ensures
            rank == self.spec_rank(),
    {
        match self {
            DataType::Integer => 0,
            DataType::Text => 1,
            DataType::Boolean => 2,
            DataType::Date => 3,
            DataType::Timestamp => 4,
            DataType::Time => 5,
            DataType::TimestampTz => 6,
            DataType::Interval => 7,
            DataType::Bytea => 8,
            DataType::Uuid => 9,
            DataType::Double => 10,
            DataType::Real => 11,
            DataType::Numeric { .. } => 12,
            DataType::Array(_) => 13,
        }
    }

    /// The name of the type and its parameters in diagnostics.
    pub closed spec fn diagnostic_text(self) -> Seq<char>
        decreases self,
    {
        match self {
            DataType::Integer => "Integer"@,
            DataType::Text => "Text"@,
            DataType::Boolean => "Boolean"@,
            DataType::Date => "Date"@,
            DataType::Timestamp => "Timestamp"@,
            DataType::Time => "Time"@,
            DataType::TimestampTz => "TimestampTz"@,
            DataType::Interval => "Interval"@,
            DataType::Bytea => "Bytea"@,
            DataType::Uuid => "Uuid"@,
            DataType::Double => "Double"@,
            DataType::Real => "Real"@,
            DataType::Numeric { precision: None, scale } => "Numeric { precision: None, scale: "@
                + text::decimal_text(scale as nat) + " }"@,
            DataType::Numeric { precision: Some(precision), scale } =>
                "Numeric { precision: Some("@ + text::decimal_text(precision as nat)
                + "), scale: "@ + text::decimal_text(scale as nat) + " }"@,
            DataType::Array(array) => "Array(ArrayType("@ + array.0.diagnostic_text() + "))"@,
        }
    }

    /// The name of the type and its parameters, as diagnostics show it.
    pub(crate) fn diagnostic(&self) -> (name: String)
        ensures
            name@ == self.diagnostic_text(),
        decreases *self,
    {
        match self {
            DataType::Integer => "Integer".to_owned(),
            DataType::Text => "Text".to_owned(),
            DataType::Boolean => "Boolean".to_owned(),
            DataType::Date => "Date".to_owned(),
            DataType::Timestamp => "Timestamp".to_owned(),
            DataType::Time => "Time".to_owned(),
            DataType::TimestampTz => "TimestampTz".to_owned(),
            DataType::Interval => "Interval".to_owned(),
            DataType::Bytea => "Bytea".to_owned(),
            DataType::Uuid => "Uuid".to_owned(),
            DataType::Double => "Double".to_owned(),
            DataType::Real => "Real".to_owned(),
            DataType::Numeric { precision: None, scale } => text::numbered_text(
                "Numeric { precision: None, scale: ",
                *scale as u128,
                " }",
            ),
            DataType::Numeric { precision: Some(precision), scale } => {
                let start: String = text::numbered_text(
                    "Numeric { precision: Some(",
                    *precision as u128,
                    "), scale: ",
                );
                text::numbered_text(start.as_str(), *scale as u128, " }")
            },
            DataType::Array(array) => {
                let element: String = array.0.diagnostic();
                text::joined_text("Array(ArrayType(", element.as_str(), "))")
            },
        }
    }

    /// Declaration order of types; parameters decide between types of one kind.
    pub fn order(&self, other: &Self) -> (order: Order)
        ensures
            order == order::lex_order(self.key(), other.key()),
        decreases *self,
    {
        let (a, b): (u8, u8) = (self.rank(), other.rank());
        proof {
            assert(self.key()[0] == self.spec_rank());
            assert(other.key()[0] == other.spec_rank());
        }
        if a < b {
            return Order::Less;
        }
        if a > b {
            return Order::Greater;
        }
        proof {
            order::lemma_lex_order_skips_prefix(
                seq![self.spec_rank()],
                self.parameter_key(),
                other.parameter_key(),
            );
            reveal_with_fuel(order::lex_order, 4);
        }
        match (self, other) {
            (
                DataType::Numeric { precision, scale },
                DataType::Numeric { precision: other_precision, scale: other_scale },
            ) => {
                let by_scale: Order = order::order_ints(*scale as i128, *other_scale as i128);
                match (precision, other_precision) {
                    (None, None) => {
                        assert(self.parameter_key().drop_first() == seq![*scale as int]);
                        assert(other.parameter_key().drop_first() == seq![*other_scale as int]);
                        by_scale
                    },
                    (None, Some(_)) => Order::Less,
                    (Some(_), None) => Order::Greater,
                    (Some(p), Some(q)) => {
                        assert(self.parameter_key().drop_first() == seq![
                            *p as int,
                            *scale as int,
                        ]);
                        assert(other.parameter_key().drop_first() == seq![
                            *q as int,
                            *other_scale as int,
                        ]);
                        assert(seq![*p as int, *scale as int].drop_first() == seq![*scale as int]);
                        assert(seq![*q as int, *other_scale as int].drop_first() == seq![
                            *other_scale as int,
                        ]);
                        if *p < *q {
                            Order::Less
                        } else if *p > *q {
                            Order::Greater
                        } else {
                            by_scale
                        }
                    },
                }
            },
            (DataType::Array(x), DataType::Array(y)) => x.0.order(&y.0),
            _ => Order::Equal,
        }
    }
}

impl Clone for DataType {
    fn clone(&self) -> (copy: Self)
        ensures
            copy == *self,
        decreases self,
    {
        match self {
            DataType::Integer => DataType::Integer,
            DataType::Text => DataType::Text,
            DataType::Boolean => DataType::Boolean,
            DataType::Date => DataType::Date,
            DataType::Timestamp => DataType::Timestamp,
            DataType::Time => DataType::Time,
            DataType::TimestampTz => DataType::TimestampTz,
            DataType::Interval => DataType::Interval,
            DataType::Bytea => DataType::Bytea,
            DataType::Uuid => DataType::Uuid,
            DataType::Double => DataType::Double,
            DataType::Real => DataType::Real,
            DataType::Numeric { precision, scale } => DataType::Numeric {
                precision: *precision,
                scale: *scale,
            },
            DataType::Array(array) => {
                proof {
                    use_type_invariant(array);
                }
                let element: DataType = (*array.0).clone();
                DataType::Array(ArrayType(Box::new(element)))
            },
        }
    }
}

impl PartialEq for DataType {
    fn eq(&self, other: &Self) -> (same: bool) {
        self.is_same(other)
    }
}

impl vstd::std_specs::cmp::PartialEqSpecImpl for DataType {
    open spec fn obeys_eq_spec() -> bool {
        true
    }

    open spec fn eq_spec(&self, other: &Self) -> bool {
        *self == *other
    }
}

impl Eq for DataType {

}

impl ArrayType {
    #[verifier::type_invariant]
    spec fn has_scalar_elements(self) -> bool {
        !(*self.0 is Array)
    }

    /// The array type with elements of the given type.
    pub closed spec fn of(element_type: DataType) -> ArrayType {
        ArrayType(Box::new(element_type))
    }

    /// The type of the elements.
    pub closed spec fn element(self) -> DataType {
        *self.0
    }

    /// An array type is determined by its element type.
    pub broadcast proof fn array_type_is_its_element(element_type: DataType)
        ensures
            (#[trigger] ArrayType::of(element_type)).element() == element_type,
    {
    }

    /// An array type is determined by its element type.
    pub broadcast proof fn array_type_of_element(array: ArrayType)
        ensures
            ArrayType::of(#[trigger] array.element()) == array,
    {
    }

    pub fn new(element_type: DataType) -> (array: Result<Self>)
        ensures
            match array {
                Ok(array) => !(element_type is Array) && array == ArrayType::of(element_type),
                Err(error) => element_type is Array && error@ == error::plan_error(
                    SqlState::DatatypeMismatch,
                    "array elements cannot themselves be arrays"@,
                ),
            },
    {
        if matches!(element_type, DataType::Array(_)) {
            return Err(
                DbError::plan(
                    SqlState::DatatypeMismatch,
                    "array elements cannot themselves be arrays",
                ),
            );
        }
        Ok(Self(Box::new(element_type)))
    }

    pub(crate) fn from_validated_scalar(element_type: DataType) -> (array: Self)
        requires
            !(element_type is Array),
        ensures
            array == ArrayType::of(element_type),
    {
        Self(Box::new(element_type))
    }

    #[must_use]
    pub fn element_type(&self) -> (element_type: &DataType)
        ensures
            *element_type == self.element(),
            !(*element_type is Array),
    {
        proof {
            use_type_invariant(self);
        }
        &self.0
    }
}

impl Clone for ArrayType {
    fn clone(&self) -> (copy: Self)
        ensures
            copy == *self,
    {
        proof {
            use_type_invariant(self);
        }
        ArrayType(Box::new((*self.0).clone()))
    }
}

impl PartialEq for ArrayType {
    fn eq(&self, other: &Self) -> (same: bool) {
        self.0.is_same(&other.0)
    }
}

impl vstd::std_specs::cmp::PartialEqSpecImpl for ArrayType {
    open spec fn obeys_eq_spec() -> bool {
        true
    }

    open spec fn eq_spec(&self, other: &Self) -> bool {
        *self == *other
    }
}

impl Eq for ArrayType {

}

/// Types are ordered by kind, as they are declared; numerics without a precision come
/// before those with one, which are ordered by precision and then by scale; and arrays are
/// ordered by their elements.
pub proof fn types_are_ordered_as_declared(
    a: DataType,
    b: DataType,
    p: u32,
    q: u32,
    s: u32,
    t: u32,
    x: ArrayType,
    y: ArrayType,
)
    ensures
        DataType::Integer.spec_rank() < DataType::Text.spec_rank()
            < DataType::Boolean.spec_rank() < DataType::Date.spec_rank()
            < DataType::Timestamp.spec_rank() < DataType::Time.spec_rank()
            < DataType::TimestampTz.spec_rank() < DataType::Interval.spec_rank()
            < DataType::Bytea.spec_rank() < DataType::Uuid.spec_rank()
            < DataType::Double.spec_rank() < DataType::Real.spec_rank() < (DataType::Numeric {
            precision: None,
            scale: s,
        }).spec_rank() < DataType::Array(x).spec_rank(),
        a.spec_rank() < b.spec_rank() ==> order::lex_order(a.key(), b.key()) is Less,
        a.spec_rank() > b.spec_rank() ==> order::lex_order(a.key(), b.key()) is Greater,
        ({
            let plain = DataType::Numeric { precision: None, scale: s };
            let other = DataType::Numeric { precision: None, scale: t };
            let first = DataType::Numeric { precision: Some(p), scale: s };
            let second = DataType::Numeric { precision: Some(q), scale: t };
            &&& order::lex_order(plain.key(), second.key()) is Less
            &&& s < t ==> order::lex_order(plain.key(), other.key()) is Less
            &&& p < q ==> order::lex_order(first.key(), second.key()) is Less
            &&& p == q && s < t ==> order::lex_order(first.key(), second.key()) is Less
        }),
        order::lex_order(DataType::Array(x).key(), DataType::Array(y).key()) == order::lex_order(
            x.element().key(),
            y.element().key(),
        ),
{
    reveal_with_fuel(order::lex_order, 5);
    reveal_with_fuel(DataType::parameter_key, 2);
    assert(a.key()[0] == a.spec_rank());
    assert(b.key()[0] == b.spec_rank());
    let plain = DataType::Numeric { precision: None, scale: s };
    let other = DataType::Numeric { precision: None, scale: t };
    let first = DataType::Numeric { precision: Some(p), scale: s };
    let second = DataType::Numeric { precision: Some(q), scale: t };
    let rank = seq![plain.spec_rank()];
    order::lemma_lex_order_skips_prefix(rank, plain.parameter_key(), second.parameter_key());
    order::lemma_lex_order_skips_prefix(rank, plain.parameter_key(), other.parameter_key());
    order::lemma_lex_order_skips_prefix(rank, first.parameter_key(), second.parameter_key());
    assert(plain.parameter_key().drop_first() =~= seq![s as int]);
    assert(other.parameter_key().drop_first() =~= seq![t as int]);
    assert(first.parameter_key().drop_first() =~= seq![p as int, s as int]);
    assert(second.parameter_key().drop_first() =~= seq![q as int, t as int]);
    assert(seq![p as int, s as int].drop_first() =~= seq![s as int]);
    assert(seq![q as int, t as int].drop_first() =~= seq![t as int]);
    let arrays = seq![DataType::Array(x).spec_rank()];
    order::lemma_lex_order_skips_prefix(
        arrays,
        DataType::Array(x).parameter_key(),
        DataType::Array(y).parameter_key(),
    );
    assert(DataType::Array(x).parameter_key() == x.element().key());
    assert(DataType::Array(y).parameter_key() == y.element().key());
}

} // verus!
