//! The typing rules that durable expressions share: which operands an operator
//! takes, and the type and nullability of what it gives.

use vstd::prelude::*;

use crate::error::{self, DbError, ErrorView, Result};
use crate::schema::{ArrayType, DataType};
use crate::stored_expression::StoredBinOp;

pub mod operators;

verus! {

/// The type of an expression and whether it can be NULL.
pub struct Typing {
    pub data_type: DataType,
    pub nullable: bool,
}

/// The typing of one type and nullability.
pub open spec fn typing(data_type: DataType, nullable: bool) -> Typing {
    Typing { data_type, nullable }
}

impl Typing {
    pub(crate) fn new(data_type: DataType, nullable: bool) -> (typing: Self)
        ensures
            typing == (Typing { data_type, nullable }),
    {
        Typing { data_type, nullable }
    }

    pub(crate) fn is_same(&self, other: &Self) -> (same: bool)
        ensures
            same == (*self == *other),
    {
        self.data_type == other.data_type && self.nullable == other.nullable
    }
}

impl StoredBinOp {
    pub open spec fn is_arithmetic(self) -> bool {
        self is Add || self is Sub || self is Mul || self is Div || self is Mod
    }

    pub open spec fn spec_is_comparison(self) -> bool {
        self is Eq || self is Neq || self is Lt || self is LtEq || self is Gt || self is GtEq
    }

    /// The distinctness tests answer for NULL operands too.
    pub open spec fn is_distinctness(self) -> bool {
        self is IsDistinctFrom || self is IsNotDistinctFrom
    }
}

pub(crate) fn is_comparison(op: StoredBinOp) -> (comparison: bool)
    ensures
        comparison == op.spec_is_comparison(),
{
    matches!(
        op,
        StoredBinOp::Eq
        | StoredBinOp::Neq
        | StoredBinOp::Lt
        | StoredBinOp::LtEq
        | StoredBinOp::Gt
        | StoredBinOp::GtEq
    )
}

/// The families of numeric types; arithmetic does not mix them.
pub open spec fn family_of(data_type: DataType) -> Option<u8> {
    match data_type {
        DataType::Integer => Some(0),
        DataType::Double => Some(1),
        DataType::Numeric { .. } => Some(2),
        DataType::Real => Some(3),
        _ => None,
    }
}

pub(crate) fn numeric_family(data_type: &DataType) -> (family: Option<u8>)
    ensures
        family == family_of(*data_type),
{
    match data_type {
        DataType::Integer => Some(0),
        DataType::Double => Some(1),
        DataType::Numeric { .. } => Some(2),
        DataType::Real => Some(3),
        _ => None,
    }
}

/// The result type of date and time arithmetic with an interval.
pub open spec fn interval_result(
    left: DataType,
    op: StoredBinOp,
    right: DataType,
) -> Option<DataType> {
    match (left, op, right) {
        (DataType::Interval, StoredBinOp::Add | StoredBinOp::Sub, DataType::Interval) => Some(
            DataType::Interval,
        ),
        (DataType::Interval, StoredBinOp::Mul, DataType::Integer) => Some(DataType::Interval),
        (DataType::Integer, StoredBinOp::Mul, DataType::Interval) => Some(DataType::Interval),
        (DataType::Date, StoredBinOp::Add | StoredBinOp::Sub, DataType::Interval) => Some(
            DataType::Timestamp,
        ),
        (DataType::Interval, StoredBinOp::Add, DataType::Date) => Some(DataType::Timestamp),
        (DataType::Timestamp, StoredBinOp::Add | StoredBinOp::Sub, DataType::Interval) => Some(
            DataType::Timestamp,
        ),
        (DataType::Interval, StoredBinOp::Add, DataType::Timestamp) => Some(DataType::Timestamp),
        (DataType::TimestampTz, StoredBinOp::Add | StoredBinOp::Sub, DataType::Interval) => Some(
            DataType::TimestampTz,
        ),
        (DataType::Interval, StoredBinOp::Add, DataType::TimestampTz) => Some(
            DataType::TimestampTz,
        ),
        (DataType::Time, StoredBinOp::Add | StoredBinOp::Sub, DataType::Interval) => Some(
            DataType::Time,
        ),
        (DataType::Interval, StoredBinOp::Add, DataType::Time) => Some(DataType::Time),
        _ => None,
    }
}

fn interval_arithmetic_result(left: &DataType, op: StoredBinOp, right: &DataType) -> (result: Option<
    DataType,
>)
    ensures
        result == interval_result(*left, op, *right),
{
    match (left, op, right) {
        (DataType::Interval, StoredBinOp::Add | StoredBinOp::Sub, DataType::Interval) => Some(
            DataType::Interval,
        ),
        (DataType::Interval, StoredBinOp::Mul, DataType::Integer) => Some(DataType::Interval),
        (DataType::Integer, StoredBinOp::Mul, DataType::Interval) => Some(DataType::Interval),
        (DataType::Date, StoredBinOp::Add | StoredBinOp::Sub, DataType::Interval) => Some(
            DataType::Timestamp,
        ),
        (DataType::Interval, StoredBinOp::Add, DataType::Date) => Some(DataType::Timestamp),
        (DataType::Timestamp, StoredBinOp::Add | StoredBinOp::Sub, DataType::Interval) => Some(
            DataType::Timestamp,
        ),
        (DataType::Interval, StoredBinOp::Add, DataType::Timestamp) => Some(DataType::Timestamp),
        (DataType::TimestampTz, StoredBinOp::Add | StoredBinOp::Sub, DataType::Interval) => Some(
            DataType::TimestampTz,
        ),
        (DataType::Interval, StoredBinOp::Add, DataType::TimestampTz) => Some(
            DataType::TimestampTz,
        ),
        (DataType::Time, StoredBinOp::Add | StoredBinOp::Sub, DataType::Interval) => Some(
            DataType::Time,
        ),
        (DataType::Interval, StoredBinOp::Add, DataType::Time) => Some(DataType::Time),
        _ => None,
    }
}

/// The result type of a binary operator, if it takes operands of the given types.
pub open spec fn binary_type(left: DataType, op: StoredBinOp, right: DataType) -> Option<DataType> {
    if op.is_arithmetic() {
        if interval_result(left, op, right) is Some {
            interval_result(left, op, right)
        } else if family_of(left) is None || family_of(right) != family_of(left) || (op is Mod && (
        left is Double || left is Real)) {
            None
        } else {
            match left {
                DataType::Double => Some(DataType::Double),
                DataType::Numeric { .. } => Some(DataType::Numeric { precision: None, scale: 0 }),
                DataType::Real => Some(DataType::Real),
                _ => Some(DataType::Integer),
            }
        }
    } else if op.spec_is_comparison() || op.is_distinctness() {
        if left == right {
            Some(DataType::Boolean)
        } else {
            None
        }
    } else if op is Concat {
        if left is Text && right is Text {
            Some(DataType::Text)
        } else {
            None
        }
    } else {
        if left is Boolean && right is Boolean {
            Some(DataType::Boolean)
        } else {
            None
        }
    }
}

pub(crate) fn binary_result_type(left: &DataType, op: StoredBinOp, right: &DataType) -> (result:
    Option<DataType>)
    ensures
        result == binary_type(*left, op, *right),
{
    match op {
        StoredBinOp::Add
        | StoredBinOp::Sub
        | StoredBinOp::Mul
        | StoredBinOp::Div
        | StoredBinOp::Mod => {
            if let Some(result) = interval_arithmetic_result(left, op, right) {
                return Some(result);
            }
            let family: u8 = match numeric_family(left) {
                Some(family) => family,
                None => return None,
            };
            match numeric_family(right) {
                Some(other) => {
                    if other != family {
                        return None;
                    }
                },
                None => return None,
            }
            if matches!(op, StoredBinOp::Mod) && (family == 1 || family == 3) {
                return None;
            }
            Some(
                if family == 1 {
                    DataType::Double
                } else if family == 2 {
                    DataType::Numeric { precision: None, scale: 0 }
                } else if family == 3 {
                    DataType::Real
                } else {
                    DataType::Integer
                },
            )
        },
        StoredBinOp::Eq
        | StoredBinOp::Neq
        | StoredBinOp::Lt
        | StoredBinOp::LtEq
        | StoredBinOp::Gt
        | StoredBinOp::GtEq
        | StoredBinOp::IsDistinctFrom
        | StoredBinOp::IsNotDistinctFrom => {
            if *left == *right {
                Some(DataType::Boolean)
            } else {
                None
            }
        },
        StoredBinOp::And | StoredBinOp::Or => {
            if matches!(left, DataType::Boolean) && matches!(right, DataType::Boolean) {
                Some(DataType::Boolean)
            } else {
                None
            }
        },
        StoredBinOp::Concat => {
            if matches!(left, DataType::Text) && matches!(right, DataType::Text) {
                Some(DataType::Text)
            } else {
                None
            }
        },
    }
}

/// The number of elements that the first `count` dimensions span.
pub open spec fn product(dimensions: Seq<u32>, count: nat) -> nat
    decreases count,
{
    if count == 0 {
        1
    } else {
        product(dimensions, (count - 1) as nat) * dimensions[count - 1] as nat
    }
}

/// Whether dimensions span a number of elements, or the error if their product
/// does not fit: the dimensions are taken in order, and an empty one decides.
pub open spec fn shape_matches(
    dimensions: Seq<u32>,
    element_count: nat,
    start: nat,
) -> core::result::Result<bool, ErrorView>
    decreases dimensions.len() - start,
{
    if dimensions.len() == 0 {
        Ok(element_count == 0)
    } else if start >= dimensions.len() {
        Ok(product(dimensions, dimensions.len()) == element_count)
    } else if dimensions[start as int] == 0 {
        Ok(false)
    } else if product(dimensions, start + 1) > usize::MAX {
        Err(error::internal_error("stored array cardinality overflow"@))
    } else {
        shape_matches(dimensions, element_count, start + 1)
    }
}

pub(crate) fn array_shape_matches(dimensions: &[u32], element_count: usize) -> (verdict: Result<bool>)
    ensures
        match verdict {
            Ok(fits) => shape_matches(dimensions@, element_count as nat, 0) == Ok::<
                bool,
                ErrorView,
            >(fits),
            Err(error) => shape_matches(dimensions@, element_count as nat, 0) == Err::<
                bool,
                ErrorView,
            >(error@),
        },
{
    if dimensions.len() == 0 {
        return Ok(element_count == 0);
    }
    let mut cardinality: usize = 1;
    let mut i: usize = 0;
    while i < dimensions.len()
        invariant
            i <= dimensions@.len(),
            dimensions@.len() > 0,
            cardinality == product(dimensions@, i as nat),
            shape_matches(dimensions@, element_count as nat, 0) == shape_matches(
                dimensions@,
                element_count as nat,
                i as nat,
            ),
        decreases dimensions@.len() - i,
    {
        if dimensions[i] == 0 {
            return Ok(false);
        }
        match cardinality.checked_mul(dimensions[i] as usize) {
            Some(next) => {
                cardinality = next;
            },
            None => {
                return Err(DbError::internal("stored array cardinality overflow"));
            },
        }
        i += 1;
    }
    Ok(cardinality == element_count)
}

/// The typing of a binary expression, if the operator takes its operands.
pub open spec fn binary_typing(left: Typing, op: StoredBinOp, right: Typing) -> Option<Typing> {
    match binary_type(left.data_type, op, right.data_type) {
        Some(data_type) => Some(
            typing(data_type, !op.is_distinctness() && (left.nullable || right.nullable)),
        ),
        None => None,
    }
}

pub(crate) fn type_binary(left: &Typing, op: StoredBinOp, right: &Typing) -> (result: Option<Typing>)
    ensures
        result == binary_typing(*left, op, *right),
{
    let data_type: DataType = match binary_result_type(&left.data_type, op, &right.data_type) {
        Some(data_type) => data_type,
        None => return None,
    };
    let nullable: bool = if matches!(
        op,
        StoredBinOp::IsDistinctFrom | StoredBinOp::IsNotDistinctFrom
    ) {
        false
    } else {
        left.nullable || right.nullable
    };
    Some(Typing::new(data_type, nullable))
}

/// The typing of a negation (of a number or an interval).
pub open spec fn negation_typing(operand: Typing) -> Option<Typing> {
    if family_of(operand.data_type) is Some || operand.data_type is Interval {
        Some(operand)
    } else {
        None
    }
}

pub(crate) fn type_negation(operand: Typing) -> (result: Option<Typing>)
    ensures
        result == negation_typing(operand),
{
    if numeric_family(&operand.data_type).is_some() || matches!(
        operand.data_type,
        DataType::Interval
    ) {
        Some(operand)
    } else {
        None
    }
}

/// The typing of a logical `NOT`.
pub open spec fn not_typing(operand: Typing) -> Option<Typing> {
    if operand.data_type is Boolean {
        Some(operand)
    } else {
        None
    }
}

pub(crate) fn type_not(operand: Typing) -> (result: Option<Typing>)
    ensures
        result == not_typing(operand),
{
    if matches!(operand.data_type, DataType::Boolean) {
        Some(operand)
    } else {
        None
    }
}

/// Every operand has the given type.
pub open spec fn all_typed(operands: Seq<Typing>, data_type: DataType) -> bool {
    forall|i: int| 0 <= i < operands.len() ==> (#[trigger] operands[i]).data_type == data_type
}

/// Some operand can be NULL.
pub open spec fn any_nullable(operands: Seq<Typing>) -> bool {
    exists|i: int| 0 <= i < operands.len() && (#[trigger] operands[i]).nullable
}

pub(crate) fn are_typed(operands: &Vec<Typing>, data_type: &DataType) -> (typed: bool)
    ensures
        typed == all_typed(operands@, *data_type),
{
    let mut i: usize = 0;
    while i < operands.len()
        invariant
            i <= operands@.len(),
            forall|j: int| 0 <= j < i ==> (#[trigger] operands@[j]).data_type == *data_type,
        decreases operands@.len() - i,
    {
        if operands[i].data_type != *data_type {
            assert(operands@[i as int].data_type != *data_type);
            return false;
        }
        i += 1;
    }
    true
}

pub(crate) fn is_any_nullable(operands: &Vec<Typing>) -> (nullable: bool)
    ensures
        nullable == any_nullable(operands@),
{
    let mut i: usize = 0;
    while i < operands.len()
        invariant
            i <= operands@.len(),
            forall|j: int| 0 <= j < i ==> !(#[trigger] operands@[j]).nullable,
        decreases operands@.len() - i,
    {
        if operands[i].nullable {
            assert(operands@[i as int].nullable);
            return true;
        }
        i += 1;
    }
    false
}

/// The typing of an array constructor: `None` where its elements do not have the
/// element type or do not fill its dimensions.
pub open spec fn array_typing(
    elements: Seq<Typing>,
    dimensions: Seq<u32>,
    element_type: DataType,
) -> core::result::Result<Option<Typing>, ErrorView> {
    if element_type is Array || !all_typed(elements, element_type) {
        Ok(None)
    } else {
        match shape_matches(dimensions, elements.len(), 0) {
            Ok(true) => Ok(Some(typing(DataType::Array(ArrayType::of(element_type)), false))),
            Ok(false) => Ok(None),
            Err(error) => Err(error),
        }
    }
}

pub(crate) fn type_array(
    elements: &Vec<Typing>,
    dimensions: &Vec<u32>,
    element_type: &DataType,
) -> (result: Result<Option<Typing>>)
    ensures
        match result {
            Ok(typing) => array_typing(elements@, dimensions@, *element_type) == Ok::<
                Option<Typing>,
                ErrorView,
            >(typing),
            Err(error) => array_typing(elements@, dimensions@, *element_type) == Err::<
                Option<Typing>,
                ErrorView,
            >(error@),
        },
{
    if matches!(element_type, DataType::Array(_)) || !are_typed(elements, element_type) {
        return Ok(None);
    }
    match array_shape_matches(dimensions, elements.len()) {
        Ok(fits) => {
            if fits {
                let array: ArrayType = ArrayType::from_validated_scalar(element_type.clone());
                Ok(Some(Typing::new(DataType::Array(array), false)))
            } else {
                Ok(None)
            }
        },
        Err(error) => Err(error),
    }
}

/// The arguments of `setval` are an integer and, if given, a boolean.
pub open spec fn setval_typing(value: Typing, is_called: Option<Typing>) -> Option<Typing> {
    let called_nullable = is_called is Some && is_called->0.nullable;
    if !(value.data_type is Integer)
        || (is_called is Some && !(is_called->0.data_type is Boolean)) {
        None
    } else {
        Some(typing(DataType::Integer, value.nullable || called_nullable))
    }
}

pub(crate) fn type_setval(value: &Typing, is_called: &Option<Typing>) -> (result: Option<Typing>)
    ensures
        result == setval_typing(*value, *is_called),
{
    if !matches!(value.data_type, DataType::Integer) {
        return None;
    }
    let mut nullable: bool = value.nullable;
    if let Some(is_called) = is_called {
        if !matches!(is_called.data_type, DataType::Boolean) {
            return None;
        }
        nullable = nullable || is_called.nullable;
    }
    Some(Typing::new(DataType::Integer, nullable))
}

/// An `IN` list has items, all of the type of the expression.
pub open spec fn in_list_typing(expr: Typing, list: Seq<Typing>) -> Option<Typing> {
    if list.len() == 0 || !all_typed(list, expr.data_type) {
        None
    } else {
        Some(typing(DataType::Boolean, expr.nullable || any_nullable(list)))
    }
}

pub(crate) fn type_in_list(expr: &Typing, list: &Vec<Typing>) -> (result: Option<Typing>)
    ensures
        result == in_list_typing(*expr, list@),
{
    if list.len() == 0 || !are_typed(list, &expr.data_type) {
        return None;
    }
    Some(Typing::new(DataType::Boolean, expr.nullable || is_any_nullable(list)))
}

/// The bounds of a `BETWEEN` have the type of the expression.
pub open spec fn between_typing(expr: Typing, low: Typing, high: Typing) -> Option<Typing> {
    if low.data_type != expr.data_type || high.data_type != expr.data_type {
        None
    } else {
        Some(typing(DataType::Boolean, expr.nullable || low.nullable || high.nullable))
    }
}

pub(crate) fn type_between(expr: &Typing, low: &Typing, high: &Typing) -> (result: Option<Typing>)
    ensures
        result == between_typing(*expr, *low, *high),
{
    if low.data_type != expr.data_type || high.data_type != expr.data_type {
        return None;
    }
    Some(Typing::new(DataType::Boolean, expr.nullable || low.nullable || high.nullable))
}

/// `LIKE` matches texts.
pub open spec fn like_typing(expr: Typing, pattern: Typing) -> Option<Typing> {
    if !(expr.data_type is Text) || !(pattern.data_type is Text) {
        None
    } else {
        Some(typing(DataType::Boolean, expr.nullable || pattern.nullable))
    }
}

pub(crate) fn type_like(expr: &Typing, pattern: &Typing) -> (result: Option<Typing>)
    ensures
        result == like_typing(*expr, *pattern),
{
    if !matches!(expr.data_type, DataType::Text) || !matches!(pattern.data_type, DataType::Text) {
        return None;
    }
    Some(Typing::new(DataType::Boolean, expr.nullable || pattern.nullable))
}

/// A branch of a `CASE` compares with its operand, or tests a condition where it
/// has none, and gives the type of the whole.
pub open spec fn branch_fits(
    operand: Option<DataType>,
    when: DataType,
    then: DataType,
    data_type: DataType,
) -> bool {
    let expected = match operand {
        Some(operand) => operand,
        None => DataType::Boolean,
    };
    when == expected && then == data_type
}

pub(crate) fn does_branch_fit(
    operand: Option<&DataType>,
    when: &DataType,
    then: &DataType,
    data_type: &DataType,
) -> (fits: bool)
    ensures
        fits == branch_fits(
            match operand {
                Some(operand) => Some(*operand),
                None => None,
            },
            *when,
            *then,
            *data_type,
        ),
{
    let when_fits: bool = match operand {
        Some(operand) => *when == *operand,
        None => matches!(when, DataType::Boolean),
    };
    when_fits && *then == *data_type
}

} // verus!
