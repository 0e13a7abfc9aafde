//! What operators take and give: the laws of typing.

use vstd::prelude::*;

use crate::schema::{ArrayType, DataType};
use crate::stored_expression::StoredBinOp;
use crate::typing::{
    self, array_typing, between_typing, binary_typing, in_list_typing, like_typing,
    negation_typing, not_typing, setval_typing, Typing,
};

verus! {

/// The type that a binary operator gives, if it takes its operands.
pub open spec fn given(left: DataType, op: StoredBinOp, right: DataType) -> Option<DataType> {
    match binary_typing(
        Typing { data_type: left, nullable: false },
        op,
        Typing { data_type: right, nullable: false },
    ) {
        Some(typing) => Some(typing.data_type),
        None => None,
    }
}

/// NULL operands make a NULL result: whether an operator takes its operands, and the type
/// of what it gives, does not depend on their nullability, and the result can be NULL
/// exactly if one of them can. The distinctness tests alone are never NULL.
pub proof fn nulls_propagate(left: Typing, op: StoredBinOp, right: Typing)
    ensures
        ({
            let result = binary_typing(left, op, right);
            let answers = op is IsDistinctFrom || op is IsNotDistinctFrom;
            &&& result is Some <==> given(left.data_type, op, right.data_type) is Some
            &&& result is Some ==> given(left.data_type, op, right.data_type) == Some(
                result->0.data_type,
            )
            &&& result is Some ==> result->0.nullable == (!answers && (left.nullable
                || right.nullable))
        }),
{
}

/// Values of one type can be compared with each other and with no others, and the
/// comparison gives a boolean.
pub proof fn comparisons_are_of_one_type(left: DataType, op: StoredBinOp, right: DataType)
    requires
        op is Eq || op is Neq || op is Lt || op is LtEq || op is Gt || op is GtEq
            || op is IsDistinctFrom || op is IsNotDistinctFrom,
    ensures
        given(left, op, left) == Some(DataType::Boolean),
        left != right ==> given(left, op, right) is None,
{
}

/// `AND` and `OR` give a boolean of booleans, and `||` a text of texts.
pub proof fn connectives_keep_their_type(left: DataType, op: StoredBinOp, right: DataType)
    ensures
        op is And || op is Or ==> given(left, op, right) == if left is Boolean && right is Boolean {
            Some(DataType::Boolean)
        } else {
            None
        },
        op is Concat ==> given(left, op, right) == if left is Text && right is Text {
            Some(DataType::Text)
        } else {
            None
        },
{
}

/// Arithmetic of numbers stays in their kind and does not mix kinds: integers give
/// integers, doubles doubles, reals reals, and numerics of any precision and scale give
/// the numeric type that has neither. Remainders are of integers and numerics only.
pub proof fn arithmetic_stays_in_its_kind(left: DataType, op: StoredBinOp, right: DataType)
    requires
        op is Add || op is Sub || op is Mul || op is Div || op is Mod,
        left is Integer || left is Double || left is Real || left is Numeric,
        right is Integer || right is Double || right is Real || right is Numeric,
    ensures
        ({
            let alike = (left is Integer && right is Integer) || (left is Double && right is Double)
                || (left is Real && right is Real) || (left is Numeric && right is Numeric);
            let floating = left is Double || left is Real;
            &&& given(left, op, right) is Some <==> alike && !(op is Mod && floating)
            &&& given(left, op, right) is Some && !(left is Numeric) ==> given(left, op, right)
                == Some(left)
            &&& given(left, op, right) is Some && left is Numeric ==> given(left, op, right) == Some(
                DataType::Numeric { precision: None, scale: 0 },
            )
        }),
{
}

/// Adding and multiplying take their operands in either order and give the same type.
pub proof fn sums_and_products_commute(left: DataType, op: StoredBinOp, right: DataType)
    requires
        op is Add || op is Mul,
    ensures
        given(left, op, right) == given(right, op, left),
{
}

/// An interval can be added to a date, a time or a timestamp and taken away again: a
/// timestamp and a time keep their type, and a date becomes a timestamp. Intervals add up
/// to intervals, and an integer times an interval is one.
pub proof fn intervals_shift_times(op: StoredBinOp)
    requires
        op is Add || op is Sub,
    ensures
        given(DataType::Timestamp, op, DataType::Interval) == Some(DataType::Timestamp),
        given(DataType::TimestampTz, op, DataType::Interval) == Some(DataType::TimestampTz),
        given(DataType::Time, op, DataType::Interval) == Some(DataType::Time),
        given(DataType::Date, op, DataType::Interval) == Some(DataType::Timestamp),
        given(DataType::Interval, op, DataType::Interval) == Some(DataType::Interval),
        given(DataType::Integer, StoredBinOp::Mul, DataType::Interval) == Some(DataType::Interval),
{
}

/// Nothing else can be computed with intervals, and nothing at all with the types that
/// are neither numbers nor intervals nor times: nothing is taken away from anything but a
/// number, an interval, a date, a time or a timestamp, what is taken away from a time is
/// an interval, and an interval is neither multiplied by one nor divided.
pub proof fn other_arithmetic_is_refused(left: DataType, op: StoredBinOp, right: DataType)
    requires
        op is Add || op is Sub || op is Mul || op is Div || op is Mod,
    ensures
        ({
            let number = |t: DataType| t is Integer || t is Double || t is Real || t is Numeric;
            let time = |t: DataType| t is Date || t is Time || t is Timestamp || t is TimestampTz;
            &&& given(left, op, right) is Some ==> (number(left) || time(left) || left is Interval)
                && (number(right) || time(right) || right is Interval)
            &&& given(left, op, right) is Some && time(left) ==> right is Interval && (op is Add
                || op is Sub)
            &&& given(left, op, right) is Some && time(right) ==> left is Interval && op is Add
            &&& given(left, op, right) is Some && left is Interval && number(right) ==> right
                is Integer && op is Mul
            &&& given(left, op, right) is Some && left is Interval && right is Interval ==> op is Add
                || op is Sub
        }),
{
}

/// A negation has the type and the nullability of what it negates: of a number or an
/// interval the sign, of a boolean the truth, and of nothing else.
pub proof fn negations_keep_their_typing(operand: Typing)
    ensures
        ({
            let t = operand.data_type;
            let signed = t is Integer || t is Double || t is Real || t is Numeric || t is Interval;
            &&& negation_typing(operand) == if signed {
                Some(operand)
            } else {
                None
            }
            &&& not_typing(operand) == if t is Boolean {
                Some(operand)
            } else {
                None
            }
        }),
{
}

/// `IN` compares with one or more items of the type of its expression; it is a boolean
/// that can be NULL exactly if the expression or an item can.
pub proof fn in_lists_are_of_one_type(expr: Typing, list: Seq<Typing>)
    ensures
        in_list_typing(expr, list) is Some <==> list.len() > 0 && forall|i: int|
            0 <= i < list.len() ==> (#[trigger] list[i]).data_type == expr.data_type,
        in_list_typing(expr, list) is Some ==> {
            let result = in_list_typing(expr, list)->0;
            &&& result.data_type is Boolean
            &&& result.nullable <==> expr.nullable || exists|i: int|
                0 <= i < list.len() && (#[trigger] list[i]).nullable
        },
{
}

/// `BETWEEN` is the conjunction of two comparisons, and `LIKE` compares texts: each is a
/// boolean that can be NULL exactly if one of its operands can.
pub proof fn between_and_like_compare(expr: Typing, low: Typing, high: Typing)
    ensures
        between_typing(expr, low, high) == match (
            binary_typing(expr, StoredBinOp::GtEq, low),
            binary_typing(expr, StoredBinOp::LtEq, high),
        ) {
            (Some(from), Some(to)) => binary_typing(from, StoredBinOp::And, to),
            _ => None,
        },
        like_typing(expr, low) == if expr.data_type is Text && low.data_type is Text {
            binary_typing(expr, StoredBinOp::Eq, low)
        } else {
            None
        },
{
}

/// `setval` gives the integer that it sets, and can be NULL exactly if an argument can.
pub proof fn setval_gives_its_value(value: Typing, is_called: Typing)
    ensures
        setval_typing(value, None) == if value.data_type is Integer {
            Some(value)
        } else {
            None
        },
        setval_typing(value, Some(is_called)) == if value.data_type is Integer
            && is_called.data_type is Boolean {
            Some(
                Typing {
                    data_type: DataType::Integer,
                    nullable: value.nullable || is_called.nullable,
                },
            )
        } else {
            None
        },
{
}

/// An array constructor gives an array of its element type, never NULL, if all its
/// elements have that type, which is not an array itself, and there are as many of them
/// as its dimensions span, one dimension being its own length.
pub proof fn arrays_are_of_their_elements(elements: Seq<Typing>, len: u32, element_type: DataType)
    requires
        elements.len() > 0,
        forall|i: int| 0 <= i < elements.len() ==> (#[trigger] elements[i]).data_type == element_type,
        !(element_type is Array),
    ensures
        len == elements.len() ==> {
            &&& array_typing(elements, seq![len], element_type) matches Ok(Some(typing))
            &&& typing.data_type matches DataType::Array(array_type)
            &&& array_type.element() == element_type
            &&& !typing.nullable
        },
        len != elements.len() ==> array_typing(elements, seq![len], element_type) == Ok::<
            Option<Typing>,
            crate::error::ErrorView,
        >(None),
{
    broadcast use ArrayType::array_type_is_its_element;

    reveal_with_fuel(typing::shape_matches, 3);
    reveal_with_fuel(typing::product, 3);
    assert(typing::product(seq![len], 1) == len);
}

/// Dimensions that span another number of elements than there are do not fit, and a
/// dimension more multiplies what they span by its length.
pub proof fn dimensions_multiply(dimensions: Seq<u32>, len: u32)
    ensures
        typing::product(dimensions.push(len), dimensions.push(len).len()) == typing::product(
            dimensions,
            dimensions.len(),
        ) * len,
        typing::product(Seq::empty(), 0) == 1,
{
    lemma_product_of_prefix(dimensions, len, dimensions.len());
}

proof fn lemma_product_of_prefix(dimensions: Seq<u32>, len: u32, count: nat)
    requires
        count <= dimensions.len(),
    ensures
        typing::product(dimensions.push(len), count) == typing::product(dimensions, count),
    decreases count,
{
    if count > 0 {
        lemma_product_of_prefix(dimensions, len, (count - 1) as nat);
    }
}

/// Elements fill dimensions exactly if there are as many as the dimensions span, where
/// none of these is empty and what they span can be counted.
pub proof fn elements_fill_their_dimensions(dimensions: Seq<u32>, count: nat)
    requires
        dimensions.len() > 0,
        forall|i: int| 0 <= i < dimensions.len() ==> #[trigger] dimensions[i] > 0,
        typing::product(dimensions, dimensions.len()) <= usize::MAX,
    ensures
        typing::shape_matches(dimensions, count, 0) == Ok::<bool, crate::error::ErrorView>(
            typing::product(dimensions, dimensions.len()) == count,
        ),
{
    lemma_shape(dimensions, count, 0);
}

proof fn lemma_shape(dimensions: Seq<u32>, count: nat, start: nat)
    requires
        dimensions.len() > 0,
        forall|i: int| 0 <= i < dimensions.len() ==> #[trigger] dimensions[i] > 0,
        typing::product(dimensions, dimensions.len()) <= usize::MAX,
        start <= dimensions.len(),
    ensures
        typing::shape_matches(dimensions, count, start) == Ok::<bool, crate::error::ErrorView>(
            typing::product(dimensions, dimensions.len()) == count,
        ),
    decreases dimensions.len() - start,
{
    if start < dimensions.len() {
        lemma_product_grows(dimensions, start + 1, dimensions.len());
        lemma_shape(dimensions, count, start + 1);
    }
}

proof fn lemma_product_grows(dimensions: Seq<u32>, a: nat, b: nat)
    requires
        forall|i: int| 0 <= i < dimensions.len() ==> #[trigger] dimensions[i] > 0,
        a <= b <= dimensions.len(),
    ensures
        typing::product(dimensions, a) <= typing::product(dimensions, b),
    decreases b - a,
{
    if a < b {
        lemma_product_grows(dimensions, a, (b - 1) as nat);
        let p = typing::product(dimensions, (b - 1) as nat);
        let d = dimensions[b - 1] as nat;
        assert(p <= p * d) by (nonlinear_arith)
            requires
                d >= 1,
        ;
    }
}

} // verus!
