//! What subscripts, dimensions and element types mean for an array.

use vstd::prelude::*;

use crate::array::{self, ArrayDimension, ArrayView, SqlArray};
use crate::error::Result;
use crate::schema::DataType;
use crate::value::{Value, ValueView};

verus! {

/// Elements lie row by row: the first is at the lower bounds of all dimensions, and the
/// next one is found by going on in the last dimension, or, at its end, by going back to
/// its lower bound and on in the one before, and so forth.
pub proof fn elements_lie_row_by_row(
    array: ArrayView,
    first: Seq<i64>,
    here: Seq<i64>,
    next: Seq<i64>,
    k: int,
)
    requires
        array.in_bounds(first),
        forall|i: int| 0 <= i < first.len() ==> #[trigger] first[i] == array.dimensions[i].lower_bound,
        array.in_bounds(here),
        array.in_bounds(next),
        0 <= k < here.len(),
        forall|i: int| 0 <= i < k ==> #[trigger] next[i] == here[i],
        next[k] == here[k] + 1,
        forall|i: int|
            k < i < here.len() ==> #[trigger] here[i] == array.dimensions[i].lower_bound
                + array.dimensions[i].len - 1,
        forall|i: int| k < i < next.len() ==> #[trigger] next[i] == array.dimensions[i].lower_bound,
    ensures
        array.row_major(first, array.dimensions.len()) == 0,
        array.row_major(next, array.dimensions.len()) == array.row_major(
            here,
            array.dimensions.len(),
        ) + 1,
{
    lemma_first(array, first, array.dimensions.len());
    lemma_next(array, here, next, k, array.dimensions.len());
}

proof fn lemma_first(array: ArrayView, first: Seq<i64>, count: nat)
    requires
        count <= array.dimensions.len() == first.len(),
        forall|i: int| 0 <= i < first.len() ==> #[trigger] first[i] == array.dimensions[i].lower_bound,
    ensures
        array.row_major(first, count) == 0,
    decreases count,
{
    if count > 0 {
        lemma_first(array, first, (count - 1) as nat);
        assert(first[count - 1] == array.dimensions[count - 1].lower_bound);
        assert(0 * array.dimensions[count - 1].len == 0);
    }
}

proof fn lemma_next(array: ArrayView, here: Seq<i64>, next: Seq<i64>, k: int, count: nat)
    requires
        count <= array.dimensions.len() == here.len(),
        here.len() == next.len(),
        0 <= k < here.len(),
        forall|i: int| 0 <= i < k ==> #[trigger] next[i] == here[i],
        next[k] == here[k] + 1,
        forall|i: int|
            k < i < here.len() ==> #[trigger] here[i] == array.dimensions[i].lower_bound
                + array.dimensions[i].len - 1,
        forall|i: int| k < i < next.len() ==> #[trigger] next[i] == array.dimensions[i].lower_bound,
    ensures
        count <= k ==> array.row_major(next, count) == array.row_major(here, count),
        count > k ==> array.row_major(next, count) == array.row_major(here, count) + 1,
    decreases count,
{
    if count > 0 {
        let last = count - 1;
        lemma_next(array, here, next, k, last as nat);
        let a = array.row_major(here, last as nat);
        let b = array.row_major(next, last as nat);
        let len = array.dimensions[last].len as int;
        if last < k {
            assert(next[last] == here[last]);
        } else if last > k {
            assert(here[last] == array.dimensions[last].lower_bound + len - 1);
            assert(next[last] == array.dimensions[last].lower_bound);
            assert(b * len == a * len + len) by (nonlinear_arith)
                requires
                    b == a + 1,
            ;
        }
    }
}

/// A list of subscripts names an element exactly if there is one subscript for each
/// dimension and each lies from its lower bound on within its length.
pub proof fn subscripts_stay_within_their_dimensions(array: ArrayView, subscripts: Seq<i64>, i: int)
    ensures
        subscripts.len() != array.dimensions.len() ==> !array.in_bounds(subscripts),
        0 <= i < subscripts.len() && i < array.dimensions.len() && (subscripts[i]
            < array.dimensions[i].lower_bound || subscripts[i] >= array.dimensions[i].lower_bound
            + array.dimensions[i].len) ==> !array.in_bounds(subscripts),
{
}

/// Dimensions hold as many elements as the product of their lengths: none of them holds
/// one, and a dimension more multiplies by its length.
pub proof fn dimensions_span_their_product(dimensions: Seq<ArrayDimension>, more: ArrayDimension)
    ensures
        array::span(Seq::empty(), 0) == 1,
        array::span(dimensions.push(more), dimensions.push(more).len()) == array::span(
            dimensions,
            dimensions.len(),
        ) * more.len,
{
    lemma_span_of_prefix(dimensions, more, dimensions.len());
}

proof fn lemma_span_of_prefix(dimensions: Seq<ArrayDimension>, more: ArrayDimension, count: nat)
    requires
        count <= dimensions.len(),
    ensures
        array::span(dimensions.push(more), count) == array::span(dimensions, count),
    decreases count,
{
    if count > 0 {
        lemma_span_of_prefix(dimensions, more, (count - 1) as nat);
    }
}

/// Elements that are not arrays themselves, one to a million of them, fit one to six
/// dimensions exactly if the dimensions hold as many and no length or last subscript is
/// beyond a signed 32-bit integer.
pub proof fn shapes_hold_their_elements(
    element_type: DataType,
    dimensions: Seq<ArrayDimension>,
    count: nat,
)
    requires
        count > 0,
    ensures
        array::shape_problem(element_type, dimensions, count) is None ==> {
            &&& !(element_type is Array)
            &&& 1 <= dimensions.len() <= 6
            &&& count <= 1_000_000
            &&& array::span(dimensions, dimensions.len()) == count
            &&& forall|i: int|
                0 <= i < dimensions.len() ==> (#[trigger] dimensions[i]).len <= i32::MAX
                    && dimensions[i].lower_bound + dimensions[i].len - 1 <= i32::MAX
        },
        !(element_type is Array) && 1 <= dimensions.len() <= 6 && count <= 1_000_000 && (forall|
            i: int,
        |
            0 <= i < dimensions.len() ==> (#[trigger] dimensions[i]).len <= i32::MAX
                && i32::MIN <= dimensions[i].lower_bound + dimensions[i].len - 1 <= i32::MAX)
            && array::span(dimensions, dimensions.len()) == count ==> array::shape_problem(
            element_type,
            dimensions,
            count,
        ) is None,
{
    lemma_dimension_problem(dimensions);
    if array::span(dimensions, dimensions.len()) == count && count <= 1_000_000 {
        assert forall|k: nat| k <= dimensions.len() implies #[trigger] array::span(dimensions, k)
            <= usize::MAX by {
            array::lemma_span_grows(dimensions, k, dimensions.len());
        }
    }
}

proof fn lemma_dimension_problem(dimensions: Seq<ArrayDimension>)
    ensures
        array::dimension_problem(dimensions) is None <==> forall|i: int|
            0 <= i < dimensions.len() ==> array::dimension_fits(#[trigger] dimensions[i]),
    decreases dimensions.len(),
{
    if dimensions.len() > 0 {
        let rest = dimensions.drop_first();
        lemma_dimension_problem(rest);
        if array::dimension_problem(dimensions) is None {
            assert forall|i: int| 0 <= i < dimensions.len() implies array::dimension_fits(
                #[trigger] dimensions[i],
            ) by {
                if i > 0 {
                    assert(rest[i - 1] == dimensions[i]);
                }
            }
        }
        if forall|i: int|
            0 <= i < dimensions.len() ==> array::dimension_fits(#[trigger] dimensions[i]) {
            assert forall|i: int| 0 <= i < rest.len() implies array::dimension_fits(
                #[trigger] rest[i],
            ) by {
                assert(rest[i] == dimensions[i + 1]);
            }
            assert(array::dimension_fits(dimensions[0]));
        }
    }
}

/// Every value but NULL belongs to the types of its own kind and to no others, NULL to
/// all, and an array to the array type with its element type.
pub proof fn values_belong_to_their_kind(value: ValueView, data_type: DataType)
    ensures
        value is Null ==> value.matches_type(data_type),
        !(value is Null) && value.matches_type(data_type) ==> {
            &&& value is Boolean <==> data_type is Boolean
            &&& value is Integer <==> data_type is Integer
            &&& value is Float <==> data_type is Double
            &&& value is Real <==> data_type is Real
            &&& value is Numeric <==> data_type is Numeric
            &&& value is Text <==> data_type is Text
            &&& value is Date <==> data_type is Date
            &&& value is Timestamp <==> data_type is Timestamp
            &&& value is Time <==> data_type is Time
            &&& value is TimestampTz <==> data_type is TimestampTz
            &&& value is Interval <==> data_type is Interval
            &&& value is Bytes <==> data_type is Bytea
            &&& value is Uuid <==> data_type is Uuid
            &&& value is Array <==> data_type is Array
        },
        value is Integer && data_type is Integer ==> value.matches_type(data_type),
        value is Boolean && data_type is Boolean ==> value.matches_type(data_type),
        value is Float && data_type is Double ==> value.matches_type(data_type),
        value is Real && data_type is Real ==> value.matches_type(data_type),
        value is Numeric && data_type is Numeric ==> value.matches_type(data_type),
        value is Text && data_type is Text ==> value.matches_type(data_type),
        value is Date && data_type is Date ==> value.matches_type(data_type),
        value is Timestamp && data_type is Timestamp ==> value.matches_type(data_type),
        value is Time && data_type is Time ==> value.matches_type(data_type),
        value is TimestampTz && data_type is TimestampTz ==> value.matches_type(data_type),
        value is Interval && data_type is Interval ==> value.matches_type(data_type),
        value is Bytes && data_type is Bytea ==> value.matches_type(data_type),
        value is Uuid && data_type is Uuid ==> value.matches_type(data_type),
        (value matches ValueView::Array(array) && data_type matches DataType::Array(array_type)
            && array.element_type == array_type.element()) ==> value.matches_type(data_type),
        (value matches ValueView::Array(array) && data_type matches DataType::Array(array_type)
            && array.element_type != array_type.element()) ==> !value.matches_type(data_type),
{
}

/// An array is made of the elements that it is given, in their order, each of which belongs
/// to its element type; it has the given dimensions, and none where it has no elements.
pub proof fn arrays_hold_what_they_are_made_of(
    element_type: DataType,
    dimensions: Vec<ArrayDimension>,
    elements: Vec<Value>,
    array: Result<SqlArray>,
    i: int,
)
    requires
        call_ensures(SqlArray::new, (element_type, dimensions, elements), array),
        array is Ok,
    ensures
        ({
            let made = array->Ok_0@;
            &&& made.element_type == element_type
            &&& made.elements.len() == elements@.len()
            &&& 0 <= i < elements@.len() ==> made.elements[i] == elements@[i]@
                && elements@[i]@.matches_type(element_type)
            &&& elements@.len() > 0 ==> made.dimensions == dimensions@
            &&& elements@.len() == 0 ==> made.dimensions.len() == 0
        }),
{
}

/// Where the shape of an array is right, it is refused exactly if an element does not belong
/// to its element type.
pub proof fn only_foreign_elements_are_refused(
    element_type: DataType,
    dimensions: Vec<ArrayDimension>,
    elements: Vec<Value>,
    array: Result<SqlArray>,
)
    requires
        call_ensures(SqlArray::new, (element_type, dimensions, elements), array),
        array::shape_problem(element_type, dimensions@, elements@.len()) is None,
    ensures
        array is Err <==> exists|i: int|
            0 <= i < elements@.len() && !(#[trigger] elements@[i])@.matches_type(element_type),
{
}

} // verus!
