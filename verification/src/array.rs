//! SQL arrays and their text form.

use core::cmp::Ordering;
use vstd::prelude::*;

use crate::error::{self, DbError, ErrorView, Result, SqlState};
use crate::order::{self, Order};
use crate::schema::DataType;
use crate::text;
use crate::value::{diagnostic, Value, ValueView};

pub mod subscripts;

pub use crate::array_text::{format_array_text_structure, parse_array_text_structure};

verus! {

/// PostgreSQL-compatible maximum number of array dimensions.
pub const MAX_ARRAY_DIMENSIONS: usize = 6;

/// Practical allocation guard for one SQL array value.
pub const MAX_ARRAY_ELEMENTS: usize = 1_000_000;

/// One dimension of an array: its length and the subscript of its first element.
#[derive(Clone, Copy, Debug, PartialEq, Eq, PartialOrd, Ord, Hash, Structural)]
pub struct ArrayDimension {
    pub len: u32,
    pub lower_bound: i32,
}

impl ArrayDimension {
    #[must_use]
    pub fn new(len: u32, lower_bound: i32) -> (dimension: Self)
        ensures
            dimension == (ArrayDimension { len, lower_bound }),
    {
        Self { len, lower_bound }
    }

    #[must_use]
    pub fn len(self) -> (len: u32)
        ensures
            len == self.len,
    {
        self.len
    }

    #[must_use]
    pub fn is_empty(self) -> (empty: bool)
        ensures
            empty == (self.len == 0),
    {
        self.len == 0
    }

    #[must_use]
    pub fn lower_bound(self) -> (lower_bound: i32)
        ensures
            lower_bound == self.lower_bound,
    {
        self.lower_bound
    }
}

/// A rectangular SQL array. Elements are stored in row-major order; dimensions
/// carry PostgreSQL lower bounds independently of that flat storage.
#[derive(Debug, Hash)]
pub struct SqlArray {
    element_type: DataType,
    dimensions: Vec<ArrayDimension>,
    elements: Vec<Value>,
}

/// What an array holds.
pub struct ArrayView {
    pub element_type: DataType,
    pub dimensions: Seq<ArrayDimension>,
    pub elements: Seq<ValueView>,
}

/// The number of elements that the first `count` dimensions span.
pub open spec fn span(dimensions: Seq<ArrayDimension>, count: nat) -> nat
    recommends
        count <= dimensions.len(),
    decreases count,
{
    if count == 0 {
        1
    } else {
        span(dimensions, (count - 1) as nat) * dimensions[count - 1].len as nat
    }
}

/// A dimension's length and last subscript fit a signed 32-bit integer.
pub open spec fn dimension_fits(dimension: ArrayDimension) -> bool {
    dimension.len <= i32::MAX && i32::MIN <= dimension.lower_bound + dimension.len - 1 <= i32::MAX
}

impl ArrayView {
    /// The elements are scalars of one type, as many as the dimensions span. An
    /// empty array has no dimensions.
    pub open spec fn well_formed(self) -> bool {
        &&& !(self.element_type is Array)
        &&& self.dimensions.len() <= MAX_ARRAY_DIMENSIONS
        &&& self.elements.len() <= MAX_ARRAY_ELEMENTS
        &&& self.elements.len() == 0 <==> self.dimensions.len() == 0
        &&& self.elements.len() > 0 ==> self.elements.len() == span(
            self.dimensions,
            self.dimensions.len(),
        )
        &&& forall|i: int|
            0 <= i < self.dimensions.len() ==> dimension_fits(#[trigger] self.dimensions[i])
        &&& forall|i: int|
            0 <= i < self.elements.len() ==> (#[trigger] self.elements[i]).matches_type(
                self.element_type,
            )
    }

    /// The lengths of the dimensions.
    pub open spec fn lengths(self) -> Seq<int> {
        self.dimensions.map_values(|d: ArrayDimension| d.len as int)
    }

    /// The first subscripts of the dimensions.
    pub open spec fn lower_bounds(self) -> Seq<int> {
        self.dimensions.map_values(|d: ArrayDimension| d.lower_bound as int)
    }

    /// What orders arrays after their elements: the number of dimensions, their
    /// lengths, and their first subscripts.
    pub open spec fn shape_key(self) -> Seq<int> {
        seq![0, self.dimensions.len() as int] + self.lengths() + self.lower_bounds()
    }

    /// Arrays are ordered by element type, then by their elements - a proper
    /// prefix comes first - and then by shape.
    pub open spec fn key(self) -> Seq<Seq<int>> {
        seq![self.element_type.key()] + self.elements.map_values(
            |e: ValueView| seq![1] + e.scalar_key(),
        ) + seq![self.shape_key()]
    }

    /// The row-major position of the element at the given subscripts, seen along
    /// the first `count` dimensions.
    pub open spec fn row_major(self, subscripts: Seq<i64>, count: nat) -> int
        decreases count,
    {
        if count == 0 {
            0
        } else {
            self.row_major(subscripts, (count - 1) as nat) * self.dimensions[count - 1].len + (
            subscripts[count - 1] - self.dimensions[count - 1].lower_bound)
        }
    }

    /// One subscript per dimension, each within its dimension.
    pub open spec fn in_bounds(self, subscripts: Seq<i64>) -> bool {
        &&& subscripts.len() == self.dimensions.len()
        &&& self.dimensions.len() > 0
        &&& forall|i: int|
            0 <= i < subscripts.len() ==> self.dimensions[i].lower_bound <= #[trigger] subscripts[i]
                < self.dimensions[i].lower_bound + self.dimensions[i].len
    }

    proof fn lemma_row_major_bound(self, subscripts: Seq<i64>, count: nat)
        requires
            self.in_bounds(subscripts),
            count <= self.dimensions.len(),
        ensures
            0 <= self.row_major(subscripts, count) < span(self.dimensions, count),
        decreases count,
    {
        if count > 0 {
            self.lemma_row_major_bound(subscripts, (count - 1) as nat);
            let offset = self.row_major(subscripts, (count - 1) as nat);
            let width = span(self.dimensions, (count - 1) as nat) as int;
            let len = self.dimensions[count - 1].len as int;
            let step = subscripts[count - 1] - self.dimensions[count - 1].lower_bound;
            assert(0 <= offset * len + step < width * len) by (nonlinear_arith)
                requires
                    0 <= offset < width,
                    0 <= step < len,
            ;
        }
    }

    /// Every in-bounds subscript list names an element, and two different lists
    /// name different elements.
    pub proof fn subscripts_name_distinct_elements(self, a: Seq<i64>, b: Seq<i64>)
        requires
            self.well_formed(),
            self.in_bounds(a),
            self.in_bounds(b),
        ensures
            0 <= self.row_major(a, self.dimensions.len()) < self.elements.len(),
            self.row_major(a, self.dimensions.len()) == self.row_major(b, self.dimensions.len())
                ==> a == b,
    {
        self.lemma_row_major_bound(a, self.dimensions.len());
        if self.row_major(a, self.dimensions.len()) == self.row_major(b, self.dimensions.len()) {
            self.lemma_row_major_is_injective(a, b, self.dimensions.len());
            assert(a == b);
        }
    }

    proof fn lemma_row_major_is_injective(self, a: Seq<i64>, b: Seq<i64>, count: nat)
        requires
            self.in_bounds(a),
            self.in_bounds(b),
            count <= self.dimensions.len(),
            self.row_major(a, count) == self.row_major(b, count),
        ensures
            forall|i: int| 0 <= i < count ==> a[i] == b[i],
        decreases count,
    {
        if count > 0 {
            let x = self.row_major(a, (count - 1) as nat);
            let y = self.row_major(b, (count - 1) as nat);
            let len = self.dimensions[count - 1].len as int;
            let s = a[count - 1] - self.dimensions[count - 1].lower_bound;
            let t = b[count - 1] - self.dimensions[count - 1].lower_bound;
            assert(x == y) by (nonlinear_arith)
                requires
                    x * len + s == y * len + t,
                    0 <= s < len,
                    0 <= t < len,
            ;
            self.lemma_row_major_is_injective(a, b, (count - 1) as nat);
        }
    }
}

proof fn lemma_span_grows(dimensions: Seq<ArrayDimension>, a: nat, b: nat)
    requires
        a <= b <= dimensions.len(),
        span(dimensions, b) > 0,
    ensures
        0 < span(dimensions, a) <= span(dimensions, b),
    decreases b,
{
    if a < b {
        let before = span(dimensions, (b - 1) as nat);
        let len = dimensions[b - 1].len as nat;
        assert(before > 0 && before <= before * len) by (nonlinear_arith)
            requires
                before * len > 0,
        ;
        lemma_span_grows(dimensions, a, (b - 1) as nat);
    }
}

/// The first dimension that does not fit, and why.
pub open spec fn dimension_problem(dimensions: Seq<ArrayDimension>) -> Option<Seq<char>>
    decreases dimensions.len(),
{
    if dimensions.len() == 0 {
        None
    } else if dimensions[0].len > i32::MAX {
        Some("array dimension length exceeds signed int32"@)
    } else if !dimension_fits(dimensions[0]) {
        Some("array dimension upper bound exceeds signed int32"@)
    } else {
        dimension_problem(dimensions.drop_first())
    }
}

/// Why dimensions cannot hold `count` elements of a type.
pub open spec fn shape_problem(
    element_type: DataType,
    dimensions: Seq<ArrayDimension>,
    count: nat,
) -> Option<Seq<char>> {
    if element_type is Array {
        Some("array elements cannot themselves be arrays"@)
    } else if dimensions.len() > MAX_ARRAY_DIMENSIONS {
        Some("array has "@ + text::decimal_text(dimensions.len()) + " dimensions, maximum is 6"@)
    } else if count > MAX_ARRAY_ELEMENTS {
        Some("array has "@ + text::decimal_text(count) + " elements, maximum is 1000000"@)
    } else if count == 0 {
        if exists|i: int| 0 <= i < dimensions.len() && (#[trigger] dimensions[i]).len != 0 {
            Some("an empty array cannot have a non-empty dimension"@)
        } else {
            None
        }
    } else if dimensions.len() == 0 {
        Some("a non-empty array must have at least one dimension"@)
    } else if dimension_problem(dimensions) is Some {
        dimension_problem(dimensions)
    } else if exists|k: nat| k <= dimensions.len() && #[trigger] span(dimensions, k) > usize::MAX {
        Some("array cardinality overflows"@)
    } else if span(dimensions, dimensions.len()) != count {
        Some(
            "array dimensions describe "@ + text::decimal_text(span(dimensions, dimensions.len()))
                + " elements but "@ + text::decimal_text(count) + " were provided"@,
        )
    } else {
        None
    }
}

/// Every element belongs to the type.
pub open spec fn elements_match(elements: Seq<Value>, element_type: DataType) -> bool {
    forall|i: int| 0 <= i < elements.len() ==> (#[trigger] elements[i])@.matches_type(element_type)
}

/// What each value holds.
pub open spec fn models(values: Seq<Value>) -> Seq<ValueView> {
    values.map_values(|v: Value| v@)
}

impl View for SqlArray {
    type V = ArrayView;

    open spec fn view(&self) -> ArrayView {
        self.model()
    }
}

/// The error for an array that breaks a rule.
pub open spec fn array_error(message: Seq<char>) -> error::ErrorView {
    error::execute_error(SqlState::InvalidParameterValue, message)
}

fn invalid_array(message: &str) -> (error: DbError)
    ensures
        error@ == array_error(message@),
{
    DbError::execute(SqlState::InvalidParameterValue, message)
}

/// The error for an element that does not belong to an array's element type.
pub open spec fn mismatch_error(value: ValueView, element_type: DataType) -> ErrorView {
    array_error(
        "array element "@ + diagnostic::value_text(value) + " does not match "@
            + element_type.diagnostic_text(),
    )
}

fn element_mismatch(value: &Value, element_type: &DataType) -> (error: DbError)
    ensures
        error@ == mismatch_error(value@, *element_type),
{
    let value_text: String = diagnostic::show_value(value);
    let mut message: String = text::joined_text("array element ", &value_text, " does not match ");
    message.append(&element_type.diagnostic());
    invalid_array(message.as_str())
}

/// The element at an index is the first one that does not belong to the type.
pub open spec fn is_first_mismatch(
    elements: Seq<Value>,
    element_type: DataType,
    index: int,
) -> bool {
    &&& 0 <= index < elements.len()
    &&& !elements[index]@.matches_type(element_type)
    &&& forall|i: int| 0 <= i < index ==> (#[trigger] elements[i])@.matches_type(element_type)
}

fn first_dimension_problem(dimensions: &Vec<ArrayDimension>) -> (problem: Option<&'static str>)
    ensures
        match problem {
            Some(message) => dimension_problem(dimensions@) == Some(message@),
            None => dimension_problem(dimensions@) is None && forall|i: int|
                0 <= i < dimensions@.len() ==> dimension_fits(#[trigger] dimensions@[i]),
        },
{
    let mut i: usize = 0;
    proof {
        assert(dimensions@.skip(0) == dimensions@);
    }
    while i < dimensions.len()
        invariant
            i <= dimensions@.len(),
            dimension_problem(dimensions@) == dimension_problem(dimensions@.skip(i as int)),
            forall|j: int| 0 <= j < i ==> dimension_fits(#[trigger] dimensions@[j]),
        decreases dimensions@.len() - i,
    {
        proof {
            assert(dimensions@.skip(i as int)[0] == dimensions@[i as int]);
            assert(dimensions@.skip(i as int).drop_first() == dimensions@.skip(i + 1));
        }
        let dimension: ArrayDimension = dimensions[i];
        if dimension.len > i32::MAX as u32 {
            return Some("array dimension length exceeds signed int32");
        }
        let last: i64 = dimension.lower_bound as i64 + dimension.len as i64 - 1;
        if last < i32::MIN as i64 || last > i32::MAX as i64 {
            return Some("array dimension upper bound exceeds signed int32");
        }
        i += 1;
    }
    None
}

fn spanned_elements(dimensions: &Vec<ArrayDimension>) -> (cardinality: Option<usize>)
    ensures
        match cardinality {
            Some(cardinality) => cardinality == span(dimensions@, dimensions@.len())
                && forall|k: nat| k <= dimensions@.len() ==> #[trigger] span(dimensions@, k) <= usize::MAX,
            None => exists|k: nat| k <= dimensions@.len() && #[trigger] span(dimensions@, k) > usize::MAX,
        },
{
    let mut product: usize = 1;
    let mut i: usize = 0;
    while i < dimensions.len()
        invariant
            i <= dimensions@.len(),
            product == span(dimensions@, i as nat),
            forall|k: nat| k <= i ==> #[trigger] span(dimensions@, k) <= usize::MAX,
        decreases dimensions@.len() - i,
    {
        let len: usize = dimensions[i].len as usize;
        match product.checked_mul(len) {
            Some(next) => {
                product = next;
            },
            None => {
                assert(span(dimensions@, (i + 1) as nat) > usize::MAX);
                return None;
            },
        }
        i += 1;
    }
    Some(product)
}

impl SqlArray {
    /// What the array holds.
    pub closed spec fn model(self) -> ArrayView
        decreases self,
    {
        ArrayView {
            element_type: self.element_type,
            dimensions: self.dimensions@,
            elements: Seq::new(
                self.elements@.len(),
                |i: int|
                    if 0 <= i < self.elements@.len() {
                        self.elements@[i].model()
                    } else {
                        ValueView::Null
                    },
            ),
        }
    }

    #[verifier::type_invariant]
    spec fn in_shape(self) -> bool {
        self.model().well_formed()
    }

    /// The shape rules hold of every array.
    pub(crate) fn assert_shape(&self)
        ensures
            self@.well_formed(),
    {
        proof {
            use_type_invariant(self);
        }
    }

    /// An array over the given elements. The message of the error for an element
    /// outside the element type shows the element and the type.
    pub fn new(
        element_type: DataType,
        dimensions: Vec<ArrayDimension>,
        elements: Vec<Value>,
    ) -> (array: Result<Self>)
        ensures
            match array {
                Ok(array) => {
                    &&& shape_problem(element_type, dimensions@, elements@.len()) is None
                    &&& elements_match(elements@, element_type)
                    &&& array@.element_type == element_type
                    &&& array@.elements == models(elements@)
                    &&& array@.dimensions == if elements@.len() == 0 {
                        Seq::empty()
                    } else {
                        dimensions@
                    }
                },
                Err(error) => match shape_problem(element_type, dimensions@, elements@.len()) {
                    Some(message) => error@ == array_error(message),
                    None => {
                        &&& !elements_match(elements@, element_type)
                        &&& exists|i: int| #[trigger]
                            is_first_mismatch(elements@, element_type, i) && error@
                                == mismatch_error(elements@[i]@, element_type)
                    },
                },
            },
    {
        if matches!(element_type, DataType::Array(_)) {
            return Err(invalid_array("array elements cannot themselves be arrays"));
        }
        if dimensions.len() > MAX_ARRAY_DIMENSIONS {
            let message: String = text::numbered_text(
                "array has ",
                dimensions.len() as u128,
                " dimensions, maximum is 6",
            );
            return Err(invalid_array(message.as_str()));
        }
        if elements.len() > MAX_ARRAY_ELEMENTS {
            let message: String = text::numbered_text(
                "array has ",
                elements.len() as u128,
                " elements, maximum is 1000000",
            );
            return Err(invalid_array(message.as_str()));
        }
        if elements.len() == 0 {
            let mut i: usize = 0;
            while i < dimensions.len()
                invariant
                    i <= dimensions@.len(),
                    elements@.len() == 0,
                    dimensions@.len() <= MAX_ARRAY_DIMENSIONS,
                    !(element_type is Array),
                    forall|j: int| 0 <= j < i ==> (#[trigger] dimensions@[j]).len == 0,
                decreases dimensions@.len() - i,
            {
                if dimensions[i].len != 0 {
                    return Err(invalid_array("an empty array cannot have a non-empty dimension"));
                }
                i += 1;
            }
            let empty: SqlArray = SqlArray {
                element_type,
                dimensions: Vec::new(),
                elements: Vec::new(),
            };
            assert(empty@.elements == models(elements@));
            return Ok(empty);
        }
        if dimensions.len() == 0 {
            return Err(invalid_array("a non-empty array must have at least one dimension"));
        }
        if let Some(message) = first_dimension_problem(&dimensions) {
            return Err(invalid_array(message));
        }
        let cardinality: usize = match spanned_elements(&dimensions) {
            Some(cardinality) => cardinality,
            None => return Err(invalid_array("array cardinality overflows")),
        };
        if cardinality != elements.len() {
            let start: String = text::numbered_text(
                "array dimensions describe ",
                cardinality as u128,
                " elements but ",
            );
            let message: String = text::numbered_text(
                start.as_str(),
                elements.len() as u128,
                " were provided",
            );
            return Err(invalid_array(message.as_str()));
        }
        let mut i: usize = 0;
        while i < elements.len()
            invariant
                i <= elements@.len(),
                shape_problem(element_type, dimensions@, elements@.len()) is None,
                forall|j: int|
                    0 <= j < i ==> (#[trigger] elements@[j])@.matches_type(element_type),
            decreases elements@.len() - i,
        {
            if !value_matches_type(&elements[i], &element_type) {
                assert(is_first_mismatch(elements@, element_type, i as int));
                return Err(element_mismatch(&elements[i], &element_type));
            }
            i += 1;
        }
        Ok(Self::assemble(element_type, dimensions, elements))
    }

    fn assemble(
        element_type: DataType,
        dimensions: Vec<ArrayDimension>,
        elements: Vec<Value>,
    ) -> (array: Self)
        requires
            (ArrayView {
                element_type,
                dimensions: dimensions@,
                elements: models(elements@),
            }).well_formed(),
        ensures
            array@ == (ArrayView {
                element_type,
                dimensions: dimensions@,
                elements: models(elements@),
            }),
    {
        proof {
            let made = SqlArray { element_type, dimensions, elements };
            assert(made.model().elements =~= models(elements@));
        }
        Self { element_type, dimensions, elements }
    }

    /// The array without elements.
    pub fn empty(element_type: DataType) -> (array: Result<Self>)
        ensures
            match array {
                Ok(array) => !(element_type is Array) && array@ == (ArrayView {
                    element_type,
                    dimensions: Seq::empty(),
                    elements: Seq::empty(),
                }),
                Err(error) => element_type is Array && error@ == array_error(
                    "array elements cannot themselves be arrays"@,
                ),
            },
    {
        if matches!(element_type, DataType::Array(_)) {
            return Err(invalid_array("array elements cannot themselves be arrays"));
        }
        let empty: SqlArray = Self { element_type, dimensions: Vec::new(), elements: Vec::new() };
        assert(empty@.elements == Seq::<ValueView>::empty());
        Ok(empty)
    }

    #[must_use]
    pub fn element_type(&self) -> (element_type: &DataType)
        ensures
            *element_type == self@.element_type,
    {
        &self.element_type
    }

    #[must_use]
    pub fn dimensions(&self) -> (dimensions: &[ArrayDimension])
        ensures
            dimensions@ == self@.dimensions,
    {
        self.dimensions.as_slice()
    }

    #[must_use]
    pub fn elements(&self) -> (elements: &[Value])
        ensures
            models(elements@) == self@.elements,
    {
        assert(models(self.elements@) == self@.elements);
        self.elements.as_slice()
    }

    #[must_use]
    pub fn cardinality(&self) -> (cardinality: usize)
        ensures
            cardinality == self@.elements.len(),
    {
        self.elements.len()
    }

    /// Resolve one SQL subscript per dimension to a row-major element offset.
    /// A dimensionality mismatch or out-of-bounds coordinate has no element.
    #[must_use]
    pub fn element_offset(&self, subscripts: &[i64]) -> (offset: Option<usize>)
        ensures
            match offset {
                Some(offset) => self@.in_bounds(subscripts@) && offset == self@.row_major(
                    subscripts@,
                    self@.dimensions.len(),
                ) && offset < self@.elements.len(),
                None => !self@.in_bounds(subscripts@),
            },
    {
        proof {
            use_type_invariant(self);
        }
        if subscripts.len() != self.dimensions.len() || self.dimensions.len() == 0 {
            return None;
        }
        let ghost view = self@;
        let mut offset: usize = 0;
        let mut i: usize = 0;
        while i < subscripts.len()
            invariant
                i <= subscripts@.len(),
                subscripts@.len() == self.dimensions@.len(),
                self.dimensions@.len() > 0,
                view == self@,
                view.dimensions == self.dimensions@,
                view.well_formed(),
                offset == view.row_major(subscripts@, i as nat),
                offset < span(view.dimensions, i as nat),
                forall|j: int|
                    0 <= j < i ==> view.dimensions[j].lower_bound <= #[trigger] subscripts@[j]
                        < view.dimensions[j].lower_bound + view.dimensions[j].len,
            decreases subscripts@.len() - i,
        {
            let dimension: ArrayDimension = self.dimensions[i];
            let relative: i128 = subscripts[i] as i128 - dimension.lower_bound as i128;
            let len: usize = dimension.len as usize;
            if relative < 0 || relative >= len as i128 {
                assert(!(view.dimensions[i as int].lower_bound <= subscripts@[i as int]
                    < view.dimensions[i as int].lower_bound + view.dimensions[i as int].len));
                return None;
            }
            let relative: usize = relative as usize;
            proof {
                lemma_span_grows(view.dimensions, (i + 1) as nat, view.dimensions.len());
                let width = span(view.dimensions, i as nat) as int;
                assert(0 <= offset * len + relative < width * len) by (nonlinear_arith)
                    requires
                        0 <= offset < width,
                        0 <= relative < len,
                ;
                assert(0 <= offset * len <= offset * len + relative) by (nonlinear_arith)
                    requires
                        0 <= offset,
                        0 <= relative < len,
                ;
            }
            offset = offset * len + relative;
            i += 1;
        }
        Some(offset)
    }

    fn shape_order(&self, other: &Self) -> (order: Order)
        ensures
            order == order::lex_order(self@.shape_key(), other@.shape_key()),
    {
        let (a, b): (usize, usize) = (self.dimensions.len(), other.dimensions.len());
        let ghost (x, y) = (self@, other@);
        proof {
            let tail = |v: ArrayView| v.lengths() + v.lower_bounds();
            assert(x.shape_key() == seq![0int] + (seq![a as int] + tail(x)));
            assert(y.shape_key() == seq![0int] + (seq![b as int] + tail(y)));
            order::lemma_lex_order_skips_prefix(
                seq![0int],
                seq![a as int] + tail(x),
                seq![b as int] + tail(y),
            );
            assert((seq![a as int] + tail(x))[0] == a);
            assert((seq![b as int] + tail(y))[0] == b);
        }
        if a < b {
            return Order::Less;
        }
        if a > b {
            return Order::Greater;
        }
        proof {
            order::lemma_lex_order_skips_prefix(
                seq![a as int],
                x.lengths() + x.lower_bounds(),
                y.lengths() + y.lower_bounds(),
            );
            assert(x.lengths().skip(0) == x.lengths());
            assert(y.lengths().skip(0) == y.lengths());
        }
        let mut i: usize = 0;
        while i < a
            invariant
                i <= a,
                a == b,
                x == self@,
                y == other@,
                a == self.dimensions@.len(),
                b == other.dimensions@.len(),
                x.lengths().take(i as int) == y.lengths().take(i as int),
                order::lex_order(x.shape_key(), y.shape_key()) == order::lex_order(
                    x.lengths().skip(i as int) + x.lower_bounds(),
                    y.lengths().skip(i as int) + y.lower_bounds(),
                ),
            decreases a - i,
        {
            let (p, q): (u32, u32) = (self.dimensions[i].len, other.dimensions[i].len);
            proof {
                let s = x.lengths().skip(i as int) + x.lower_bounds();
                let t = y.lengths().skip(i as int) + y.lower_bounds();
                assert(s[0] == p);
                assert(t[0] == q);
                assert(s.drop_first() == x.lengths().skip(i + 1) + x.lower_bounds());
                assert(t.drop_first() == y.lengths().skip(i + 1) + y.lower_bounds());
            }
            if p < q {
                return Order::Less;
            }
            if p > q {
                return Order::Greater;
            }
            i += 1;
            proof {
                assert(x.lengths().take(i as int) == x.lengths().take(i - 1).push(p as int));
                assert(y.lengths().take(i as int) == y.lengths().take(i - 1).push(q as int));
            }
        }
        proof {
            assert(x.lengths().skip(a as int) + x.lower_bounds() == x.lower_bounds().skip(0));
            assert(y.lengths().skip(a as int) + y.lower_bounds() == y.lower_bounds().skip(0));
        }
        let mut i: usize = 0;
        while i < a
            invariant
                i <= a,
                a == b,
                x == self@,
                y == other@,
                a == self.dimensions@.len(),
                b == other.dimensions@.len(),
                order::lex_order(x.shape_key(), y.shape_key()) == order::lex_order(
                    x.lower_bounds().skip(i as int),
                    y.lower_bounds().skip(i as int),
                ),
            decreases a - i,
        {
            let (p, q): (i32, i32) = (
                self.dimensions[i].lower_bound,
                other.dimensions[i].lower_bound,
            );
            proof {
                let s = x.lower_bounds().skip(i as int);
                let t = y.lower_bounds().skip(i as int);
                assert(s[0] == p);
                assert(t[0] == q);
                assert(s.drop_first() == x.lower_bounds().skip(i + 1));
                assert(t.drop_first() == y.lower_bounds().skip(i + 1));
            }
            if p < q {
                return Order::Less;
            }
            if p > q {
                return Order::Greater;
            }
            i += 1;
        }
        Order::Equal
    }

    /// The order of arrays: by element type, then by elements, then by shape.
    pub fn order(&self, other: &Self) -> (order: Order)
        ensures
            order == order::nested_lex_order(self@.key(), other@.key()),
    {
        let ghost (x, y) = (self@, other@);
        let ghost mark = |e: ValueView| seq![1int] + e.scalar_key();
        let ghost xs = x.elements.map_values(mark);
        let ghost ys = y.elements.map_values(mark);
        proof {
            assert(x.key() == seq![x.element_type.key()] + (xs + seq![x.shape_key()]));
            assert(y.key() == seq![y.element_type.key()] + (ys + seq![y.shape_key()]));
            assert(x.key()[0] == x.element_type.key());
            assert(y.key()[0] == y.element_type.key());
            order::lex_order_is_antisymmetric(x.element_type.key(), y.element_type.key());
        }
        match self.element_type.order(&other.element_type) {
            Order::Equal => {},
            decided => return decided,
        }
        proof {
            order::lemma_nested_order_skips_prefix(
                seq![x.element_type.key()],
                xs + seq![x.shape_key()],
                ys + seq![y.shape_key()],
            );
            assert(xs.skip(0) == xs);
            assert(ys.skip(0) == ys);
        }
        let mut i: usize = 0;
        while i < self.elements.len() && i < other.elements.len()
            invariant
                i <= self.elements@.len(),
                i <= other.elements@.len(),
                x == self@,
                y == other@,
                mark == (|e: ValueView| seq![1int] + e.scalar_key()),
                xs == x.elements.map_values(mark),
                ys == y.elements.map_values(mark),
                order::nested_lex_order(x.key(), y.key()) == order::nested_lex_order(
                    xs.skip(i as int) + seq![x.shape_key()],
                    ys.skip(i as int) + seq![y.shape_key()],
                ),
            decreases self.elements@.len() - i,
        {
            let ghost (e, f) = (x.elements[i as int], y.elements[i as int]);
            proof {
                let s = xs.skip(i as int) + seq![x.shape_key()];
                let t = ys.skip(i as int) + seq![y.shape_key()];
                assert(s[0] == seq![1int] + e.scalar_key());
                assert(t[0] == seq![1int] + f.scalar_key());
                assert(s.drop_first() == xs.skip(i + 1) + seq![x.shape_key()]);
                assert(t.drop_first() == ys.skip(i + 1) + seq![y.shape_key()]);
                order::lemma_lex_order_skips_prefix(seq![1int], e.scalar_key(), f.scalar_key());
                order::lex_order_is_antisymmetric(e.scalar_key(), f.scalar_key());
                order::lex_order_is_antisymmetric(s[0], t[0]);
            }
            match self.elements[i].scalar_order(&other.elements[i]) {
                Order::Equal => {},
                decided => return decided,
            }
            i += 1;
        }
        proof {
            let s = xs.skip(i as int) + seq![x.shape_key()];
            let t = ys.skip(i as int) + seq![y.shape_key()];
            if i < self.elements@.len() {
                assert(s[0] == seq![1int] + x.elements[i as int].scalar_key());
                assert(s[0][0] == 1);
                assert(t[0] == y.shape_key());
                assert(t[0][0] == 0);
            } else if i < other.elements@.len() {
                assert(t[0] == seq![1int] + y.elements[i as int].scalar_key());
                assert(t[0][0] == 1);
                assert(s[0] == x.shape_key());
                assert(s[0][0] == 0);
            } else {
                reveal_with_fuel(order::nested_lex_order, 2);
                assert(s[0] == x.shape_key());
                assert(t[0] == y.shape_key());
                assert(s.drop_first().len() == 0);
                assert(t.drop_first().len() == 0);
                order::lex_order_is_antisymmetric(x.shape_key(), y.shape_key());
            }
        }
        if i < self.elements.len() {
            Order::Greater
        } else if i < other.elements.len() {
            Order::Less
        } else {
            self.shape_order(other)
        }
    }
}

impl PartialEq for SqlArray {
    fn eq(&self, other: &Self) -> (equal: bool) {
        proof {
            order::nested_lex_order_is_antisymmetric(self@.key(), other@.key());
        }
        matches!(self.order(other), Order::Equal)
    }
}

impl vstd::std_specs::cmp::PartialEqSpecImpl for SqlArray {
    open spec fn obeys_eq_spec() -> bool {
        true
    }

    open spec fn eq_spec(&self, other: &Self) -> bool {
        self@.key() == other@.key()
    }
}

impl Eq for SqlArray {

}

impl PartialOrd for SqlArray {
    fn partial_cmp(&self, other: &Self) -> (order: Option<Ordering>) {
        Some(order::to_std_order(self.order(other)))
    }
}

impl vstd::std_specs::cmp::PartialOrdSpecImpl for SqlArray {
    open spec fn obeys_partial_cmp_spec() -> bool {
        true
    }

    open spec fn partial_cmp_spec(&self, other: &Self) -> Option<Ordering> {
        Some(order::std_order(order::nested_lex_order(self@.key(), other@.key())))
    }
}

impl Clone for SqlArray {
    fn clone(&self) -> (copy: Self)
        ensures
            copy@ == self@,
        decreases self,
    {
        proof {
            use_type_invariant(self);
        }
        let mut elements: Vec<Value> = Vec::new();
        let mut i: usize = 0;
        while i < self.elements.len()
            invariant
                i <= self.elements@.len(),
                elements@.len() == i,
                forall|j: int| 0 <= j < i ==> (#[trigger] elements@[j])@ == self.elements@[j]@,
            decreases self.elements@.len() - i,
        {
            let element: Value = self.elements[i].clone();
            elements.push(element);
            i += 1;
        }
        let mut dimensions: Vec<ArrayDimension> = Vec::new();
        let mut i: usize = 0;
        while i < self.dimensions.len()
            invariant
                i <= self.dimensions@.len(),
                dimensions@ == self.dimensions@.take(i as int),
            decreases self.dimensions@.len() - i,
        {
            dimensions.push(self.dimensions[i]);
            i += 1;
        }
        let element_type: DataType = self.element_type.clone();
        proof {
            assert(dimensions@ == self.dimensions@);
            assert(models(elements@) =~= self@.elements);
        }
        Self::assemble(element_type, dimensions, elements)
    }
}

/// Whether a logical value belongs to a semantic SQL type. NULL is accepted for
/// every type; column/expression nullability is enforced by the caller.
#[must_use]
pub fn value_matches_type(value: &Value, data_type: &DataType) -> (matches: bool)
    ensures
        matches == value@.matches_type(*data_type),
{
    match (value, data_type) {
        (Value::Null, _) => true,
        (Value::Integer(_), DataType::Integer)
        | (Value::Text(_), DataType::Text)
        | (Value::Boolean(_), DataType::Boolean)
        | (Value::Date(_), DataType::Date)
        | (Value::Timestamp(_), DataType::Timestamp)
        | (Value::Time(_), DataType::Time)
        | (Value::TimestampTz(_), DataType::TimestampTz)
        | (Value::Interval(_), DataType::Interval)
        | (Value::Bytes(_), DataType::Bytea)
        | (Value::Uuid(_), DataType::Uuid)
        | (Value::Float(_), DataType::Double)
        | (Value::Real(_), DataType::Real)
        | (Value::Numeric(_), DataType::Numeric { .. }) => true,
        (Value::Array(array), DataType::Array(element_type)) => *array.element_type()
            == *element_type.element_type(),
        _ => false,
    }
}

} // verus!
