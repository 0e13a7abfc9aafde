//! Values as diagnostics show them.

use vstd::prelude::*;

use crate::array::{self, ArrayDimension, ArrayView, SqlArray};
use crate::interval::Interval;
use crate::numeric::arithmetic;
use crate::text;
use crate::value::{Value, ValueView};

verus! {

/// The text in quotes, as the standard library's `Debug` of `str` writes it.
pub uninterp spec fn quoted(text: Seq<char>) -> Seq<char>;

/// The standard library's `Debug` of `str` puts the text in quotes and escapes what would
/// not show. It depends on the text alone: what it writes has a name.
#[verifier::external_body]
fn quote(text: &str) -> (out: String)
    ensures
        out@ == quoted(text@),
{
    format!("{text:?}")
}

/// A number in a pair of round brackets behind a name.
pub open spec fn named_number(name: Seq<char>, n: int) -> Seq<char> {
    name + seq!['('] + text::signed_decimal_text(n) + seq![')']
}

/// Bytes as a list of numbers in square brackets.
pub open spec fn byte_list(bytes: Seq<u8>) -> Seq<char> {
    seq!['['] + text::joined(bytes.map_values(|b: u8| text::decimal_text(b as nat)), ", "@) + seq![
        ']',
    ]
}

/// The parts of an interval by their names.
pub open spec fn interval_parts(interval: Interval) -> Seq<char> {
    "Interval { months: "@ + text::signed_decimal_text(interval.months as int) + ", days: "@
        + text::signed_decimal_text(interval.days as int) + ", micros: "@
        + text::signed_decimal_text(interval.micros as int) + " }"@
}

/// A scalar: the name of its kind and what it holds. Floats are shown by their bits. An
/// array is none.
pub open spec fn scalar_text(value: ValueView) -> Seq<char> {
    match value {
        ValueView::Null => "Null"@,
        ValueView::Boolean(b) => if b {
            "Boolean(true)"@
        } else {
            "Boolean(false)"@
        },
        ValueView::Integer(n) => named_number("Integer"@, n as int),
        ValueView::Float(f) => "Float("@ + named_number("OrderedF64"@, f.0 as int) + seq![')'],
        ValueView::Real(f) => "Real("@ + named_number("OrderedF32"@, f.0 as int) + seq![')'],
        ValueView::Numeric(d) => "Numeric("@ + arithmetic::numeric_text(d) + seq![')'],
        ValueView::Text(t) => "Text("@ + quoted(t) + seq![')'],
        ValueView::Date(n) => named_number("Date"@, n as int),
        ValueView::Timestamp(n) => named_number("Timestamp"@, n as int),
        ValueView::Time(n) => named_number("Time"@, n as int),
        ValueView::TimestampTz(n) => named_number("TimestampTz"@, n as int),
        ValueView::Interval(i) => "Interval("@ + interval_parts(i) + seq![')'],
        ValueView::Bytes(b) => "Bytes("@ + byte_list(b) + seq![')'],
        ValueView::Uuid(b) => "Uuid("@ + byte_list(b) + seq![')'],
        ValueView::Array(_) => Seq::empty(),
    }
}

/// A dimension by the names of its parts.
pub open spec fn dimension_text(dimension: ArrayDimension) -> Seq<char> {
    "ArrayDimension { len: "@ + text::decimal_text(dimension.len as nat) + ", lower_bound: "@
        + text::signed_decimal_text(dimension.lower_bound as int) + " }"@
}

/// An array by the names of its parts.
pub open spec fn array_text(array: ArrayView) -> Seq<char> {
    "SqlArray { element_type: "@ + array.element_type.diagnostic_text() + ", dimensions: ["@
        + text::joined(
        array.dimensions.map_values(|d: ArrayDimension| dimension_text(d)),
        ", "@,
    ) + "], elements: ["@ + text::joined(
        array.elements.map_values(|v: ValueView| scalar_text(v)),
        ", "@,
    ) + "] }"@
}

/// A value: the name of its kind and what it holds.
pub open spec fn value_text(value: ValueView) -> Seq<char> {
    match value {
        ValueView::Array(array) => "Array("@ + array_text(array) + seq![')'],
        _ => scalar_text(value),
    }
}

fn show_number(name: &str, n: i64) -> (out: String)
    ensures
        out@ == named_number(name@, n as int),
{
    let mut out: String = name.to_owned();
    out.push('(');
    text::push_signed_decimal(&mut out, n);
    out.push(')');
    assert(out@ =~= named_number(name@, n as int));
    out
}

fn bracketed(start: &str, inner: &str) -> (out: String)
    ensures
        out@ == start@ + inner@ + seq![')'],
{
    let mut out: String = start.to_owned();
    out.append(inner);
    out.push(')');
    out
}

fn show_bytes(bytes: &[u8]) -> (out: String)
    ensures
        out@ == byte_list(bytes@),
{
    let ghost texts = bytes@.map_values(|b: u8| text::decimal_text(b as nat));
    let mut list: Vec<String> = Vec::new();
    let mut i: usize = 0;
    while i < bytes.len()
        invariant
            i <= bytes@.len(),
            texts == bytes@.map_values(|b: u8| text::decimal_text(b as nat)),
            text::string_views(list@) == texts.take(i as int),
        decreases bytes@.len() - i,
    {
        let ghost before = text::string_views(list@);
        list.push(text::decimal_string(bytes[i] as u128));
        i += 1;
        assert(text::string_views(list@) =~= before.push(texts[i - 1]));
        assert(texts.take(i as int) =~= before.push(texts[i - 1]));
    }
    assert(texts.take(i as int) =~= texts);
    let mut out: String = String::new();
    out.push('[');
    out.append(&text::join(&list, ", "));
    out.push(']');
    assert(out@ =~= byte_list(bytes@));
    out
}

fn show_interval(interval: &Interval) -> (out: String)
    ensures
        out@ == interval_parts(*interval),
{
    let mut out: String = "Interval { months: ".to_owned();
    text::push_signed_decimal(&mut out, interval.months as i64);
    out.append(", days: ");
    text::push_signed_decimal(&mut out, interval.days as i64);
    out.append(", micros: ");
    text::push_signed_decimal(&mut out, interval.micros);
    out.append(" }");
    out
}

fn show_scalar(value: &Value) -> (out: String)
    requires
        !(value@ is Array),
    ensures
        out@ == scalar_text(value@),
{
    match value {
        Value::Null => "Null".to_owned(),
        Value::Boolean(b) => if *b {
            "Boolean(true)".to_owned()
        } else {
            "Boolean(false)".to_owned()
        },
        Value::Integer(n) => show_number("Integer", *n),
        Value::Float(f) => {
            let inner: String = bracketed("OrderedF64(", &text::decimal_string(f.0 as u128));
            proof {
                reveal_strlit("OrderedF64(");
                reveal_strlit("OrderedF64");
                assert("OrderedF64("@ =~= "OrderedF64"@ + seq!['(']);
            }
            bracketed("Float(", &inner)
        },
        Value::Real(f) => {
            let inner: String = bracketed("OrderedF32(", &text::decimal_string(f.0 as u128));
            proof {
                reveal_strlit("OrderedF32(");
                reveal_strlit("OrderedF32");
                assert("OrderedF32("@ =~= "OrderedF32"@ + seq!['(']);
            }
            bracketed("Real(", &inner)
        },
        Value::Numeric(d) => bracketed("Numeric(", &arithmetic::format_numeric(d)),
        Value::Text(t) => bracketed("Text(", &quote(t)),
        Value::Date(n) => show_number("Date", *n),
        Value::Timestamp(n) => show_number("Timestamp", *n),
        Value::Time(n) => show_number("Time", *n),
        Value::TimestampTz(n) => show_number("TimestampTz", *n),
        Value::Interval(i) => bracketed("Interval(", &show_interval(i)),
        Value::Bytes(b) => bracketed("Bytes(", &show_bytes(b)),
        Value::Uuid(b) => bracketed("Uuid(", &show_bytes(b)),
        Value::Array(_) => String::new(),
    }
}

fn show_dimension(dimension: &ArrayDimension) -> (out: String)
    ensures
        out@ == dimension_text(*dimension),
{
    let mut out: String = text::numbered_text(
        "ArrayDimension { len: ",
        dimension.len as u128,
        ", lower_bound: ",
    );
    text::push_signed_decimal(&mut out, dimension.lower_bound as i64);
    out.append(" }");
    out
}

fn show_dimensions(dimensions: &[ArrayDimension]) -> (out: String)
    ensures
        out@ == text::joined(
            dimensions@.map_values(|d: ArrayDimension| dimension_text(d)),
            ", "@,
        ),
{
    let ghost texts = dimensions@.map_values(|d: ArrayDimension| dimension_text(d));
    let mut list: Vec<String> = Vec::new();
    let mut i: usize = 0;
    while i < dimensions.len()
        invariant
            i <= dimensions@.len(),
            texts == dimensions@.map_values(|d: ArrayDimension| dimension_text(d)),
            text::string_views(list@) == texts.take(i as int),
        decreases dimensions@.len() - i,
    {
        let ghost before = text::string_views(list@);
        list.push(show_dimension(&dimensions[i]));
        i += 1;
        assert(text::string_views(list@) =~= before.push(texts[i - 1]));
        assert(texts.take(i as int) =~= before.push(texts[i - 1]));
    }
    assert(texts.take(i as int) =~= texts);
    text::join(&list, ", ")
}

fn show_elements(elements: &[Value]) -> (out: String)
    requires
        forall|i: int| 0 <= i < elements@.len() ==> !((#[trigger] elements@[i])@ is Array),
    ensures
        out@ == text::joined(
            array::models(elements@).map_values(|v: ValueView| scalar_text(v)),
            ", "@,
        ),
{
    let ghost texts = array::models(elements@).map_values(|v: ValueView| scalar_text(v));
    let mut list: Vec<String> = Vec::new();
    let mut i: usize = 0;
    while i < elements.len()
        invariant
            i <= elements@.len(),
            forall|i: int| 0 <= i < elements@.len() ==> !((#[trigger] elements@[i])@ is Array),
            texts == array::models(elements@).map_values(|v: ValueView| scalar_text(v)),
            text::string_views(list@) == texts.take(i as int),
        decreases elements@.len() - i,
    {
        let ghost before = text::string_views(list@);
        list.push(show_scalar(&elements[i]));
        i += 1;
        assert(text::string_views(list@) =~= before.push(texts[i - 1]));
        assert(texts.take(i as int) =~= before.push(texts[i - 1]));
    }
    assert(texts.take(i as int) =~= texts);
    text::join(&list, ", ")
}

fn show_array(array: &SqlArray) -> (out: String)
    ensures
        out@ == array_text(array@),
{
    array.assert_shape();
    let elements: &[Value] = array.elements();
    assert forall|i: int|
        0 <= i < elements@.len() implies !((#[trigger] elements@[i])@ is Array) by {
        assert(array@.elements[i] == elements@[i]@);
        assert(array@.elements[i].matches_type(array@.element_type));
    }
    let mut out: String = "SqlArray { element_type: ".to_owned();
    out.append(&array.element_type().diagnostic());
    out.append(", dimensions: [");
    out.append(&show_dimensions(array.dimensions()));
    out.append("], elements: [");
    out.append(&show_elements(elements));
    out.append("] }");
    out
}

/// The value as diagnostics show it.
pub(crate) fn show_value(value: &Value) -> (out: String)
    ensures
        out@ == value_text(value@),
{
    match value {
        Value::Array(array) => bracketed("Array(", &show_array(array)),
        _ => show_scalar(value),
    }
}

} // verus!
