use saguaro_common::array_text::ArrayTextParser;
use saguaro_common::numeric::parse_numeric;
use saguaro_common::{
    format_array_text_structure, parse_array_text_structure, value_matches_type, ArrayDimension,
    ArrayType, DataType, ErrorKind, Interval, SqlArray, SqlState, Value, MAX_ARRAY_ELEMENTS,
};

const MAX_ARRAY_TEXT_LISTS: usize = 6 * 1_000_000 + 1;

#[test]
fn parses_array_text_structure_with_quotes_nulls_bounds_and_shape() {
    let (dimensions, elements) =
        parse_array_text_structure(r#"[-1:0][2:3]={{"a,b",NULL},{"NULL","x\\y"}}"#).unwrap();
    assert_eq!(
        dimensions,
        vec![ArrayDimension::new(2, -1), ArrayDimension::new(2, 2)]
    );
    assert_eq!(
        elements,
        vec![
            Some("a,b".to_string()),
            None,
            Some("NULL".to_string()),
            Some("x\\y".to_string())
        ]
    );
    assert!(parse_array_text_structure("{{1},{2,3}}").is_err());
}

#[test]
fn array_text_parser_rejects_excess_dimensions_and_malformed_empty_tokens() {
    for text in [
        "{{{{{{{1}}}}}}}",
        "[1:1][1:1][1:1][1:1][1:1][1:1][1:1]={{{{{{{1}}}}}}}",
        "{,}",
        "{1,}",
        "{a\"b}",
        "{a{b}",
        "{{}}",
        "[1:2]={}",
    ] {
        assert!(
            parse_array_text_structure(text).is_err(),
            "accepted malformed array text: {text}"
        );
    }
    assert!(parse_array_text_structure("[ 1 : 0 ] = {}").is_ok());
    assert_eq!(
        parse_array_text_structure("{ }").unwrap().1,
        Vec::<Option<String>>::new()
    );
    assert_eq!(
        parse_array_text_structure("{\\ }").unwrap().1,
        vec![Some(" ".to_string())]
    );

    let element: Vec<char> = "1}".chars().collect();
    let list: Vec<char> = "{}".chars().collect();
    let mut at_element_limit = ArrayTextParser {
        chars: &element,
        offset: 0,
        lists: 0,
        elements: MAX_ARRAY_ELEMENTS - 1,
    };
    assert_eq!(at_element_limit.element().unwrap(), Some("1".to_string()));
    let mut beyond_element_limit = ArrayTextParser {
        chars: &element,
        offset: 0,
        lists: 0,
        elements: MAX_ARRAY_ELEMENTS,
    };
    assert_eq!(
        beyond_element_limit.element().unwrap_err().message,
        "array text has too many elements"
    );
    let mut beyond_list_limit = ArrayTextParser {
        chars: &list,
        offset: 0,
        lists: MAX_ARRAY_TEXT_LISTS,
        elements: 0,
    };
    assert_eq!(
        beyond_list_limit
            .list(0, &mut Vec::new())
            .unwrap_err()
            .message,
        "array text has too many nested lists"
    );
}

#[test]
fn validates_shape_and_element_type() {
    let array = SqlArray::new(
        DataType::Integer,
        vec![ArrayDimension::new(2, 1), ArrayDimension::new(2, -1)],
        vec![
            Value::Integer(1),
            Value::Null,
            Value::Integer(3),
            Value::Integer(4),
        ],
    )
    .unwrap();
    assert_eq!(array.cardinality(), 4);
    assert_eq!(array.element_offset(&[1, -1]), Some(0));
    assert_eq!(array.element_offset(&[2, 0]), Some(3));
    assert_eq!(array.element_offset(&[0, -1]), None);
    assert_eq!(array.element_offset(&[1]), None);

    assert!(SqlArray::new(
        DataType::Integer,
        vec![ArrayDimension::new(1, 1)],
        vec![Value::Text("wrong".to_string())],
    )
    .is_err());
    assert!(SqlArray::new(
        DataType::Integer,
        vec![ArrayDimension::new(2, i32::MAX)],
        vec![Value::Integer(1), Value::Integer(2)],
    )
    .is_err());
    assert!(SqlArray::new(
        DataType::Integer,
        vec![ArrayDimension::new(i32::MAX as u32 + 1, 1)],
        vec![Value::Integer(1)],
    )
    .is_err());
}

#[test]
fn empty_arrays_are_canonical() {
    let array =
        SqlArray::new(DataType::Text, vec![ArrayDimension::new(0, 42)], Vec::new()).unwrap();
    assert!(array.dimensions().is_empty());
    assert!(array.elements().is_empty());
}

#[test]
fn ordering_compares_elements_before_dimensions() {
    let short = SqlArray::new(
        DataType::Integer,
        vec![ArrayDimension::new(1, 1)],
        vec![Value::Integer(2)],
    )
    .unwrap();
    let long = SqlArray::new(
        DataType::Integer,
        vec![ArrayDimension::new(2, 1)],
        vec![Value::Integer(1), Value::Integer(9)],
    )
    .unwrap();
    assert!(long < short, "row-major elements decide before shape");
}

fn plain(value: &Value) -> Result<String, ()> {
    match value {
        Value::Text(text) => Ok(text.clone()),
        Value::Integer(n) => Ok(n.to_string()),
        _ => Err(()),
    }
}

#[test]
fn array_text_is_quoted_where_it_must_be() {
    let array = SqlArray::new(
        DataType::Text,
        vec![ArrayDimension::new(2, 0), ArrayDimension::new(2, 1)],
        vec![
            Value::Text("a,b".to_string()),
            Value::Null,
            Value::Text("NULL".to_string()),
            Value::Text("x\\y".to_string()),
        ],
    )
    .unwrap();
    let text = format_array_text_structure(&array, &mut plain).unwrap();
    assert_eq!(text, "[0:1][1:2]={{\"a,b\",NULL},{\"NULL\",\"x\\\\y\"}}");
    let (dimensions, elements) = parse_array_text_structure(&text).unwrap();
    assert_eq!(dimensions, array.dimensions());
    assert_eq!(elements[0], Some("a,b".to_string()));
    assert_eq!(elements[1], None);
    assert_eq!(elements[2], Some("NULL".to_string()));
    assert_eq!(elements[3], Some("x\\y".to_string()));
}

#[test]
fn array_text_of_plain_elements_has_no_bounds() {
    let array = SqlArray::new(
        DataType::Integer,
        vec![ArrayDimension::new(3, 1)],
        vec![Value::Integer(1), Value::Integer(-2), Value::Integer(3)],
    )
    .unwrap();
    assert_eq!(
        format_array_text_structure(&array, &mut plain),
        Ok("{1,-2,3}".to_string())
    );
    let empty = SqlArray::empty(DataType::Integer).unwrap();
    assert_eq!(
        format_array_text_structure(&empty, &mut plain),
        Ok("{}".to_string())
    );
}

#[test]
fn a_failing_element_fails_the_array_text() {
    let array = SqlArray::new(
        DataType::Boolean,
        vec![ArrayDimension::new(1, 1)],
        vec![Value::Boolean(true)],
    )
    .unwrap();
    assert_eq!(format_array_text_structure(&array, &mut plain), Err(()));
}

#[test]
fn array_text_errors_are_parameter_errors() {
    let error = parse_array_text_structure("{{1},{2,3}}").unwrap_err();
    assert_eq!(error.kind, ErrorKind::Execute);
    assert_eq!(error.code, SqlState::InvalidParameterValue);
}

#[test]
fn elements_of_another_type_are_named() {
    let error = SqlArray::new(
        DataType::Text,
        vec![ArrayDimension::new(2, 1)],
        vec![Value::Null, Value::Integer(7)],
    )
    .unwrap_err();
    assert_eq!(error.kind, ErrorKind::Execute);
    assert_eq!(error.code, SqlState::InvalidParameterValue);
    assert_eq!(error.message, "array element Integer(7) does not match Text");
}

#[test]
fn mismatched_elements_are_shown_with_their_kind() {
    let inner = SqlArray::new(
        DataType::Integer,
        vec![ArrayDimension::new(2, -1)],
        vec![Value::Integer(-5), Value::Null],
    )
    .unwrap();
    for (value, shown) in [
        (Value::Boolean(true), "Boolean(true)"),
        (Value::Numeric(parse_numeric("-1.50").unwrap()), "Numeric(-1.50)"),
        (Value::Text("a\"b\n".to_string()), r#"Text("a\"b\n")"#),
        (Value::Timestamp(-1), "Timestamp(-1)"),
        (
            Value::Interval(Interval::new(1, -2, 3)),
            "Interval(Interval { months: 1, days: -2, micros: 3 })",
        ),
        (Value::Bytes(vec![1, 255]), "Bytes([1, 255])"),
        (Value::Bytes(vec![]), "Bytes([])"),
        (Value::Uuid([0; 16]), "Uuid([0, 0, 0, 0, 0, 0, 0, 0, 0, 0, 0, 0, 0, 0, 0, 0])"),
        (
            Value::Array(inner),
            "Array(SqlArray { element_type: Integer, dimensions: [ArrayDimension { len: 2, \
             lower_bound: -1 }], elements: [Integer(-5), Null] })",
        ),
    ] {
        let error =
            SqlArray::new(DataType::Date, vec![ArrayDimension::new(1, 1)], vec![value]).unwrap_err();
        assert_eq!(error.message, format!("array element {shown} does not match Date"));
    }
    let error = SqlArray::new(
        DataType::Numeric { precision: Some(5), scale: 2 },
        vec![ArrayDimension::new(1, 1)],
        vec![Value::Boolean(false)],
    )
    .unwrap_err();
    assert_eq!(
        error.message,
        "array element Boolean(false) does not match Numeric { precision: Some(5), scale: 2 }"
    );
}

#[test]
fn values_match_their_types() {
    assert!(value_matches_type(&Value::Integer(1), &DataType::Integer));
    assert!(!value_matches_type(&Value::Integer(1), &DataType::Text));
    assert!(value_matches_type(&Value::Null, &DataType::Text));
    let array = SqlArray::new(
        DataType::Integer,
        vec![ArrayDimension::new(1, 1)],
        vec![Value::Integer(1)],
    )
    .unwrap();
    let of_integers = DataType::Array(ArrayType::new(DataType::Integer).unwrap());
    let of_texts = DataType::Array(ArrayType::new(DataType::Text).unwrap());
    assert!(value_matches_type(&Value::Array(array.clone()), &of_integers));
    assert!(!value_matches_type(&Value::Array(array), &of_texts));
}
