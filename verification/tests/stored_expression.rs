use saguaro_common::{
    validate_stored_expression_shape, DataType, OrderedF64, SqlState, StoredBinOp, StoredExpr,
    StoredExpression, Value, STORED_EXPRESSION_VERSION,
};

fn integer_literal() -> StoredExpr {
    StoredExpr::Literal {
        value: Value::Integer(1),
        data_type: DataType::Integer,
        nullable: false,
    }
}

#[test]
fn shape_validation_rejects_forged_literal_type_metadata() {
    let expression = StoredExpression {
        version: STORED_EXPRESSION_VERSION,
        sql: "1".to_string(),
        root: StoredExpr::Literal {
            value: Value::Integer(1),
            data_type: DataType::Boolean,
            nullable: false,
        },
        data_type: DataType::Boolean,
        pg_type: None,
        nullable: false,
    };

    let error = validate_stored_expression_shape(&expression).unwrap_err();
    assert!(error.message.contains("literal"));
}

#[test]
fn shape_validation_rejects_non_finite_literals() {
    let expression = StoredExpression {
        version: STORED_EXPRESSION_VERSION,
        sql: "1e400".to_string(),
        root: StoredExpr::Literal {
            value: Value::Float(OrderedF64::from(f64::INFINITY.to_bits())),
            data_type: DataType::Double,
            nullable: false,
        },
        data_type: DataType::Double,
        pg_type: None,
        nullable: false,
    };

    assert!(validate_stored_expression_shape(&expression).is_err());
}

#[test]
fn sequence_reference_search_traverses_nested_expressions() {
    let expression = StoredExpr::Binary {
        left: Box::new(integer_literal()),
        op: StoredBinOp::Add,
        right: Box::new(StoredExpr::Function {
            function: 1,
            args: vec![StoredExpr::Nextval {
                sequence: 42,
                data_type: DataType::Integer,
                nullable: false,
            }],
            data_type: DataType::Integer,
            pg_type: None,
            nullable: false,
        }),
        data_type: DataType::Integer,
        nullable: false,
    };

    assert!(expression.references_sequence(42));
    assert!(!expression.references_sequence(41));
}

fn expression(root: StoredExpr) -> StoredExpression {
    StoredExpression {
        version: STORED_EXPRESSION_VERSION,
        sql: "1".to_string(),
        root,
        data_type: DataType::Integer,
        pg_type: None,
        nullable: false,
    }
}

#[test]
fn a_plain_expression_has_a_valid_shape() {
    assert!(validate_stored_expression_shape(&expression(integer_literal())).is_ok());
}

#[test]
fn shape_validation_rejects_unknown_versions_and_deep_expressions() {
    let mut unknown = expression(integer_literal());
    unknown.version = STORED_EXPRESSION_VERSION + 1;
    assert!(validate_stored_expression_shape(&unknown).is_err());

    let mut root = integer_literal();
    for _ in 0..200 {
        root = StoredExpr::Binary {
            left: Box::new(root),
            op: StoredBinOp::Add,
            right: Box::new(integer_literal()),
            data_type: DataType::Integer,
            nullable: false,
        };
    }
    let error = validate_stored_expression_shape(&expression(root)).unwrap_err();
    assert_eq!(error.code, SqlState::InternalError);
    assert_eq!(error.message, "stored expression exceeds durable size limits");
}

#[test]
fn copies_of_expressions_are_equal() {
    let root = StoredExpr::Case {
        operand: None,
        when_clauses: vec![
            (integer_literal(), integer_literal()),
            (
                StoredExpr::InList {
                    expr: Box::new(integer_literal()),
                    list: vec![integer_literal(), integer_literal()],
                    negated: true,
                    data_type: DataType::Boolean,
                    nullable: false,
                },
                integer_literal(),
            ),
        ],
        else_clause: Some(Box::new(StoredExpr::Nextval {
            sequence: 9,
            data_type: DataType::Integer,
            nullable: false,
        })),
        data_type: DataType::Integer,
        nullable: false,
    };
    let first = expression(root);
    let mut copy = first.clone();
    assert!(copy == first);

    let StoredExpr::Case { when_clauses, .. } = &mut copy.root else {
        panic!("root is CASE")
    };
    let StoredExpr::InList { list, negated, .. } = &mut when_clauses[1].0 else {
        panic!("second condition is IN")
    };
    assert_eq!(list.len(), 2);
    *negated = false;
    assert!(copy != first);
}

#[test]
fn sequences_are_visited_in_order() {
    let root = StoredExpr::Setval {
        sequence: 5,
        value: Box::new(StoredExpr::Currval {
            sequence: 3,
            data_type: DataType::Integer,
            nullable: false,
        }),
        is_called: None,
        data_type: DataType::Integer,
        nullable: false,
    };
    let mut visited = Vec::new();
    root.for_each_sequence_reference(&mut |sequence: u32| visited.push(sequence));
    assert_eq!(visited, root.sequence_references());
    assert_eq!(visited.len(), 2);
}
