use saguaro_common::stored_query::placement::validate_select_semantics;
use saguaro_common::{
    stored_query_function_exists, validate_stored_query_shape, CatalogObjectId, DataType, PgType,
    SqlState, StoredColumnReference, StoredCorrelatedColumn, StoredDistinct, StoredFrom,
    StoredJoinType, StoredOrderBy, StoredQueryBinOp, StoredQueryBody, StoredQueryColumn,
    StoredQueryExpr, StoredQueryV1, StoredRangeColumn, StoredRowLock, StoredSelect,
    StoredSelectItem, StoredSetOp, StoredSetOperator, StoredTupleLockMode,
    StoredTupleLockWaitPolicy, StoredValues, Value, MAX_STORED_QUERY_DEPTH,
    MAX_STORED_QUERY_LIST_ITEMS, STORED_QUERY_VERSION,
};

fn integer(value: i64) -> StoredQueryExpr {
    StoredQueryExpr::Literal {
        value: Value::Integer(value),
        data_type: DataType::Integer,
        nullable: false,
    }
}

fn constant_query() -> StoredQueryV1 {
    StoredQueryV1 {
        version: STORED_QUERY_VERSION,
        body: StoredQueryBody::Select(Box::new(StoredSelect {
            distinct: None,
            columns: vec![StoredSelectItem {
                expr: StoredQueryExpr::Literal {
                    value: Value::Integer(1),
                    data_type: DataType::Integer,
                    nullable: false,
                },
                alias: "value".to_string(),
            }],
            from: None,
            filter: None,
            group_by: Vec::new(),
            having: None,
            output_schema: vec![StoredQueryColumn {
                name: "value".to_string(),
                data_type: DataType::Integer,
                pg_type: PgType::Int8,
            }],
        })),
        order_by: Vec::new(),
        limit: None,
        offset: None,
        row_lock: None,
        correlations: Vec::new(),
    }
}

#[test]
fn stored_query_rejects_unknown_version_and_function_category() {
    let mut query = constant_query();
    query.version += 1;
    assert!(validate_stored_query_shape(&query).is_err());

    let mut query = constant_query();
    let StoredQueryBody::Select(select) = &mut query.body else {
        panic!("test query is SELECT")
    };
    select.columns[0].expr = StoredQueryExpr::Function {
        function: 999_999,
        args: Vec::new(),
        data_type: DataType::Integer,
        pg_type: Some(PgType::Int8),
        nullable: false,
    };
    assert!(validate_stored_query_shape(&query).is_err());
}

#[test]
fn stored_query_rejects_out_of_range_positional_column() {
    let mut query = constant_query();
    let StoredQueryBody::Select(select) = &mut query.body else {
        panic!("test query is SELECT")
    };
    select.from = Some(StoredFrom::Derived {
        query: Box::new(constant_query()),
        range: 0,
        alias: "d".to_string(),
        schema: vec![StoredRangeColumn {
            name: "value".to_string(),
            data_type: DataType::Integer,
            pg_type: PgType::Int8,
            nullable: false,
        }],
        lateral: false,
    });
    select.columns[0].expr = StoredQueryExpr::InputRef {
        range: 0,
        column: StoredColumnReference::Position(1),
        data_type: DataType::Integer,
        nullable: false,
    };
    assert!(validate_stored_query_shape(&query).is_err());
}

#[test]
fn stored_query_accepts_projection_wider_than_expression_list_limit() {
    let width = MAX_STORED_QUERY_LIST_ITEMS + 1;
    let columns = (0..width)
        .map(|index| StoredSelectItem {
            expr: integer(1),
            alias: format!("column{index}"),
        })
        .collect::<Vec<_>>();
    let output_schema = columns
        .iter()
        .map(|item| StoredQueryColumn {
            name: item.alias.clone(),
            data_type: DataType::Integer,
            pg_type: PgType::Int8,
        })
        .collect();
    let query = StoredQueryV1 {
        version: STORED_QUERY_VERSION,
        body: StoredQueryBody::Select(Box::new(StoredSelect {
            distinct: None,
            columns,
            from: None,
            filter: None,
            group_by: Vec::new(),
            having: None,
            output_schema,
        })),
        order_by: Vec::new(),
        limit: None,
        offset: None,
        row_lock: None,
        correlations: Vec::new(),
    };

    validate_stored_query_shape(&query).unwrap();
    assert_eq!(query.output_schema().len(), width);
}

#[test]
fn stored_query_rejects_forged_expression_and_output_references() {
    let mut query = constant_query();
    query.order_by.push(StoredOrderBy {
        expr: StoredQueryExpr::LocalRef {
            output: 1,
            data_type: DataType::Integer,
            nullable: false,
        },
        ascending: true,
        nulls_first: None,
    });
    assert!(validate_stored_query_shape(&query).is_err());

    let mut query = constant_query();
    let StoredQueryBody::Select(select) = &mut query.body else {
        panic!("test query is SELECT")
    };
    select.columns[0].expr = StoredQueryExpr::Literal {
        value: Value::Integer(1),
        data_type: DataType::Boolean,
        nullable: false,
    };
    select.output_schema[0].data_type = DataType::Boolean;
    select.output_schema[0].pg_type = PgType::Bool;
    assert!(validate_stored_query_shape(&query).is_err());
}

#[test]
fn stored_query_rejects_forward_lateral_correlation() {
    let mut inner = constant_query();
    inner.correlations.push(StoredCorrelatedColumn {
        outer: StoredQueryExpr::InputRef {
            range: 2,
            column: StoredColumnReference::Catalog(1),
            data_type: DataType::Integer,
            nullable: false,
        },
        data_type: DataType::Integer,
        nullable: false,
    });

    let mut query = constant_query();
    let StoredQueryBody::Select(select) = &mut query.body else {
        panic!("test query is SELECT")
    };
    select.from = Some(StoredFrom::Join {
        left: Box::new(StoredFrom::Derived {
            query: Box::new(inner),
            range: 1,
            alias: "left_input".to_string(),
            schema: vec![StoredRangeColumn {
                name: "value".to_string(),
                data_type: DataType::Integer,
                pg_type: PgType::Int8,
                nullable: false,
            }],
            lateral: true,
        }),
        right: Box::new(StoredFrom::Table {
            table: 1,
            range: 2,
            alias: Some("right_input".to_string()),
        }),
        join_type: StoredJoinType::Cross,
        condition: None,
    });
    assert!(validate_stored_query_shape(&query).is_err());
}

#[test]
fn stored_query_rejects_inconsistent_derived_and_join_metadata() {
    let derived = || StoredFrom::Derived {
        query: Box::new(constant_query()),
        range: 1,
        alias: "derived_input".to_string(),
        schema: vec![StoredRangeColumn {
            name: "value".to_string(),
            data_type: DataType::Integer,
            pg_type: PgType::Int8,
            nullable: false,
        }],
        lateral: false,
    };

    let mut query = constant_query();
    let StoredQueryBody::Select(select) = &mut query.body else {
        panic!("test query is SELECT")
    };
    let mut mismatched = derived();
    let StoredFrom::Derived { schema, .. } = &mut mismatched else {
        panic!("test input is derived")
    };
    schema[0].nullable = true;
    select.from = Some(mismatched);
    assert!(validate_stored_query_shape(&query).is_err());

    let mut query = constant_query();
    let StoredQueryBody::Select(select) = &mut query.body else {
        panic!("test query is SELECT")
    };
    let mut right = derived();
    let StoredFrom::Derived { range, .. } = &mut right else {
        panic!("test input is derived")
    };
    *range = 2;
    select.from = Some(StoredFrom::Join {
        left: Box::new(derived()),
        right: Box::new(right),
        join_type: StoredJoinType::Cross,
        condition: Some(StoredQueryExpr::Literal {
            value: Value::Boolean(true),
            data_type: DataType::Boolean,
            nullable: false,
        }),
    });
    assert!(validate_stored_query_shape(&query).is_err());

    let mut right = derived();
    let StoredFrom::Derived { range, .. } = &mut right else {
        panic!("test input is derived")
    };
    *range = 2;
    let left_ref = StoredQueryExpr::InputRef {
        range: 1,
        column: StoredColumnReference::Position(0),
        data_type: DataType::Integer,
        nullable: false,
    };
    let right_ref = StoredQueryExpr::InputRef {
        range: 2,
        column: StoredColumnReference::Position(0),
        data_type: DataType::Integer,
        nullable: false,
    };
    let mut query = constant_query();
    let StoredQueryBody::Select(select) = &mut query.body else {
        panic!("test query is SELECT")
    };
    select.from = Some(StoredFrom::Join {
        left: Box::new(derived()),
        right: Box::new(right),
        join_type: StoredJoinType::Left,
        condition: Some(StoredQueryExpr::Binary {
            op: StoredQueryBinOp::Eq,
            left: Box::new(left_ref),
            right: Box::new(right_ref),
            data_type: DataType::Boolean,
            nullable: false,
        }),
    });
    select.columns[0].expr = StoredQueryExpr::InputRef {
        range: 2,
        column: StoredColumnReference::Position(0),
        data_type: DataType::Integer,
        nullable: true,
    };
    assert!(validate_stored_query_shape(&query).is_ok());
}

#[test]
fn stored_query_in_subquery_validates_result_nullability() {
    let mut non_nullable_query = constant_query();
    let StoredQueryBody::Select(select) = &mut non_nullable_query.body else {
        panic!("test query is SELECT")
    };
    select.columns[0].expr = StoredQueryExpr::InSubquery {
        expr: Box::new(StoredQueryExpr::Literal {
            value: Value::Integer(1),
            data_type: DataType::Integer,
            nullable: false,
        }),
        query: Box::new(constant_query()),
        negated: false,
        data_type: DataType::Boolean,
        nullable: true,
    };
    select.output_schema[0].data_type = DataType::Boolean;
    select.output_schema[0].pg_type = PgType::Bool;
    assert!(validate_stored_query_shape(&non_nullable_query).is_ok());

    let mut nullable_query = constant_query();
    let StoredQueryBody::Select(select) = &mut nullable_query.body else {
        panic!("test query is SELECT")
    };
    select.columns[0].expr = StoredQueryExpr::Literal {
        value: Value::Null,
        data_type: DataType::Integer,
        nullable: true,
    };

    let mut query = constant_query();
    let StoredQueryBody::Select(select) = &mut query.body else {
        panic!("test query is SELECT")
    };
    select.columns[0].expr = StoredQueryExpr::InSubquery {
        expr: Box::new(StoredQueryExpr::Literal {
            value: Value::Integer(1),
            data_type: DataType::Integer,
            nullable: false,
        }),
        query: Box::new(nullable_query),
        negated: false,
        data_type: DataType::Boolean,
        nullable: false,
    };
    select.output_schema[0].data_type = DataType::Boolean;
    select.output_schema[0].pg_type = PgType::Bool;
    assert!(validate_stored_query_shape(&query).is_err());
}

#[test]
fn stored_query_rejects_expressions_outside_binder_contexts() {
    let mut query = constant_query();
    let StoredQueryBody::Select(select) = &mut query.body else {
        panic!("test query is SELECT")
    };
    select.columns[0].expr = StoredQueryExpr::LocalRef {
        output: 0,
        data_type: DataType::Integer,
        nullable: false,
    };
    assert!(validate_stored_query_shape(&query).is_err());

    let mut query = constant_query();
    let StoredQueryBody::Select(select) = &mut query.body else {
        panic!("test query is SELECT")
    };
    select.filter = Some(StoredQueryExpr::Aggregate {
        function: 2_517,
        arg: Some(Box::new(StoredQueryExpr::Literal {
            value: Value::Boolean(true),
            data_type: DataType::Boolean,
            nullable: false,
        })),
        distinct: false,
        data_type: DataType::Boolean,
        nullable: true,
    });
    assert!(validate_stored_query_shape(&query).is_err());
}

#[test]
fn stored_query_rejects_forged_grouping_and_distinct_semantics() {
    let input = StoredQueryExpr::InputRef {
        range: 0,
        column: StoredColumnReference::Catalog(1),
        data_type: DataType::Integer,
        nullable: false,
    };
    let mut ungrouped = constant_query();
    let StoredQueryBody::Select(select) = &mut ungrouped.body else {
        panic!("test query is SELECT")
    };
    select.from = Some(StoredFrom::Table {
        table: 1,
        range: 0,
        alias: None,
    });
    select.columns[0].expr = input;
    select.columns.push(StoredSelectItem {
        expr: StoredQueryExpr::Aggregate {
            function: 2_147,
            arg: None,
            distinct: false,
            data_type: DataType::Integer,
            nullable: false,
        },
        alias: "count".to_string(),
    });
    select.output_schema.push(StoredQueryColumn {
        name: "count".to_string(),
        data_type: DataType::Integer,
        pg_type: PgType::Int8,
    });
    assert!(validate_stored_query_shape(&ungrouped).is_err());

    let mut distinct = constant_query();
    let StoredQueryBody::Select(select) = &mut distinct.body else {
        panic!("test query is SELECT")
    };
    select.distinct = Some(StoredDistinct::All);
    distinct.order_by.push(StoredOrderBy {
        expr: integer(2),
        ascending: true,
        nulls_first: None,
    });
    assert!(validate_stored_query_shape(&distinct).is_err());

    let mut distinct_on = constant_query();
    let StoredQueryBody::Select(select) = &mut distinct_on.body else {
        panic!("test query is SELECT")
    };
    select.distinct = Some(StoredDistinct::On(vec![integer(1)]));
    distinct_on.order_by.push(StoredOrderBy {
        expr: integer(2),
        ascending: true,
        nulls_first: None,
    });
    assert!(validate_stored_query_shape(&distinct_on).is_err());
}

#[test]
fn select_semantics_treats_distinct_on_aggregate_as_aggregate_context() {
    let mut query = constant_query();
    let StoredQueryBody::Select(select) = &mut query.body else {
        panic!("test query is SELECT")
    };
    select.columns[0].expr = StoredQueryExpr::InputRef {
        range: 0,
        column: StoredColumnReference::Catalog(1),
        data_type: DataType::Integer,
        nullable: false,
    };
    select.distinct = Some(StoredDistinct::On(vec![StoredQueryExpr::Aggregate {
        function: 2_147,
        arg: None,
        distinct: false,
        data_type: DataType::Integer,
        nullable: false,
    }]));

    assert!(validate_select_semantics(select, &[]).is_err());
}

#[test]
fn stored_query_rejects_invalid_row_lock_shape() {
    let mut query = constant_query();
    query.row_lock = Some(StoredRowLock {
        table: 1,
        mode: StoredTupleLockMode::Update,
        wait_policy: StoredTupleLockWaitPolicy::Block,
    });
    assert!(validate_stored_query_shape(&query).is_err());
}

#[test]
fn stored_query_rejects_join_nesting_at_the_depth_limit() {
    let mut from = StoredFrom::Table {
        table: 1,
        range: 0,
        alias: None,
    };
    for range in 1..=MAX_STORED_QUERY_DEPTH {
        from = StoredFrom::Join {
            left: Box::new(from),
            right: Box::new(StoredFrom::Table {
                table: u32::try_from(range + 1).unwrap(),
                range: u32::try_from(range).unwrap(),
                alias: None,
            }),
            join_type: StoredJoinType::Cross,
            condition: None,
        };
    }
    let mut query = constant_query();
    let StoredQueryBody::Select(select) = &mut query.body else {
        panic!("test query is SELECT")
    };
    select.from = Some(from);
    let error = validate_stored_query_shape(&query).unwrap_err();
    assert_eq!(error.code, SqlState::ProgramLimitExceeded);
}

#[test]
fn stored_query_validates_exact_output_postgresql_types() {
    let mut computed = constant_query();
    let StoredQueryBody::Select(select) = &mut computed.body else {
        panic!("test query is SELECT")
    };
    select.columns[0].expr = StoredQueryExpr::Literal {
        value: Value::Text("value".to_string()),
        data_type: DataType::Text,
        nullable: false,
    };
    select.output_schema[0].data_type = DataType::Text;
    select.output_schema[0].pg_type = PgType::Varchar(Some(8));
    assert!(
        computed
            .validate_output_pg_types(&mut |_, _| Ok(PgType::Text))
            .is_err()
    );

    let mut catalog_column = constant_query();
    let StoredQueryBody::Select(select) = &mut catalog_column.body else {
        panic!("test query is SELECT")
    };
    select.from = Some(StoredFrom::Table {
        table: 7,
        range: 3,
        alias: None,
    });
    select.columns[0].expr = StoredQueryExpr::InputRef {
        range: 3,
        column: StoredColumnReference::Catalog(11),
        data_type: DataType::Integer,
        nullable: false,
    };
    select.output_schema[0].pg_type = PgType::Int4;
    assert!(
        catalog_column
            .validate_output_pg_types(&mut |table, column| {
                assert_eq!((table, column), (7, 11));
                Ok(PgType::Int2)
            })
            .is_err()
    );
}

#[test]
fn wire_types_are_checked_against_each_answer() {
    // The same column twice, resolved differently each time.
    let mut query = constant_query();
    let StoredQueryBody::Select(select) = &mut query.body else {
        panic!("test query is SELECT")
    };
    select.from = Some(StoredFrom::Table { table: 7, range: 3, alias: None });
    select.columns[0].expr = StoredQueryExpr::InputRef {
        range: 3,
        column: StoredColumnReference::Catalog(11),
        data_type: DataType::Integer,
        nullable: false,
    };
    let item = select.columns[0].clone();
    let output = select.output_schema[0].clone();
    select.columns.push(item);
    select.output_schema.push(output);
    select.output_schema[0].pg_type = PgType::Int4;
    select.output_schema[1].pg_type = PgType::Int2;
    let mut answers = vec![PgType::Int2, PgType::Int4];
    let mut asked = 0;
    query
        .validate_output_pg_types(&mut |_, _| {
            asked += 1;
            Ok(answers.pop().unwrap())
        })
        .unwrap();
    assert_eq!(asked, 2);
    assert!(query.validate_output_pg_types(&mut |_, _| Ok(PgType::Int4)).is_err());
}

#[test]
fn stored_query_live_limits_use_program_limit_sqlstate() {
    let mut query = constant_query();
    query.order_by = (0..=MAX_STORED_QUERY_LIST_ITEMS)
        .map(|_| StoredOrderBy {
            expr: StoredQueryExpr::Literal {
                value: Value::Integer(1),
                data_type: DataType::Integer,
                nullable: false,
            },
            ascending: true,
            nulls_first: None,
        })
        .collect();
    let error = validate_stored_query_shape(&query).unwrap_err();
    assert_eq!(error.code, SqlState::ProgramLimitExceeded);
}

#[test]
fn stored_query_case_nullability_uses_declared_rule() {
    let mut query = constant_query();
    {
        let StoredQueryBody::Select(select) = &mut query.body else {
            panic!("test query is SELECT")
        };
        select.columns[0].expr = StoredQueryExpr::Case {
            operand: None,
            when_clauses: vec![(
                StoredQueryExpr::Literal {
                    value: Value::Boolean(true),
                    data_type: DataType::Boolean,
                    nullable: false,
                },
                integer(1),
            )],
            else_clause: Some(Box::new(integer(1))),
            flow_sensitive_nullable: false,
            data_type: DataType::Integer,
            nullable: true,
        };
    }
    assert!(validate_stored_query_shape(&query).is_err());

    let nullable_arg = || StoredQueryExpr::Literal {
        value: Value::Null,
        data_type: DataType::Integer,
        nullable: true,
    };
    let StoredQueryBody::Select(select) = &mut query.body else {
        panic!("test query is SELECT")
    };
    select.columns[0].expr = StoredQueryExpr::Case {
        operand: None,
        when_clauses: vec![(
            StoredQueryExpr::IsNotNull {
                expr: Box::new(nullable_arg()),
                data_type: DataType::Boolean,
                nullable: false,
            },
            nullable_arg(),
        )],
        else_clause: Some(Box::new(StoredQueryExpr::Literal {
            value: Value::Integer(1),
            data_type: DataType::Integer,
            nullable: false,
        })),
        flow_sensitive_nullable: true,
        data_type: DataType::Integer,
        nullable: false,
    };
    assert!(validate_stored_query_shape(&query).is_ok());

    let StoredQueryBody::Select(select) = &mut query.body else {
        panic!("test query is SELECT")
    };
    select.columns[0].expr = StoredQueryExpr::Case {
        operand: None,
        when_clauses: Vec::new(),
        else_clause: Some(Box::new(StoredQueryExpr::Literal {
            value: Value::Integer(1),
            data_type: DataType::Integer,
            nullable: false,
        })),
        flow_sensitive_nullable: true,
        data_type: DataType::Integer,
        nullable: false,
    };
    assert!(validate_stored_query_shape(&query).is_ok());
}

fn catalog_column(range: u32, column: u32) -> StoredQueryExpr {
    StoredQueryExpr::InputRef {
        range,
        column: StoredColumnReference::Catalog(column),
        data_type: DataType::Integer,
        nullable: true,
    }
}

fn joined_query() -> StoredQueryV1 {
    let mut query = constant_query();
    query.order_by = vec![StoredOrderBy {
        expr: integer(3),
        ascending: false,
        nulls_first: Some(true),
    }];
    query.correlations = vec![StoredCorrelatedColumn {
        outer: integer(4),
        data_type: DataType::Integer,
        nullable: false,
    }];
    let StoredQueryBody::Select(select) = &mut query.body else {
        panic!("test query is SELECT")
    };
    select.distinct = Some(StoredDistinct::On(vec![integer(5), integer(6)]));
    select.filter = Some(StoredQueryExpr::Case {
        operand: Some(Box::new(integer(7))),
        when_clauses: vec![(integer(8), integer(9)), (integer(10), catalog_column(0, 12))],
        else_clause: Some(Box::new(StoredQueryExpr::ScalarSubquery {
            query: Box::new(constant_query()),
            data_type: DataType::Integer,
            nullable: true,
        })),
        flow_sensitive_nullable: false,
        data_type: DataType::Integer,
        nullable: true,
    });
    select.group_by = vec![integer(13)];
    select.from = Some(StoredFrom::Join {
        left: Box::new(StoredFrom::Table { table: 40, range: 0, alias: None }),
        right: Box::new(StoredFrom::System {
            relation_oid: 1259,
            range: 1,
            alias: Some("c".to_string()),
            schema: vec![StoredRangeColumn {
                name: "oid".to_string(),
                data_type: DataType::Integer,
                pg_type: PgType::Oid,
                nullable: false,
            }],
        }),
        join_type: StoredJoinType::Left,
        condition: Some(catalog_column(0, 11)),
    });
    query
}

#[test]
fn copies_of_queries_are_equal() {
    let query = StoredQueryV1 {
        version: STORED_QUERY_VERSION,
        body: StoredQueryBody::SetOp(StoredSetOp {
            op: StoredSetOperator::Union,
            all: true,
            left: Box::new(joined_query()),
            right: Box::new(StoredQueryV1 {
                version: STORED_QUERY_VERSION,
                body: StoredQueryBody::Values(StoredValues {
                    rows: vec![vec![integer(1), integer(2)], vec![integer(3), integer(4)]],
                    output_schema: Vec::new(),
                }),
                order_by: Vec::new(),
                limit: Some(1),
                offset: None,
                row_lock: None,
                correlations: Vec::new(),
            }),
            output_schema: Vec::new(),
        }),
        order_by: Vec::new(),
        limit: None,
        offset: Some(2),
        row_lock: None,
        correlations: Vec::new(),
    };
    let mut copy = query.clone();
    assert!(copy == query);

    let StoredQueryBody::SetOp(set_op) = &mut copy.body else {
        panic!("test query is UNION")
    };
    let StoredQueryBody::Values(values) = &mut set_op.right.body else {
        panic!("right arm is VALUES")
    };
    assert!(matches!(
        &values.rows[1][0],
        StoredQueryExpr::Literal { value: Value::Integer(3), .. }
    ));
    values.rows[1][0] = integer(5);
    assert!(copy != query);
}

#[test]
fn references_are_visited_in_order() {
    let query = joined_query();
    let mut columns = Vec::new();
    query
        .for_each_catalog_column_reference(
            &mut |table: u32, column: u32, data_type: &DataType, nullable: bool, extended: bool| {
                assert_eq!(*data_type, DataType::Integer);
                columns.push((table, column, nullable, extended));
            },
        )
        .unwrap();
    assert_eq!(columns, vec![(40, 11, true, false), (40, 12, true, false)]);

    let mut relations = Vec::new();
    query
        .for_each_system_relation_reference(
            &mut |relation_oid: i64, schema: &Vec<StoredRangeColumn>| {
                relations.push((relation_oid, schema.len()));
            },
        )
        .unwrap();
    assert_eq!(relations, vec![(1259, 1)]);
}

#[test]
fn recorded_objects_cover_the_references() {
    let mut query = constant_query();
    let StoredQueryBody::Select(select) = &mut query.body else {
        panic!("test query is SELECT")
    };
    select.from = Some(StoredFrom::Table { table: 40, range: 0, alias: None });
    select.columns[0].expr = catalog_column(0, 12);
    let objects = query.referenced_catalog_objects().unwrap();
    query
        .for_each_catalog_column_reference(
            &mut |table: u32, column: u32, _: &DataType, _: bool, _: bool| {
                assert_eq!((table, column), (40, 12));
                assert!(objects.contains(&CatalogObjectId::Table(table)));
                assert!(objects.contains(&CatalogObjectId::Column { relation: table, column }));
            },
        )
        .unwrap();
    assert_eq!(objects.as_slice().len(), 2);
}
