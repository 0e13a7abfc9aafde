use std::collections::HashSet;

use saguaro_common::functions::ask::ask_setting;
use saguaro_common::functions::evaluate::{
    finish_power, format_function_arguments, Evaluation, FloatCall, FloatOperand,
};
use saguaro_common::{
    format_type_oid, lookup_scalar_function, lookup_scalar_function_by_id, no_system_state,
    pg_proc_catalog_entries, pg_proc_catalog_entry, scalar_function_arg_hint,
    scalar_function_arg_pg_type, scalar_function_id, scalar_function_id_matches,
    scalar_function_result_pg_type, ArgType, CatalogIntrospectionProvider, DataType, OrderedF64,
    PgType, Result, ScalarFunction, SqlState, StatementContext, Value,
};

const PG_PROC_TEXT: i64 = 25;
const PG_PROC_OID: i64 = 26;
const PG_PROC_OIDVECTOR: i64 = 30;
const PG_PROC_INT8: i64 = 20;
const PG_PROC_FLOAT8: i64 = 701;
const PG_PROC_OIDVECTOR_ARGS_1: &[i64] = &[PG_PROC_OIDVECTOR];
const PG_PROC_FLOAT8_ARGS_1: &[i64] = &[PG_PROC_FLOAT8];
const PG_PROC_INT8_ARGS_1: &[i64] = &[PG_PROC_INT8];
const PG_PROC_INT8_ARGS_2: &[i64] = &[PG_PROC_INT8, PG_PROC_INT8];
const PG_PROC_INT8_FLOAT8_ARGS: &[i64] = &[PG_PROC_INT8, PG_PROC_FLOAT8];
const PG_PROC_FLOAT8_INT8_ARGS: &[i64] = &[PG_PROC_FLOAT8, PG_PROC_INT8];
const PG_PROC_PRIV_OID_ARGS_2: &[i64] = &[PG_PROC_OID, PG_PROC_TEXT];
const PG_PROC_PRIV_OID_ARGS_3: &[i64] = &[PG_PROC_OID, PG_PROC_OID, PG_PROC_TEXT];
const PG_PROC_COLUMN_PRIV_OID_ARGS_3: &[i64] = &[PG_PROC_OID, PG_PROC_TEXT, PG_PROC_TEXT];
const PG_PROC_COLUMN_PRIV_OID_ARGS: &[i64] =
    &[PG_PROC_OID, PG_PROC_OID, PG_PROC_TEXT, PG_PROC_TEXT];

/// The names of the built-in functions.
const NAMES: &[&str] = &[
    "upper",
    "lower",
    "trim",
    "length",
    "abs",
    "floor",
    "ceil",
    "ceiling",
    "round",
    "sqrt",
    "power",
    "pow",
    "mod",
    "replace",
    "position",
    "left",
    "right",
    "concat",
    "substring",
    "extract",
    "current_timestamp",
    "now",
    "version",
    "current_database",
    "current_catalog",
    "current_schema",
    "current_user",
    "session_user",
    "user",
    "pg_backend_pid",
    "current_setting",
    "format_type",
    "pg_get_indexdef",
    "pg_table_is_visible",
    "pg_get_expr",
    "pg_get_constraintdef",
    "pg_get_userbyid",
    "has_table_privilege",
    "has_schema_privilege",
    "has_database_privilege",
    "has_column_privilege",
    "has_sequence_privilege",
    "has_function_privilege",
    "has_any_column_privilege",
    "pg_has_role",
    "obj_description",
    "col_description",
    "pg_get_serial_sequence",
    "pg_relation_size",
    "pg_table_size",
    "pg_indexes_size",
    "pg_total_relation_size",
    "pg_my_temp_schema",
    "pg_is_other_temp_schema",
    "to_regclass",
    "to_regtype",
    "pg_get_viewdef",
    "pg_get_functiondef",
    "pg_get_function_arguments",
    "pg_get_function_result",
    "pg_get_triggerdef",
    "pg_get_ruledef",
    "pg_get_partkeydef",
    "pg_function_is_visible",
    "oidvectortypes",
];

fn scalar_functions() -> Vec<ScalarFunction> {
    NAMES
        .iter()
        .map(|name| lookup_scalar_function(name).expect("registered function"))
        .collect()
}

fn double(operand: FloatOperand) -> f64 {
    match operand {
        FloatOperand::Integer(n) => n as f64,
        FloatOperand::Double(number) => f64::from_bits(number.get()),
    }
}

fn float(value: f64) -> Value {
    Value::Float(OrderedF64::new(value.to_bits()))
}

/// Evaluates a call with the test's introspection, computing doubles where asked to.
fn evaluate(ctx: &StatementContext, name: &str, values: &[Value]) -> Result<Value> {
    let func = lookup_scalar_function(name).expect("registered function");
    match func.eval.evaluate(values, ctx, "1.2.3")? {
        Evaluation::Done(value) => Ok(value),
        Evaluation::Setting(name) => ask_setting(&name, &no_system_state()),
        Evaluation::Catalog(query) => query.ask(&TestIntrospection),
        Evaluation::Float(call) => match call {
            FloatCall::Floor(x) => Ok(float(f64::from_bits(x.get()).floor())),
            FloatCall::Ceil(x) => Ok(float(f64::from_bits(x.get()).ceil())),
            FloatCall::Round(x) => Ok(float(f64::from_bits(x.get()).round_ties_even())),
            FloatCall::Sqrt(x) => Ok(float(double(x).sqrt())),
            FloatCall::Power(x, y) => {
                finish_power(OrderedF64::new(double(x).powf(double(y)).to_bits()))
            }
            FloatCall::Component { whole, micros } => {
                Ok(float(whole as f64 + micros as f64 / 1_000_000.0))
            }
        },
    }
}

fn arg(data_type: DataType) -> ArgType<'static> {
    ArgType {
        data_type,
        literal: None,
    }
}

fn result_type(name: &str, args: &[ArgType]) -> Result<DataType> {
    let func = lookup_scalar_function(name).expect("registered function");
    func.check_signature(args)
}

fn call(name: &str, values: &[Value]) -> Result<Value> {
    evaluate(&StatementContext::new(0), name, values)
}

fn text_value(value: &str) -> Value {
    Value::Text(value.to_string())
}

#[test]
fn lookup_misses_unregistered_names() {
    assert!(lookup_scalar_function("nextval").is_none());
    assert!(lookup_scalar_function("coalesce").is_none());
    assert!(lookup_scalar_function("count").is_none());
    assert!(lookup_scalar_function("bogus").is_none());
}

#[test]
fn every_entry_has_a_lowercase_unique_name() {
    let mut seen = HashSet::new();
    for func in scalar_functions() {
        assert_eq!(
            func.name,
            func.name.to_ascii_lowercase(),
            "name {} is not lowercase",
            func.name
        );
        assert!(seen.insert(func.name), "duplicate name {}", func.name);
    }
}

#[test]
fn pg_proc_catalog_entries_stay_in_sync_with_scalar_registry() {
    let entries = pg_proc_catalog_entries();
    let proc_names = entries
        .iter()
        .map(|entry| entry.name)
        .collect::<HashSet<_>>();
    for func in scalar_functions() {
        assert!(
            proc_names.contains(func.name),
            "registered scalar function {} is missing from pg_proc metadata",
            func.name
        );
    }

    let mut oids = HashSet::new();
    for entry in pg_proc_catalog_entries() {
        assert!(
            oids.insert(entry.oid),
            "duplicate pg_proc oid {}",
            entry.oid
        );
        assert!(
            lookup_scalar_function(entry.name).is_some(),
            "pg_proc metadata advertises unregistered function {}",
            entry.name
        );
        assert!(
            PgType::from_oid_typmod(entry.ret_oid, -1).is_some(),
            "pg_proc metadata for {} has unknown return type oid {}",
            entry.name,
            entry.ret_oid
        );
        for arg_oid in entry.arg_oids {
            assert!(
                PgType::from_oid_typmod(*arg_oid, -1).is_some(),
                "pg_proc metadata for {} has unknown arg type oid {}",
                entry.name,
                arg_oid
            );
        }
        if entry.variadic_oid() != 0 {
            assert!(
                entry.arg_oids.contains(&entry.variadic_oid()),
                "variadic pg_proc metadata for {} must include its variadic element type",
                entry.name
            );
        }
    }

    let concat = entries
        .iter()
        .find(|entry| entry.name == "concat")
        .expect("concat metadata");
    assert_eq!(concat.variadic_oid(), PG_PROC_TEXT);
    assert_eq!(format_function_arguments(concat), "VARIADIC text");
    let oidvectortypes = entries
        .iter()
        .find(|entry| entry.name == "oidvectortypes")
        .expect("oidvectortypes metadata");
    assert_eq!(oidvectortypes.arg_oids, PG_PROC_OIDVECTOR_ARGS_1);
    assert_eq!(format_function_arguments(oidvectortypes), "oidvector");

    let has_signature = |name: &str, ret_oid: i64, arg_oids: &'static [i64]| {
        entries.iter().any(|entry| {
            entry.name == name && entry.ret_oid == ret_oid && entry.arg_oids == arg_oids
        })
    };
    for (name, ret_oid, arg_oids) in [
        ("abs", PG_PROC_FLOAT8, PG_PROC_FLOAT8_ARGS_1),
        ("floor", PG_PROC_INT8, PG_PROC_INT8_ARGS_1),
        ("ceil", PG_PROC_INT8, PG_PROC_INT8_ARGS_1),
        ("ceiling", PG_PROC_INT8, PG_PROC_INT8_ARGS_1),
        ("round", PG_PROC_INT8, PG_PROC_INT8_ARGS_1),
        ("sqrt", PG_PROC_FLOAT8, PG_PROC_INT8_ARGS_1),
        ("power", PG_PROC_FLOAT8, PG_PROC_INT8_ARGS_2),
        ("power", PG_PROC_FLOAT8, PG_PROC_INT8_FLOAT8_ARGS),
        ("power", PG_PROC_FLOAT8, PG_PROC_FLOAT8_INT8_ARGS),
        ("pow", PG_PROC_FLOAT8, PG_PROC_INT8_ARGS_2),
        ("pow", PG_PROC_FLOAT8, PG_PROC_INT8_FLOAT8_ARGS),
        ("pow", PG_PROC_FLOAT8, PG_PROC_FLOAT8_INT8_ARGS),
    ] {
        assert!(
            has_signature(name, ret_oid, arg_oids),
            "{name} metadata should advertise {}({})",
            format_type_oid(ret_oid),
            arg_oids
                .iter()
                .map(|oid| format_type_oid(*oid))
                .collect::<Vec<_>>()
                .join(", ")
        );
    }

    for name in [
        "has_table_privilege",
        "has_schema_privilege",
        "has_database_privilege",
        "has_sequence_privilege",
        "has_function_privilege",
        "has_any_column_privilege",
        "pg_has_role",
    ] {
        assert!(
            entries.iter().any(|entry| {
                entry.name == name && entry.arg_oids == PG_PROC_PRIV_OID_ARGS_2
            }),
            "{name} metadata should advertise the two-argument OID overload"
        );
        assert!(
            entries.iter().any(|entry| {
                entry.name == name && entry.arg_oids == PG_PROC_PRIV_OID_ARGS_3
            }),
            "{name} metadata should advertise the three-argument OID overload"
        );
    }
    assert!(entries.iter().any(|entry| {
        entry.name == "has_column_privilege" && entry.arg_oids == PG_PROC_COLUMN_PRIV_OID_ARGS_3
    }));
    assert!(entries.iter().any(|entry| {
        entry.name == "has_column_privilege" && entry.arg_oids == PG_PROC_COLUMN_PRIV_OID_ARGS
    }));
}

#[test]
fn result_nullable_follows_null_handling() {
    let upper = lookup_scalar_function("upper").unwrap();
    assert!(upper.result_nullable(&[true]));
    assert!(upper.result_nullable(&[false, true]));
    assert!(!upper.result_nullable(&[false]));
    assert!(!upper.result_nullable(&[]));

    // NeverNull functions are non-nullable regardless of their arguments.
    let concat = lookup_scalar_function("concat").unwrap();
    assert!(!concat.result_nullable(&[true, true]));
    let version = lookup_scalar_function("version").unwrap();
    assert!(!version.result_nullable(&[]));

    let to_regclass = lookup_scalar_function("to_regclass").unwrap();
    assert!(to_regclass.result_nullable(&[false]));
    let format_type = lookup_scalar_function("format_type").unwrap();
    assert!(format_type.result_nullable(&[false, true]));
}

#[test]
fn text_signatures_check_type_and_arity() {
    assert_eq!(
        result_type("upper", &[arg(DataType::Text)]).unwrap(),
        DataType::Text
    );
    let arity = result_type("upper", &[]).unwrap_err();
    assert_eq!(arity.code, SqlState::SyntaxError);
    let wrong_type = result_type("upper", &[arg(DataType::Integer)]).unwrap_err();
    assert_eq!(wrong_type.code, SqlState::DatatypeMismatch);
}

#[test]
fn numeric_same_signature_carries_argument_type() {
    assert_eq!(
        result_type("abs", &[arg(DataType::Integer)]).unwrap(),
        DataType::Integer
    );
    assert_eq!(
        result_type("abs", &[arg(DataType::Double)]).unwrap(),
        DataType::Double
    );
    assert_eq!(
        result_type("abs", &[arg(DataType::Text)]).unwrap_err().code,
        SqlState::DatatypeMismatch
    );
}

#[test]
fn extract_signature_validates_literal_field_and_source() {
    let field = Value::Text("year".to_string());
    let ok = result_type(
        "extract",
        &[
            ArgType {
                data_type: DataType::Text,
                literal: Some(&field),
            },
            arg(DataType::Timestamp),
        ],
    )
    .unwrap();
    assert_eq!(ok, DataType::Double);

    let bad_field = Value::Text("century".to_string());
    let err = result_type(
        "extract",
        &[
            ArgType {
                data_type: DataType::Text,
                literal: Some(&bad_field),
            },
            arg(DataType::Timestamp),
        ],
    )
    .unwrap_err();
    assert_eq!(err.code, SqlState::FeatureNotSupported);

    let bad_source =
        result_type("extract", &[arg(DataType::Text), arg(DataType::Integer)]).unwrap_err();
    assert_eq!(bad_source.code, SqlState::DatatypeMismatch);
}

#[test]
fn concat_is_variadic_and_requires_an_argument() {
    assert_eq!(
        result_type("concat", &[arg(DataType::Text), arg(DataType::Text)]).unwrap(),
        DataType::Text
    );
    assert_eq!(
        result_type("concat", &[]).unwrap_err().code,
        SqlState::SyntaxError
    );
}

#[test]
fn substring_accepts_two_or_three_arguments() {
    assert_eq!(
        result_type("substring", &[arg(DataType::Text), arg(DataType::Integer)]).unwrap(),
        DataType::Text
    );
    assert!(
        result_type(
            "substring",
            &[
                arg(DataType::Text),
                arg(DataType::Integer),
                arg(DataType::Integer)
            ]
        )
        .is_ok()
    );
    assert_eq!(
        result_type("substring", &[arg(DataType::Text)])
            .unwrap_err()
            .code,
        SqlState::SyntaxError
    );
}

#[test]
fn system_functions_take_no_arguments() {
    assert_eq!(result_type("version", &[]).unwrap(), DataType::Text);
    assert_eq!(
        result_type("pg_backend_pid", &[]).unwrap(),
        DataType::Integer
    );
    assert_eq!(
        result_type("version", &[arg(DataType::Text)])
            .unwrap_err()
            .code,
        SqlState::SyntaxError
    );
}

#[test]
fn introspection_function_signatures_and_hints() {
    assert_eq!(
        result_type(
            "format_type",
            &[arg(DataType::Integer), arg(DataType::Integer)]
        )
        .unwrap(),
        DataType::Text
    );
    assert_eq!(
        result_type(
            "pg_get_indexdef",
            &[
                arg(DataType::Integer),
                arg(DataType::Integer),
                arg(DataType::Boolean),
            ]
        )
        .unwrap(),
        DataType::Text
    );
    assert_eq!(
        result_type(
            "has_table_privilege",
            &[
                arg(DataType::Text),
                arg(DataType::Integer),
                arg(DataType::Text),
            ]
        )
        .unwrap(),
        DataType::Boolean
    );
    assert_eq!(
        result_type(
            "has_table_privilege",
            &[
                arg(DataType::Text),
                arg(DataType::Text),
                arg(DataType::Text),
                arg(DataType::Text),
            ]
        )
        .unwrap_err()
        .code,
        SqlState::SyntaxError
    );
    assert_eq!(
        result_type(
            "has_column_privilege",
            &[
                arg(DataType::Text),
                arg(DataType::Text),
                arg(DataType::Text),
                arg(DataType::Text),
            ]
        )
        .unwrap(),
        DataType::Boolean
    );
    assert_eq!(
        result_type(
            "has_column_privilege",
            &[arg(DataType::Text), arg(DataType::Text)]
        )
        .unwrap_err()
        .code,
        SqlState::SyntaxError
    );
    assert_eq!(
        result_type("pg_function_is_visible", &[arg(DataType::Integer)]).unwrap(),
        DataType::Boolean
    );
    assert_eq!(
        result_type("oidvectortypes", &[arg(DataType::Text)]).unwrap(),
        DataType::Text
    );
    assert_eq!(
        result_type("format_type", &[arg(DataType::Integer)])
            .unwrap_err()
            .code,
        SqlState::SyntaxError
    );
    assert_eq!(
        scalar_function_arg_hint("format_type", 2, 1),
        Some(DataType::Integer)
    );
    assert_eq!(
        scalar_function_arg_hint("pg_get_expr", 3, 2),
        Some(DataType::Boolean)
    );
    assert_eq!(
        scalar_function_arg_hint("current_setting", 1, 0),
        Some(DataType::Text)
    );
    assert_eq!(
        scalar_function_arg_hint("concat", 5, 4),
        Some(DataType::Text)
    );
    assert_eq!(scalar_function_arg_hint("pg_get_functiondef", 2, 1), None);
    assert_eq!(scalar_function_arg_hint("abs", 1, 0), None);
    assert_eq!(scalar_function_arg_hint("extract", 2, 1), None);
    assert_eq!(scalar_function_arg_hint("format_type", 1, 0), None);
}

#[derive(Debug)]
struct TestIntrospection;

impl CatalogIntrospectionProvider for TestIntrospection {
    fn pg_get_indexdef(
        &self,
        index_oid: i64,
        column: Option<i64>,
        pretty: bool,
    ) -> Result<Option<String>> {
        Ok(Some(format!(
            "index={index_oid} column={column:?} pretty={pretty}"
        )))
    }

    fn pg_get_constraintdef(
        &self,
        constraint_oid: i64,
        pretty: bool,
    ) -> Result<Option<String>> {
        Ok(Some(format!("constraint={constraint_oid} pretty={pretty}")))
    }

    fn pg_get_userbyid(&self, role_oid: i64) -> Result<Option<String>> {
        Ok(if role_oid == 10 {
            Some("alice".to_string())
        } else {
            None
        })
    }

    fn pg_table_is_visible(&self, relation_oid: i64) -> Result<bool> {
        Ok(relation_oid == 42)
    }

    fn to_regclass(&self, name: &str) -> Result<Option<i64>> {
        Ok((name == "users").then_some(42))
    }

    fn pg_get_serial_sequence(&self, table: &str, column: &str) -> Result<Option<String>> {
        Ok(if table == "users" && column == "id" {
            Some("users_id_seq".to_string())
        } else {
            None
        })
    }
}

#[test]
fn introspection_evaluators_use_context_provider() {
    let ctx = StatementContext::new(0);
    let func = |name: &str, values: &[Value]| {
        evaluate(&ctx, name, values).unwrap()
    };

    assert_eq!(
        func("format_type", &[Value::Integer(23), Value::Integer(-1)]),
        Value::Text("integer".to_string())
    );
    assert_eq!(
        func("format_type", &[Value::Integer(23), Value::Null]),
        Value::Text("integer".to_string())
    );
    assert_eq!(
        func("format_type", &[Value::Null, Value::Integer(-1)]),
        Value::Null
    );
    assert_eq!(
        func(
            "pg_get_indexdef",
            &[Value::Integer(7), Value::Integer(1), Value::Boolean(true)]
        ),
        Value::Text("index=7 column=Some(1) pretty=true".to_string())
    );
    assert_eq!(
        func("pg_table_is_visible", &[Value::Integer(42)]),
        Value::Boolean(true)
    );
    assert_eq!(
        func("pg_get_constraintdef", &[Value::Integer(9)]),
        Value::Text("constraint=9 pretty=false".to_string())
    );
    assert_eq!(
        func("pg_get_userbyid", &[Value::Integer(10)]),
        Value::Text("alice".to_string())
    );
    assert_eq!(
        func(
            "pg_get_serial_sequence",
            &[text_value("users"), text_value("id")]
        ),
        Value::Text("users_id_seq".to_string())
    );
    assert_eq!(
        func("to_regclass", &[text_value("users")]),
        Value::Integer(42)
    );
    assert_eq!(
        func("to_regtype", &[text_value("integer")]),
        Value::Integer(23)
    );
    assert_eq!(
        func("to_regtype", &[text_value("_oid")]),
        Value::Integer(1028)
    );
    assert_eq!(
        func("pg_get_function_arguments", &[Value::Integer(14_022)]),
        Value::Text("oid, integer".to_string())
    );
    assert_eq!(
        func("pg_get_function_result", &[Value::Integer(14_022)]),
        Value::Text("text".to_string())
    );
    assert_eq!(
        func("pg_get_functiondef", &[Value::Integer(14_022)]),
        Value::Text(
            "CREATE FUNCTION pg_catalog.format_type(oid, integer) RETURNS text LANGUAGE sql"
                .to_string()
        )
    );
    assert_eq!(
        func("pg_function_is_visible", &[Value::Integer(14_022)]),
        Value::Boolean(true)
    );
    assert_eq!(
        func("pg_function_is_visible", &[Value::Integer(999_999)]),
        Value::Boolean(false)
    );
    assert_eq!(
        func("oidvectortypes", &[text_value("20 25")]),
        Value::Text("bigint, text".to_string())
    );
    assert_eq!(func("obj_description", &[Value::Integer(1)]), Value::Null);
    assert_eq!(
        func(
            "has_table_privilege",
            &[Value::Integer(42), text_value("select")]
        ),
        Value::Boolean(true)
    );
}

#[test]
fn statement_timestamp_functions_use_context_clock() {
    let ctx = StatementContext::new(0).with_statement_timestamp_micros(1_234_567);
    for name in ["current_timestamp", "now"] {
        assert_eq!(result_type(name, &[]).unwrap(), DataType::TimestampTz);
        assert_eq!(
            result_type(name, &[arg(DataType::Text)]).unwrap_err().code,
            SqlState::SyntaxError
        );

        let func = lookup_scalar_function(name).expect("registered function");
        assert!(!func.result_nullable(&[]));
        assert_eq!(
            evaluate(&ctx, name, &[]).unwrap(),
            Value::TimestampTz(1_234_567)
        );
    }
}

#[test]
fn evaluators_compute_expected_values() {
    assert_eq!(
        call("upper", &[Value::Text("abc".to_string())]).unwrap(),
        Value::Text("ABC".to_string())
    );
    assert_eq!(
        call("length", &[Value::Text("h\u{e9}llo".to_string())]).unwrap(),
        Value::Integer(5)
    );
    assert_eq!(
        call("abs", &[Value::Integer(-7)]).unwrap(),
        Value::Integer(7)
    );
    assert_eq!(
        call(
            "concat",
            &[
                Value::Text("a".to_string()),
                Value::Null,
                Value::Text("b".to_string())
            ]
        )
        .unwrap(),
        Value::Text("ab".to_string())
    );
}

#[test]
fn evaluators_surface_domain_errors() {
    assert_eq!(
        call("abs", &[Value::Integer(i64::MIN)]).unwrap_err().code,
        SqlState::NumericValueOutOfRange
    );
    assert_eq!(
        call("mod", &[Value::Integer(1), Value::Integer(0)])
            .unwrap_err()
            .code,
        SqlState::DivisionByZero
    );
    assert_eq!(
        call("sqrt", &[Value::Integer(-1)]).unwrap_err().code,
        SqlState::NumericValueOutOfRange
    );
}

#[test]
fn durable_function_ids_validate_exact_and_variadic_signatures() {
    let concat_args = [DataType::Text, DataType::Text, DataType::Text];
    let concat = scalar_function_id("concat", &concat_args, &DataType::Text).unwrap();
    assert!(scalar_function_id_matches(
        concat,
        &concat_args,
        &DataType::Text,
        Some(&PgType::Text)
    ));

    let indexdef =
        scalar_function_id("pg_get_indexdef", &[DataType::Integer], &DataType::Text).unwrap();
    assert!(!scalar_function_id_matches(
        indexdef,
        &[DataType::Integer, DataType::Integer, DataType::Boolean],
        &DataType::Text,
        Some(&PgType::Text)
    ));
}

#[test]
fn text_functions_work_on_characters() {
    let text = text_value;
    let ok = |name: &str, values: &[Value]| call(name, values).unwrap();
    assert_eq!(ok("lower", &[text("ABC")]), text("abc"));
    assert_eq!(ok("trim", &[text("  a b ")]), text("a b"));
    assert_eq!(
        ok("replace", &[text("banana"), text("an"), text("x")]),
        text("bxxa")
    );
    assert_eq!(ok("left", &[text("abc"), Value::Integer(2)]), text("ab"));
    assert_eq!(ok("left", &[text("abc"), Value::Integer(-1)]), text("ab"));
    assert_eq!(ok("right", &[text("abc"), Value::Integer(2)]), text("bc"));
    assert_eq!(
        ok(
            "substring",
            &[text("abcdef"), Value::Integer(2), Value::Integer(3)]
        ),
        text("bcd")
    );
    assert_eq!(
        ok("position", &[text("na"), text("banana")]),
        Value::Integer(3)
    );
    assert_eq!(
        ok("position", &[text("q"), text("banana")]),
        Value::Integer(0)
    );
}

#[test]
fn numeric_functions_compute_in_their_type() {
    let ok = |name: &str, values: &[Value]| call(name, values).unwrap();
    assert_eq!(ok("mod", &[Value::Integer(-7), Value::Integer(3)]), Value::Integer(-1));
    assert_eq!(ok("floor", &[float(1.5)]), float(1.0));
    assert_eq!(ok("ceil", &[float(1.5)]), float(2.0));
    assert_eq!(ok("round", &[float(2.5)]), float(2.0));
    assert_eq!(ok("round", &[Value::Integer(3)]), Value::Integer(3));
    assert_eq!(ok("sqrt", &[Value::Integer(9)]), float(3.0));
    assert_eq!(ok("power", &[Value::Integer(2), float(0.5)]), float(2f64.powf(0.5)));
    assert!(call("power", &[float(0.0), float(-1.0)]).is_err());
}

#[test]
fn extract_takes_timestamps_apart() {
    let micros = 1_705_321_845_500_000; // 2024-01-15 12:30:45.5
    let ok = |field: &str| {
        call("extract", &[text_value(field), Value::Timestamp(micros)]).unwrap()
    };
    assert_eq!(ok("year"), float(2024.0));
    assert_eq!(ok("month"), float(1.0));
    assert_eq!(ok("day"), float(15.0));
    assert_eq!(ok("second"), float(45.5));
}

#[test]
fn system_functions_read_the_context() {
    assert_eq!(
        call("version", &[]).unwrap(),
        text_value("PostgreSQL 16.0 (SaguaroDB 1.2.3)")
    );
    assert_eq!(call("current_database", &[]).unwrap(), text_value("saguarodb"));
    assert_eq!(call("pg_backend_pid", &[]).unwrap(), Value::Integer(0));
    assert_eq!(
        call("current_setting", &[text_value("missing")]).unwrap_err().code,
        SqlState::UndefinedObject
    );
}

#[test]
fn functions_are_found_by_their_durable_ids() {
    let id = scalar_function_id("upper", &[DataType::Text], &DataType::Text).unwrap();
    let (func, entry) = lookup_scalar_function_by_id(id).unwrap();
    assert_eq!(func.name, "upper");
    assert_eq!(entry.oid, i64::from(id));
    assert_eq!(pg_proc_catalog_entry(i64::from(id)).unwrap().name, "upper");
    assert!(lookup_scalar_function_by_id(1).is_none());
    assert_eq!(format_type_oid(23), "integer");
}

#[test]
fn overloads_that_agree_give_a_wire_type() {
    assert_eq!(
        scalar_function_result_pg_type("upper", 1, &DataType::Text),
        Some(PgType::Text)
    );
    assert_eq!(scalar_function_arg_pg_type("format_type", 2, 1), Some(PgType::Int4));
    assert_eq!(scalar_function_arg_pg_type("abs", 1, 0), None);
    assert_eq!(scalar_function_arg_pg_type("bogus", 1, 0), None);
}

#[test]
fn checked_calls_come_to_the_checked_type() {
    let concat = lookup_scalar_function("concat").unwrap();
    let args = [arg(DataType::Text), arg(DataType::Text)];
    assert_eq!(concat.check_signature(&args).unwrap(), DataType::Text);
    assert!(args.len() >= concat.eval.arguments_needed());
    // Never NULL, even where every argument is.
    assert!(!concat.result_nullable(&[true, true]));
    assert_eq!(
        call("concat", &[Value::Null, Value::Null]).unwrap(),
        text_value("")
    );

    let position = lookup_scalar_function("position").unwrap();
    assert_eq!(position.check_signature(&args).unwrap(), DataType::Integer);
    assert!(args.len() >= position.eval.arguments_needed());
    assert_eq!(
        call("position", &[text_value("b"), text_value("abc")]).unwrap(),
        Value::Integer(2)
    );
    // A negative length is the one complaint about types that a checked call can raise.
    let error = call(
        "substring",
        &[text_value("abc"), Value::Integer(1), Value::Integer(-1)],
    )
    .unwrap_err();
    assert_eq!(error.code, SqlState::DatatypeMismatch);
}
