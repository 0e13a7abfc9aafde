use saguaro_common::{
    needs_toast_relation, toast_relation_name, toast_schema, ArrayType, ColumnDef, ColumnInfo,
    CompressionSetting, DataType, NamespaceSchema, PgType, QualifiedName, RelationKind,
    SequenceOptions, StoredQueryBody, StoredQueryV1, StoredValues, TableOptionPatch, TableSchema,
    ToastCompression, ToastMode, ToastOptionPatch, ToastOptions, ViewSchema,
    INITIAL_SCHEMA_VERSION, PUBLIC_SCHEMA_ID, STORED_QUERY_VERSION, VIEW_SCHEMA_FORMAT_VERSION,
};

#[test]
fn column_info_can_describe_expression_output() {
    let column = ColumnInfo {
        name: "count".to_string(),
        data_type: DataType::Integer,
        table_id: None,
        column_id: None,
        pg_type: None,
    };

    assert_eq!(column.name, "count");
    assert_eq!(column.table_id, None);
    // A synthetic column with no declared label resolves to the collapsed default.
    assert_eq!(column.wire_type(), PgType::Int8);
}

#[test]
fn column_def_wire_type_resolves_unlabeled_columns() {
    let unlabeled = ColumnDef {
        id: 0,
        object_id: 1,
        name: "n".to_string(),
        data_type: DataType::Integer,
        nullable: true,
        max_length: None,
        default: None,
        pg_type: None,
    };
    // No declared label => the collapsed default from the DataType.
    assert_eq!(unlabeled.wire_type(), PgType::Int8);

    // A declared label is reported verbatim.
    let labeled = ColumnDef {
        pg_type: Some(PgType::Int4),
        ..unlabeled
    };
    assert_eq!(labeled.wire_type(), PgType::Int4);
}

#[test]
fn view_schema_requires_a_supported_payload_version() {
    let schema = ViewSchema {
        format_version: VIEW_SCHEMA_FORMAT_VERSION,
        id: 1,
        schema_id: PUBLIC_SCHEMA_ID,
        name: "versioned_view".to_string(),
        columns: Vec::new(),
        definition: "values ()".to_string(),
        query: StoredQueryV1 {
            version: STORED_QUERY_VERSION,
            body: StoredQueryBody::Values(StoredValues {
                rows: Vec::new(),
                output_schema: Vec::new(),
            }),
            order_by: Vec::new(),
            limit: None,
            offset: None,
            row_lock: None,
            correlations: Vec::new(),
        },
        schema_version: INITIAL_SCHEMA_VERSION,
        definition_search_path: vec![PUBLIC_SCHEMA_ID],
        next_column_object_id: 1,
    };
    let mut unknown = schema;
    unknown.format_version = 2;
    let error = ViewSchema::from_stored(unknown).unwrap_err();
    assert!(error.contains("unsupported view catalog encoding version 2"));
}

#[test]
fn compression_setting_defaults_to_none() {
    assert_eq!(CompressionSetting::default(), CompressionSetting::Uncompressed);
}

#[test]
fn data_type_deserialization_rejects_nested_arrays() {
    let scalar = DataType::Array(ArrayType::new(DataType::Integer).unwrap());
    assert_eq!(
        scalar,
        DataType::Array(ArrayType::new(DataType::Integer).unwrap())
    );

    let error = ArrayType::new(scalar).unwrap_err();
    assert!(error.message.contains("cannot themselves be arrays"));
}

#[test]
fn toast_options_distinguish_new_tables_from_disabled_relations() {
    assert_eq!(
        ToastOptions::default_new_table(),
        ToastOptions {
            mode: ToastMode::Auto,
            tuple_target: 2048,
            min_value_size: 1024,
            compression: ToastCompression::ZstdDict,
            active_dict_id: None,
        }
    );
    assert_eq!(
        ToastOptions::disabled(),
        ToastOptions {
            mode: ToastMode::Off,
            tuple_target: 2048,
            min_value_size: 1024,
            compression: ToastCompression::Uncompressed,
            active_dict_id: None,
        }
    );
    assert_eq!(RelationKind::default(), RelationKind::User);
}

fn column(id: u16, name: &str, data_type: DataType) -> ColumnDef {
    ColumnDef {
        id,
        object_id: u32::from(id) + 11,
        name: name.to_string(),
        data_type,
        nullable: true,
        max_length: None,
        default: None,
        pg_type: None,
    }
}

fn table(columns: Vec<ColumnDef>) -> TableSchema {
    TableSchema {
        id: 7,
        schema_id: PUBLIC_SCHEMA_ID,
        storage_id: 9,
        name: "users".to_string(),
        columns,
        primary_key: vec![0],
        schema_version: INITIAL_SCHEMA_VERSION,
        compression: CompressionSetting::Zstd,
        active_dict_id: Some(3),
        toast: ToastOptions::default_new_table(),
        toast_table_id: None,
        relation_kind: RelationKind::User,
        next_column_object_id: 13,
    }
}

#[test]
fn columns_are_found_by_either_identity() {
    let table = table(vec![
        column(0, "id", DataType::Integer),
        column(1, "name", DataType::Text),
    ]);
    assert_eq!(table.column_by_object_id(12).unwrap().name, "name");
    assert!(table.column_by_object_id(13).is_none());
    for id in [0, 1] {
        let object_id = table.stable_column_id(id).unwrap();
        assert_eq!(table.dense_column_id(object_id), Some(id));
    }
    assert_eq!(table.stable_column_id(2), None);
}

#[test]
fn tables_with_long_values_need_a_companion() {
    let plain = table(vec![column(0, "id", DataType::Integer)]);
    let long = table(vec![column(0, "name", DataType::Text)]);
    assert!(!needs_toast_relation(&plain));
    assert!(needs_toast_relation(&long));
    assert_eq!(toast_relation_name(7), "\0toast_7");

    let companion = toast_schema(&long, 8);
    assert!(!needs_toast_relation(&companion));
    assert_eq!(companion.name, "\0toast_7");
    assert_eq!((companion.id, companion.storage_id), (8, 8));
    assert_eq!(companion.relation_kind, RelationKind::Toast { base_table: 7 });
    assert_eq!(companion.columns.len(), 3);
    assert_eq!(companion.columns[1].name, "seq");
    assert_eq!(companion.columns[1].wire_type(), PgType::Int4);
    assert_eq!(companion.primary_key, vec![0, 1]);
    assert_eq!(companion.next_column_object_id, 4);
    assert_eq!(companion.toast, ToastOptions::disabled());
}

#[test]
fn patches_replace_what_they_set() {
    let options = ToastOptions {
        active_dict_id: Some(5),
        ..ToastOptions::default_new_table()
    };
    assert_eq!(options.apply_patch(&ToastOptionPatch::default()), options);

    let aggressive = ToastOptionPatch {
        mode: Some(ToastMode::Aggressive),
        ..ToastOptionPatch::default()
    };
    assert!(!aggressive.is_empty());
    let patched = options.apply_patch(&aggressive);
    assert_eq!((patched.mode, patched.min_value_size), (ToastMode::Aggressive, 256));
    assert_eq!(patched.active_dict_id, Some(5));
    assert_eq!(patched.apply_patch(&aggressive), patched);

    let sized = ToastOptionPatch {
        min_value_size: Some(600),
        compression: Some(ToastCompression::Zstd),
        ..aggressive
    };
    let patched = options.apply_patch(&sized);
    assert_eq!(patched.min_value_size, 600);
    assert_eq!(patched.active_dict_id, None);

    assert!(TableOptionPatch::default().is_empty());
}

#[test]
fn qualified_names_are_written_with_their_schema() {
    let name = QualifiedName::unqualified("users");
    assert_eq!(name.display(), "users");
    assert!(name.is_unqualified("users"));
    let qualified = QualifiedName {
        schema: Some("app".to_string()),
        name: "users".to_string(),
    };
    assert_eq!(qualified.display(), "app.users");
    assert!(!qualified.is_unqualified("users"));
    assert_ne!(name, qualified);
    assert_eq!(qualified.clone(), qualified);
}

#[test]
fn schemas_are_compared_field_by_field() {
    let a = table(vec![column(0, "id", DataType::Integer)]);
    let mut b = table(vec![column(0, "id", DataType::Integer)]);
    assert!(a == b);
    b.columns[0].name = "key".to_string();
    assert!(a != b);
    let schema = NamespaceSchema { id: 3, name: "app".to_string() };
    assert_eq!(schema, schema.clone());
    assert_eq!(SequenceOptions::default().increment, 1);
}
