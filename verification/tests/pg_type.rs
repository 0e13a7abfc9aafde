use saguaro_common::{ArrayType, DataType, PgType};

/// The full wire mapping, checked against the canonical PostgreSQL
/// `pg_type` OIDs and `typlen`s.
#[test]
fn oid_and_typlen_match_postgres() {
    let cases: &[(PgType, i32, i16)] = &[
        (PgType::Int2, 21, 2),
        (PgType::Int2Vector, 22, -1),
        (PgType::Int4, 23, 4),
        (PgType::Int8, 20, 8),
        (PgType::Oid, 26, 4),
        (PgType::OidVector, 30, -1),
        (PgType::Bool, 16, 1),
        (PgType::Float4, 700, 4),
        (PgType::Float8, 701, 8),
        (PgType::Int2Array, 1005, -1),
        (PgType::OidArray, 1028, -1),
        (
            PgType::Numeric {
                precision: None,
                scale: 0,
            },
            1700,
            -1,
        ),
        (PgType::Text, 25, -1),
        (PgType::Varchar(None), 1043, -1),
        (PgType::Varchar(Some(10)), 1043, -1),
        (PgType::Bpchar(None), 1042, -1),
        (PgType::Bpchar(Some(5)), 1042, -1),
        (PgType::Bytea, 17, -1),
        (PgType::Uuid, 2950, 16),
        (PgType::Date, 1082, 4),
        (PgType::Time, 1083, 8),
        (PgType::Timestamp, 1114, 8),
        (PgType::Timestamptz, 1184, 8),
        (PgType::Interval, 1186, 16),
    ];
    for (pg_type, oid, typlen) in cases {
        assert_eq!(pg_type.oid(), *oid, "oid for {pg_type:?}");
        assert_eq!(pg_type.typlen(), *typlen, "typlen for {pg_type:?}");
    }
}

#[test]
fn oid_for_name_accepts_catalog_qualified_type_names() {
    assert_eq!(PgType::oid_for_name("int4"), Some(23));
    assert_eq!(PgType::oid_for_name("pg_catalog.int4"), Some(23));
    assert_eq!(PgType::oid_for_name("pg_catalog.oid"), Some(26));
    assert_eq!(PgType::oid_for_name("oidvector"), Some(30));
    assert_eq!(PgType::oid_for_name("_int2"), Some(1005));
    assert_eq!(PgType::oid_for_name("pg_catalog._oid"), Some(1028));
    assert_eq!(PgType::oid_for_name("PG_CATALOG.INTEGER"), Some(23));
    assert_eq!(PgType::oid_for_name("public.int4"), None);
}

#[test]
fn supported_array_types_round_trip_between_name_oid_and_type() {
    let cases = [
        ("_bool", 1000),
        ("_bytea", 1001),
        ("_int2", 1005),
        ("_int4", 1007),
        ("_text", 1009),
        ("_bpchar", 1014),
        ("_varchar", 1015),
        ("_int8", 1016),
        ("_float4", 1021),
        ("_float8", 1022),
        ("_oid", 1028),
        ("_timestamp", 1115),
        ("_date", 1182),
        ("_time", 1183),
        ("_timestamptz", 1185),
        ("_interval", 1187),
        ("_numeric", 1231),
        ("_uuid", 2951),
    ];
    for (name, oid) in cases {
        assert_eq!(PgType::oid_for_name(name), Some(oid), "name {name}");
        let pg_type = PgType::from_oid_typmod(oid, -1).unwrap();
        assert_eq!(pg_type.oid(), i32::try_from(oid).unwrap(), "OID {oid}");
    }
}

#[test]
fn array_constructor_rejects_non_scalar_wire_types() {
    assert!(PgType::array(PgType::OidVector).is_err());
    assert!(PgType::array(PgType::Int2Vector).is_err());
    assert!(PgType::array(PgType::Array(Box::new(PgType::Text))).is_err());
    assert_eq!(PgType::array(PgType::Int2).unwrap(), PgType::Int2Array);
    assert_eq!(PgType::array(PgType::Oid).unwrap(), PgType::OidArray);
    assert_eq!(PgType::array(PgType::Text).unwrap().oid(), 1009);
}

#[test]
fn pg_type_deserialization_rejects_invalid_array_elements() {
    assert_eq!(
        PgType::array(PgType::Text).unwrap(),
        PgType::Array(Box::new(PgType::Text))
    );

    for element in [
        PgType::Array(Box::new(PgType::Text)),
        PgType::OidVector,
        PgType::Int2Vector,
    ] {
        assert!(PgType::array(element).is_err());
    }
}

#[test]
fn typmod_encodes_length_and_precision() {
    // Unconstrained types report -1.
    assert_eq!(PgType::Text.typmod(), -1);
    assert_eq!(PgType::Varchar(None).typmod(), -1);
    assert_eq!(PgType::Bpchar(None).typmod(), -1);
    assert_eq!(
        PgType::Numeric {
            precision: None,
            scale: 0
        }
        .typmod(),
        -1
    );
    assert_eq!(PgType::Int4.typmod(), -1);

    // varchar(n)/char(n) report n + VARHDRSZ.
    assert_eq!(PgType::Varchar(Some(10)).typmod(), 14);
    assert_eq!(PgType::Bpchar(Some(5)).typmod(), 9);

    // An absurd declared length/precision (a directly-constructed value) must
    // not panic or overflow; it degrades to "unconstrained". Precision and
    // scale are treated identically: either out of its 16-bit field yields -1.
    assert_eq!(PgType::Varchar(Some(u32::MAX)).typmod(), -1);
    assert_eq!(
        PgType::Numeric {
            precision: Some(u32::MAX),
            scale: u32::MAX
        }
        .typmod(),
        -1
    );
    assert_eq!(
        PgType::Numeric {
            precision: Some(10),
            scale: 70_000
        }
        .typmod(),
        -1
    );

    // numeric(p, s) packs precision in the high 16 bits, scale in the low 16,
    // plus VARHDRSZ - the inverse of how a client decodes it.
    let typmod = PgType::Numeric {
        precision: Some(10),
        scale: 2,
    }
    .typmod();
    assert_eq!(typmod, ((10 << 16) | 2) + 4);
    assert_eq!((typmod - 4) >> 16, 10);
    assert_eq!((typmod - 4) & 0xFFFF, 2);

    for pg_type in [
        PgType::Array(Box::new(PgType::Varchar(Some(10)))),
        PgType::Array(Box::new(PgType::Bpchar(Some(5)))),
        PgType::Array(Box::new(PgType::Numeric {
            precision: Some(10),
            scale: 2,
        })),
    ] {
        let decoded =
            PgType::from_oid_typmod(i64::from(pg_type.oid()), i64::from(pg_type.typmod()))
                .unwrap();
        assert_eq!(decoded, pg_type);
    }
}

#[test]
fn decodes_oid_typmod_for_catalog_functions() {
    assert_eq!(PgType::from_oid_typmod(23, -1), Some(PgType::Int4));
    assert_eq!(PgType::from_oid_typmod(26, -1), Some(PgType::Oid));
    assert_eq!(
        PgType::from_oid_typmod(1043, 14),
        Some(PgType::Varchar(Some(10)))
    );
    assert_eq!(
        PgType::from_oid_typmod(1700, ((12 << 16) | 2) + 4),
        Some(PgType::Numeric {
            precision: Some(12),
            scale: 2
        })
    );
    assert_eq!(PgType::from_oid_typmod(999_999, -1), None);
}

#[test]
fn formats_type_names_for_catalog_functions() {
    assert_eq!(PgType::Int4.format_type_name(), "integer");
    assert_eq!(PgType::Oid.format_type_name(), "oid");
    assert_eq!(
        PgType::Varchar(Some(10)).format_type_name(),
        "character varying(10)"
    );
    assert_eq!(
        PgType::Numeric {
            precision: Some(12),
            scale: 2,
        }
        .format_type_name(),
        "numeric(12,2)"
    );
    assert_eq!(PgType::oid_for_name("double precision"), Some(701));
}

/// The label-free fallback gives the collapsed OIDs:
/// integers as int8, character types as text.
#[test]
fn from_data_type_uses_collapsed_defaults() {
    assert_eq!(PgType::from(&DataType::Integer), PgType::Int8);
    assert_eq!(PgType::from(&DataType::Text), PgType::Text);
    assert_eq!(PgType::from(&DataType::Double), PgType::Float8);
    assert_eq!(PgType::from(&DataType::Real), PgType::Float4);
    assert_eq!(
        PgType::from(&DataType::Numeric {
            precision: Some(10),
            scale: 2
        }),
        PgType::Numeric {
            precision: Some(10),
            scale: 2
        }
    );
    assert_eq!(PgType::from(&DataType::TimestampTz), PgType::Timestamptz);
}

#[test]
fn narrow_int_overflow_flags_out_of_range_values() {
    // int2 range is i16, int4 range is i32; int8 and non-integers never overflow.
    assert_eq!(PgType::Int2.narrow_int_overflow(32_767), None);
    assert_eq!(PgType::Int2.narrow_int_overflow(32_768), Some("smallint"));
    assert_eq!(PgType::Int2.narrow_int_overflow(-32_769), Some("smallint"));
    assert_eq!(PgType::Int4.narrow_int_overflow(2_147_483_647), None);
    assert_eq!(
        PgType::Int4.narrow_int_overflow(2_147_483_648),
        Some("integer")
    );
    assert_eq!(PgType::Int8.narrow_int_overflow(i64::MAX), None);
    assert_eq!(PgType::Oid.narrow_int_overflow(4_294_967_295), None);
    assert_eq!(PgType::Oid.narrow_int_overflow(-1), Some("oid"));
    assert_eq!(PgType::Oid.narrow_int_overflow(4_294_967_296), Some("oid"));
    assert_eq!(PgType::Text.narrow_int_overflow(i64::MAX), None);
}

#[test]
fn data_type_collapses_widths_and_char_kinds() {
    // The refined wire types collapse back to the storage type.
    for pg_type in [PgType::Int2, PgType::Int4, PgType::Int8, PgType::Oid] {
        assert_eq!(pg_type.data_type(), DataType::Integer);
    }
    for pg_type in [
        PgType::Text,
        PgType::Varchar(Some(10)),
        PgType::Bpchar(None),
        PgType::OidVector,
        PgType::Int2Vector,
        PgType::OidArray,
        PgType::Int2Array,
    ] {
        assert_eq!(pg_type.data_type(), DataType::Text);
    }
    assert_eq!(PgType::Float4.data_type(), DataType::Real);
    assert_eq!(PgType::Float8.data_type(), DataType::Double);

    // `data_type()` is a left inverse of the label-free `From` for every type.
    let all = [
        DataType::Integer,
        DataType::Text,
        DataType::Boolean,
        DataType::Date,
        DataType::Timestamp,
        DataType::Time,
        DataType::TimestampTz,
        DataType::Interval,
        DataType::Bytea,
        DataType::Uuid,
        DataType::Double,
        DataType::Real,
        DataType::Numeric {
            precision: Some(10),
            scale: 2,
        },
        DataType::Array(ArrayType::new(DataType::Text).unwrap()),
    ];
    for data_type in all {
        assert_eq!(PgType::from(&data_type).data_type(), data_type);
    }
}

#[test]
fn type_names_read_back() {
    let mut seen = 0;
    for oid in 0..3000 {
        let Some(wire_type) = PgType::from_oid_typmod(oid, -1) else {
            continue;
        };
        seen += 1;
        let name = wire_type.format_type_name();
        assert_eq!(PgType::oid_for_name(&name), Some(oid), "{name}");
        assert_eq!(PgType::oid_for_name(&name.to_ascii_uppercase()), Some(oid), "{name}");
        assert_eq!(PgType::oid_for_name(&format!("pg_catalog.{name}")), Some(oid), "{name}");
        assert_eq!(PgType::oid_for_name(&format!(" \t{name}\n")), Some(oid), "{name}");
        assert_eq!(PgType::oid_for_name(&format!("public.{name}")), None, "{name}");
    }
    assert_eq!(seen, 38);
}
