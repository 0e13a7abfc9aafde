//! The catalog of built-in functions as PostgreSQL's `pg_proc` lists them.

use vstd::prelude::*;

use crate::pg_type::{self, PgType};
use crate::schema::DataType;
use crate::text;

verus! {

/// The type OID of text.
pub const PG_PROC_TEXT: i64 = 25;

/// One overload of a built-in function: its OID, name, result type and argument
/// types.
#[derive(Clone, Copy, Debug, PartialEq, Eq)]
pub struct PgProcCatalogEntry {
    pub oid: i64,
    pub name: &'static str,
    pub ret_oid: i64,
    pub arg_oids: &'static [i64],
}

/// What a catalog entry says.
pub struct PgProcView {
    pub oid: i64,
    pub name: Seq<char>,
    pub ret_oid: i64,
    pub arg_oids: Seq<i64>,
}

impl View for PgProcCatalogEntry {
    type V = PgProcView;

    open spec fn view(&self) -> PgProcView {
        PgProcView {
            oid: self.oid,
            name: self.name@,
            ret_oid: self.ret_oid,
            arg_oids: self.arg_oids@,
        }
    }
}

impl PgProcView {
    /// The type OID of the arguments that may repeat, or zero.
    pub open spec fn variadic_oid(self) -> i64 {
        if self.name == "concat"@ {
            PG_PROC_TEXT
        } else {
            0
        }
    }
}

impl PgProcCatalogEntry {
    pub fn variadic_oid(self) -> (oid: i64)
        ensures
            oid == self@.variadic_oid(),
    {
        if text::same_text(self.name, "concat") {
            PG_PROC_TEXT
        } else {
            0
        }
    }
}

/// The number of catalog entries.
pub const CATALOG_LEN: usize = 110;

/// A catalog entry.
pub open spec fn entry(oid: i64, name: Seq<char>, ret_oid: i64, arg_oids: Seq<i64>) -> PgProcView {
    PgProcView { oid, name, ret_oid, arg_oids }
}

/// The catalog entry at an index.
#[verifier::opaque]
pub open spec fn catalog_entry(index: int) -> PgProcView {
    if index == 0 {
        entry(14000, "upper"@, 25, seq![25i64])
    } else if index == 1 {
        entry(14001, "lower"@, 25, seq![25i64])
    } else if index == 2 {
        entry(14002, "trim"@, 25, seq![25i64])
    } else if index == 3 {
        entry(14003, "length"@, 20, seq![25i64])
    } else if index == 4 {
        entry(14071, "abs"@, 20, seq![20i64])
    } else if index == 5 {
        entry(14072, "floor"@, 701, seq![701i64])
    } else if index == 6 {
        entry(14073, "ceil"@, 701, seq![701i64])
    } else if index == 7 {
        entry(14074, "ceiling"@, 701, seq![701i64])
    } else if index == 8 {
        entry(14075, "round"@, 701, seq![701i64])
    } else if index == 9 {
        entry(14076, "sqrt"@, 701, seq![701i64])
    } else if index == 10 {
        entry(14077, "power"@, 701, seq![701i64, 701i64])
    } else if index == 11 {
        entry(14078, "pow"@, 701, seq![701i64, 701i64])
    } else if index == 12 {
        entry(14079, "mod"@, 20, seq![20i64, 20i64])
    } else if index == 13 {
        entry(14080, "extract"@, 701, seq![25i64, 1082i64])
    } else if index == 14 {
        entry(14081, "extract"@, 701, seq![25i64, 1114i64])
    } else if index == 15 {
        entry(14004, "concat"@, 25, seq![25i64])
    } else if index == 16 {
        entry(14005, "substring"@, 25, seq![25i64, 20i64])
    } else if index == 17 {
        entry(14006, "substring"@, 25, seq![25i64, 20i64, 20i64])
    } else if index == 18 {
        entry(14007, "replace"@, 25, seq![25i64, 25i64, 25i64])
    } else if index == 19 {
        entry(14008, "position"@, 20, seq![25i64, 25i64])
    } else if index == 20 {
        entry(14009, "left"@, 25, seq![25i64, 20i64])
    } else if index == 21 {
        entry(14010, "right"@, 25, seq![25i64, 20i64])
    } else if index == 22 {
        entry(14011, "now"@, 1184, Seq::<i64>::empty())
    } else if index == 23 {
        entry(14012, "current_timestamp"@, 1184, Seq::<i64>::empty())
    } else if index == 24 {
        entry(14013, "version"@, 25, Seq::<i64>::empty())
    } else if index == 25 {
        entry(14014, "current_database"@, 25, Seq::<i64>::empty())
    } else if index == 26 {
        entry(14015, "current_catalog"@, 25, Seq::<i64>::empty())
    } else if index == 27 {
        entry(14016, "current_schema"@, 25, Seq::<i64>::empty())
    } else if index == 28 {
        entry(14017, "current_user"@, 25, Seq::<i64>::empty())
    } else if index == 29 {
        entry(14018, "session_user"@, 25, Seq::<i64>::empty())
    } else if index == 30 {
        entry(14019, "user"@, 25, Seq::<i64>::empty())
    } else if index == 31 {
        entry(14020, "pg_backend_pid"@, 20, Seq::<i64>::empty())
    } else if index == 32 {
        entry(14021, "current_setting"@, 25, seq![25i64])
    } else if index == 33 {
        entry(14022, "format_type"@, 25, seq![26i64, 23i64])
    } else if index == 34 {
        entry(14023, "pg_get_indexdef"@, 25, seq![26i64])
    } else if index == 35 {
        entry(14024, "pg_get_indexdef"@, 25, seq![26i64, 23i64, 16i64])
    } else if index == 36 {
        entry(14025, "pg_table_is_visible"@, 16, seq![26i64])
    } else if index == 37 {
        entry(14026, "pg_get_expr"@, 25, seq![25i64, 26i64])
    } else if index == 38 {
        entry(14027, "pg_get_expr"@, 25, seq![25i64, 26i64, 16i64])
    } else if index == 39 {
        entry(14028, "pg_get_constraintdef"@, 25, seq![26i64])
    } else if index == 40 {
        entry(14029, "pg_get_constraintdef"@, 25, seq![26i64, 16i64])
    } else if index == 41 {
        entry(14030, "pg_get_userbyid"@, 25, seq![26i64])
    } else if index == 42 {
        entry(14031, "pg_get_serial_sequence"@, 25, seq![25i64, 25i64])
    } else if index == 43 {
        entry(14032, "to_regclass"@, 26, seq![25i64])
    } else if index == 44 {
        entry(14033, "to_regtype"@, 26, seq![25i64])
    } else if index == 45 {
        entry(14034, "has_table_privilege"@, 16, seq![25i64, 25i64])
    } else if index == 46 {
        entry(14035, "has_table_privilege"@, 16, seq![25i64, 25i64, 25i64])
    } else if index == 47 {
        entry(14036, "has_schema_privilege"@, 16, seq![25i64, 25i64])
    } else if index == 48 {
        entry(14037, "has_schema_privilege"@, 16, seq![25i64, 25i64, 25i64])
    } else if index == 49 {
        entry(14038, "has_database_privilege"@, 16, seq![25i64, 25i64])
    } else if index == 50 {
        entry(14039, "has_database_privilege"@, 16, seq![25i64, 25i64, 25i64])
    } else if index == 51 {
        entry(14040, "has_column_privilege"@, 16, seq![25i64, 25i64, 25i64])
    } else if index == 52 {
        entry(14041, "has_column_privilege"@, 16, seq![25i64, 25i64, 25i64, 25i64])
    } else if index == 53 {
        entry(14042, "has_sequence_privilege"@, 16, seq![25i64, 25i64])
    } else if index == 54 {
        entry(14043, "has_sequence_privilege"@, 16, seq![25i64, 25i64, 25i64])
    } else if index == 55 {
        entry(14044, "has_function_privilege"@, 16, seq![25i64, 25i64])
    } else if index == 56 {
        entry(14045, "has_function_privilege"@, 16, seq![25i64, 25i64, 25i64])
    } else if index == 57 {
        entry(14046, "has_any_column_privilege"@, 16, seq![25i64, 25i64])
    } else if index == 58 {
        entry(14047, "has_any_column_privilege"@, 16, seq![25i64, 25i64, 25i64])
    } else if index == 59 {
        entry(14048, "pg_has_role"@, 16, seq![25i64, 25i64])
    } else if index == 60 {
        entry(14049, "pg_has_role"@, 16, seq![25i64, 25i64, 25i64])
    } else if index == 61 {
        entry(14050, "obj_description"@, 25, seq![26i64])
    } else if index == 62 {
        entry(14051, "obj_description"@, 25, seq![26i64, 25i64])
    } else if index == 63 {
        entry(14052, "col_description"@, 25, seq![26i64, 23i64])
    } else if index == 64 {
        entry(14053, "pg_relation_size"@, 20, seq![26i64])
    } else if index == 65 {
        entry(14054, "pg_table_size"@, 20, seq![26i64])
    } else if index == 66 {
        entry(14055, "pg_indexes_size"@, 20, seq![26i64])
    } else if index == 67 {
        entry(14056, "pg_total_relation_size"@, 20, seq![26i64])
    } else if index == 68 {
        entry(14057, "pg_my_temp_schema"@, 26, Seq::<i64>::empty())
    } else if index == 69 {
        entry(14058, "pg_is_other_temp_schema"@, 16, seq![26i64])
    } else if index == 70 {
        entry(14059, "pg_get_viewdef"@, 25, seq![26i64])
    } else if index == 71 {
        entry(14060, "pg_get_viewdef"@, 25, seq![26i64, 16i64])
    } else if index == 72 {
        entry(14061, "pg_get_functiondef"@, 25, seq![26i64])
    } else if index == 73 {
        entry(14062, "pg_get_function_arguments"@, 25, seq![26i64])
    } else if index == 74 {
        entry(14063, "pg_get_function_result"@, 25, seq![26i64])
    } else if index == 75 {
        entry(14064, "pg_get_triggerdef"@, 25, seq![26i64])
    } else if index == 76 {
        entry(14065, "pg_get_triggerdef"@, 25, seq![26i64, 16i64])
    } else if index == 77 {
        entry(14066, "pg_get_ruledef"@, 25, seq![26i64])
    } else if index == 78 {
        entry(14067, "pg_get_ruledef"@, 25, seq![26i64, 16i64])
    } else if index == 79 {
        entry(14068, "pg_get_partkeydef"@, 25, seq![26i64])
    } else if index == 80 {
        entry(14069, "pg_function_is_visible"@, 16, seq![26i64])
    } else if index == 81 {
        entry(14070, "oidvectortypes"@, 25, seq![30i64])
    } else if index == 82 {
        entry(14082, "has_table_privilege"@, 16, seq![26i64, 25i64])
    } else if index == 83 {
        entry(14083, "has_table_privilege"@, 16, seq![26i64, 26i64, 25i64])
    } else if index == 84 {
        entry(14084, "has_schema_privilege"@, 16, seq![26i64, 25i64])
    } else if index == 85 {
        entry(14085, "has_schema_privilege"@, 16, seq![26i64, 26i64, 25i64])
    } else if index == 86 {
        entry(14086, "has_database_privilege"@, 16, seq![26i64, 25i64])
    } else if index == 87 {
        entry(14087, "has_database_privilege"@, 16, seq![26i64, 26i64, 25i64])
    } else if index == 88 {
        entry(14088, "has_column_privilege"@, 16, seq![26i64, 25i64, 25i64])
    } else if index == 89 {
        entry(14089, "has_column_privilege"@, 16, seq![26i64, 26i64, 25i64, 25i64])
    } else if index == 90 {
        entry(14090, "has_sequence_privilege"@, 16, seq![26i64, 25i64])
    } else if index == 91 {
        entry(14091, "has_sequence_privilege"@, 16, seq![26i64, 26i64, 25i64])
    } else if index == 92 {
        entry(14092, "has_function_privilege"@, 16, seq![26i64, 25i64])
    } else if index == 93 {
        entry(14093, "has_function_privilege"@, 16, seq![26i64, 26i64, 25i64])
    } else if index == 94 {
        entry(14094, "has_any_column_privilege"@, 16, seq![26i64, 25i64])
    } else if index == 95 {
        entry(14095, "has_any_column_privilege"@, 16, seq![26i64, 26i64, 25i64])
    } else if index == 96 {
        entry(14096, "pg_has_role"@, 16, seq![26i64, 25i64])
    } else if index == 97 {
        entry(14097, "pg_has_role"@, 16, seq![26i64, 26i64, 25i64])
    } else if index == 98 {
        entry(14098, "abs"@, 701, seq![701i64])
    } else if index == 99 {
        entry(14099, "floor"@, 20, seq![20i64])
    } else if index == 100 {
        entry(14100, "ceil"@, 20, seq![20i64])
    } else if index == 101 {
        entry(14101, "ceiling"@, 20, seq![20i64])
    } else if index == 102 {
        entry(14102, "round"@, 20, seq![20i64])
    } else if index == 103 {
        entry(14103, "sqrt"@, 701, seq![20i64])
    } else if index == 104 {
        entry(14104, "power"@, 701, seq![20i64, 20i64])
    } else if index == 105 {
        entry(14105, "power"@, 701, seq![20i64, 701i64])
    } else if index == 106 {
        entry(14106, "power"@, 701, seq![701i64, 20i64])
    } else if index == 107 {
        entry(14107, "pow"@, 701, seq![20i64, 20i64])
    } else if index == 108 {
        entry(14108, "pow"@, 701, seq![20i64, 701i64])
    } else {
        entry(14109, "pow"@, 701, seq![701i64, 20i64])
    }
}

fn text_args() -> (oids: &'static [i64])
    ensures
        oids@ == seq![25i64],
{
    let oids: &'static [i64; 1] = &[25];
    assert(oids@ == seq![25i64]);
    oids
}

fn int8_args() -> (oids: &'static [i64])
    ensures
        oids@ == seq![20i64],
{
    let oids: &'static [i64; 1] = &[20];
    assert(oids@ == seq![20i64]);
    oids
}

fn float8_args() -> (oids: &'static [i64])
    ensures
        oids@ == seq![701i64],
{
    let oids: &'static [i64; 1] = &[701];
    assert(oids@ == seq![701i64]);
    oids
}

fn float8_float8_args() -> (oids: &'static [i64])
    ensures
        oids@ == seq![701i64, 701i64],
{
    let oids: &'static [i64; 2] = &[701, 701];
    assert(oids@ == seq![701i64, 701i64]);
    oids
}

fn int8_int8_args() -> (oids: &'static [i64])
    ensures
        oids@ == seq![20i64, 20i64],
{
    let oids: &'static [i64; 2] = &[20, 20];
    assert(oids@ == seq![20i64, 20i64]);
    oids
}

fn text_date_args() -> (oids: &'static [i64])
    ensures
        oids@ == seq![25i64, 1082i64],
{
    let oids: &'static [i64; 2] = &[25, 1082];
    assert(oids@ == seq![25i64, 1082i64]);
    oids
}

fn text_timestamp_args() -> (oids: &'static [i64])
    ensures
        oids@ == seq![25i64, 1114i64],
{
    let oids: &'static [i64; 2] = &[25, 1114];
    assert(oids@ == seq![25i64, 1114i64]);
    oids
}

fn text_int8_args() -> (oids: &'static [i64])
    ensures
        oids@ == seq![25i64, 20i64],
{
    let oids: &'static [i64; 2] = &[25, 20];
    assert(oids@ == seq![25i64, 20i64]);
    oids
}

fn text_int8_int8_args() -> (oids: &'static [i64])
    ensures
        oids@ == seq![25i64, 20i64, 20i64],
{
    let oids: &'static [i64; 3] = &[25, 20, 20];
    assert(oids@ == seq![25i64, 20i64, 20i64]);
    oids
}

fn text_text_text_args() -> (oids: &'static [i64])
    ensures
        oids@ == seq![25i64, 25i64, 25i64],
{
    let oids: &'static [i64; 3] = &[25, 25, 25];
    assert(oids@ == seq![25i64, 25i64, 25i64]);
    oids
}

fn text_text_args() -> (oids: &'static [i64])
    ensures
        oids@ == seq![25i64, 25i64],
{
    let oids: &'static [i64; 2] = &[25, 25];
    assert(oids@ == seq![25i64, 25i64]);
    oids
}

fn no_args() -> (oids: &'static [i64])
    ensures
        oids@ == Seq::<i64>::empty(),
{
    let oids: &'static [i64; 0] = &[];
    assert(oids@ == Seq::<i64>::empty());
    oids
}

fn oid_int4_args() -> (oids: &'static [i64])
    ensures
        oids@ == seq![26i64, 23i64],
{
    let oids: &'static [i64; 2] = &[26, 23];
    assert(oids@ == seq![26i64, 23i64]);
    oids
}

fn oid_args() -> (oids: &'static [i64])
    ensures
        oids@ == seq![26i64],
{
    let oids: &'static [i64; 1] = &[26];
    assert(oids@ == seq![26i64]);
    oids
}

fn oid_int4_bool_args() -> (oids: &'static [i64])
    ensures
        oids@ == seq![26i64, 23i64, 16i64],
{
    let oids: &'static [i64; 3] = &[26, 23, 16];
    assert(oids@ == seq![26i64, 23i64, 16i64]);
    oids
}

fn text_oid_args() -> (oids: &'static [i64])
    ensures
        oids@ == seq![25i64, 26i64],
{
    let oids: &'static [i64; 2] = &[25, 26];
    assert(oids@ == seq![25i64, 26i64]);
    oids
}

fn text_oid_bool_args() -> (oids: &'static [i64])
    ensures
        oids@ == seq![25i64, 26i64, 16i64],
{
    let oids: &'static [i64; 3] = &[25, 26, 16];
    assert(oids@ == seq![25i64, 26i64, 16i64]);
    oids
}

fn oid_bool_args() -> (oids: &'static [i64])
    ensures
        oids@ == seq![26i64, 16i64],
{
    let oids: &'static [i64; 2] = &[26, 16];
    assert(oids@ == seq![26i64, 16i64]);
    oids
}

fn text_text_text_text_args() -> (oids: &'static [i64])
    ensures
        oids@ == seq![25i64, 25i64, 25i64, 25i64],
{
    let oids: &'static [i64; 4] = &[25, 25, 25, 25];
    assert(oids@ == seq![25i64, 25i64, 25i64, 25i64]);
    oids
}

fn oid_text_args() -> (oids: &'static [i64])
    ensures
        oids@ == seq![26i64, 25i64],
{
    let oids: &'static [i64; 2] = &[26, 25];
    assert(oids@ == seq![26i64, 25i64]);
    oids
}

fn oidvector_args() -> (oids: &'static [i64])
    ensures
        oids@ == seq![30i64],
{
    let oids: &'static [i64; 1] = &[30];
    assert(oids@ == seq![30i64]);
    oids
}

fn oid_oid_text_args() -> (oids: &'static [i64])
    ensures
        oids@ == seq![26i64, 26i64, 25i64],
{
    let oids: &'static [i64; 3] = &[26, 26, 25];
    assert(oids@ == seq![26i64, 26i64, 25i64]);
    oids
}

fn oid_text_text_args() -> (oids: &'static [i64])
    ensures
        oids@ == seq![26i64, 25i64, 25i64],
{
    let oids: &'static [i64; 3] = &[26, 25, 25];
    assert(oids@ == seq![26i64, 25i64, 25i64]);
    oids
}

fn oid_oid_text_text_args() -> (oids: &'static [i64])
    ensures
        oids@ == seq![26i64, 26i64, 25i64, 25i64],
{
    let oids: &'static [i64; 4] = &[26, 26, 25, 25];
    assert(oids@ == seq![26i64, 26i64, 25i64, 25i64]);
    oids
}

fn int8_float8_args() -> (oids: &'static [i64])
    ensures
        oids@ == seq![20i64, 701i64],
{
    let oids: &'static [i64; 2] = &[20, 701];
    assert(oids@ == seq![20i64, 701i64]);
    oids
}

fn float8_int8_args() -> (oids: &'static [i64])
    ensures
        oids@ == seq![701i64, 20i64],
{
    let oids: &'static [i64; 2] = &[701, 20];
    assert(oids@ == seq![701i64, 20i64]);
    oids
}

fn make_entry(
    oid: i64,
    name: &'static str,
    ret_oid: i64,
    arg_oids: &'static [i64],
) -> (made: PgProcCatalogEntry)
    ensures
        made@ == entry(oid, name@, ret_oid, arg_oids@),
{
    PgProcCatalogEntry { oid, name, ret_oid, arg_oids }
}

/// The catalog entry at an index.
pub fn pg_proc_catalog_entry_at(index: usize) -> (found: PgProcCatalogEntry)
    requires
        index < CATALOG_LEN,
    ensures
        found@ == catalog_entry(index as int),
{
    proof {
        reveal(catalog_entry);
    }
    match index {
        0 => make_entry(14000, "upper", 25, text_args()),
        1 => make_entry(14001, "lower", 25, text_args()),
        2 => make_entry(14002, "trim", 25, text_args()),
        3 => make_entry(14003, "length", 20, text_args()),
        4 => make_entry(14071, "abs", 20, int8_args()),
        5 => make_entry(14072, "floor", 701, float8_args()),
        6 => make_entry(14073, "ceil", 701, float8_args()),
        7 => make_entry(14074, "ceiling", 701, float8_args()),
        8 => make_entry(14075, "round", 701, float8_args()),
        9 => make_entry(14076, "sqrt", 701, float8_args()),
        10 => make_entry(14077, "power", 701, float8_float8_args()),
        11 => make_entry(14078, "pow", 701, float8_float8_args()),
        12 => make_entry(14079, "mod", 20, int8_int8_args()),
        13 => make_entry(14080, "extract", 701, text_date_args()),
        14 => make_entry(14081, "extract", 701, text_timestamp_args()),
        15 => make_entry(14004, "concat", 25, text_args()),
        16 => make_entry(14005, "substring", 25, text_int8_args()),
        17 => make_entry(14006, "substring", 25, text_int8_int8_args()),
        18 => make_entry(14007, "replace", 25, text_text_text_args()),
        19 => make_entry(14008, "position", 20, text_text_args()),
        20 => make_entry(14009, "left", 25, text_int8_args()),
        21 => make_entry(14010, "right", 25, text_int8_args()),
        22 => make_entry(14011, "now", 1184, no_args()),
        23 => make_entry(14012, "current_timestamp", 1184, no_args()),
        24 => make_entry(14013, "version", 25, no_args()),
        25 => make_entry(14014, "current_database", 25, no_args()),
        26 => make_entry(14015, "current_catalog", 25, no_args()),
        27 => make_entry(14016, "current_schema", 25, no_args()),
        28 => make_entry(14017, "current_user", 25, no_args()),
        29 => make_entry(14018, "session_user", 25, no_args()),
        30 => make_entry(14019, "user", 25, no_args()),
        31 => make_entry(14020, "pg_backend_pid", 20, no_args()),
        32 => make_entry(14021, "current_setting", 25, text_args()),
        33 => make_entry(14022, "format_type", 25, oid_int4_args()),
        34 => make_entry(14023, "pg_get_indexdef", 25, oid_args()),
        35 => make_entry(14024, "pg_get_indexdef", 25, oid_int4_bool_args()),
        36 => make_entry(14025, "pg_table_is_visible", 16, oid_args()),
        37 => make_entry(14026, "pg_get_expr", 25, text_oid_args()),
        38 => make_entry(14027, "pg_get_expr", 25, text_oid_bool_args()),
        39 => make_entry(14028, "pg_get_constraintdef", 25, oid_args()),
        40 => make_entry(14029, "pg_get_constraintdef", 25, oid_bool_args()),
        41 => make_entry(14030, "pg_get_userbyid", 25, oid_args()),
        42 => make_entry(14031, "pg_get_serial_sequence", 25, text_text_args()),
        43 => make_entry(14032, "to_regclass", 26, text_args()),
        44 => make_entry(14033, "to_regtype", 26, text_args()),
        45 => make_entry(14034, "has_table_privilege", 16, text_text_args()),
        46 => make_entry(14035, "has_table_privilege", 16, text_text_text_args()),
        47 => make_entry(14036, "has_schema_privilege", 16, text_text_args()),
        48 => make_entry(14037, "has_schema_privilege", 16, text_text_text_args()),
        49 => make_entry(14038, "has_database_privilege", 16, text_text_args()),
        50 => make_entry(14039, "has_database_privilege", 16, text_text_text_args()),
        51 => make_entry(14040, "has_column_privilege", 16, text_text_text_args()),
        52 => make_entry(14041, "has_column_privilege", 16, text_text_text_text_args()),
        53 => make_entry(14042, "has_sequence_privilege", 16, text_text_args()),
        54 => make_entry(14043, "has_sequence_privilege", 16, text_text_text_args()),
        55 => make_entry(14044, "has_function_privilege", 16, text_text_args()),
        56 => make_entry(14045, "has_function_privilege", 16, text_text_text_args()),
        57 => make_entry(14046, "has_any_column_privilege", 16, text_text_args()),
        58 => make_entry(14047, "has_any_column_privilege", 16, text_text_text_args()),
        59 => make_entry(14048, "pg_has_role", 16, text_text_args()),
        60 => make_entry(14049, "pg_has_role", 16, text_text_text_args()),
        61 => make_entry(14050, "obj_description", 25, oid_args()),
        62 => make_entry(14051, "obj_description", 25, oid_text_args()),
        63 => make_entry(14052, "col_description", 25, oid_int4_args()),
        64 => make_entry(14053, "pg_relation_size", 20, oid_args()),
        65 => make_entry(14054, "pg_table_size", 20, oid_args()),
        66 => make_entry(14055, "pg_indexes_size", 20, oid_args()),
        67 => make_entry(14056, "pg_total_relation_size", 20, oid_args()),
        68 => make_entry(14057, "pg_my_temp_schema", 26, no_args()),
        69 => make_entry(14058, "pg_is_other_temp_schema", 16, oid_args()),
        70 => make_entry(14059, "pg_get_viewdef", 25, oid_args()),
        71 => make_entry(14060, "pg_get_viewdef", 25, oid_bool_args()),
        72 => make_entry(14061, "pg_get_functiondef", 25, oid_args()),
        73 => make_entry(14062, "pg_get_function_arguments", 25, oid_args()),
        74 => make_entry(14063, "pg_get_function_result", 25, oid_args()),
        75 => make_entry(14064, "pg_get_triggerdef", 25, oid_args()),
        76 => make_entry(14065, "pg_get_triggerdef", 25, oid_bool_args()),
        77 => make_entry(14066, "pg_get_ruledef", 25, oid_args()),
        78 => make_entry(14067, "pg_get_ruledef", 25, oid_bool_args()),
        79 => make_entry(14068, "pg_get_partkeydef", 25, oid_args()),
        80 => make_entry(14069, "pg_function_is_visible", 16, oid_args()),
        81 => make_entry(14070, "oidvectortypes", 25, oidvector_args()),
        82 => make_entry(14082, "has_table_privilege", 16, oid_text_args()),
        83 => make_entry(14083, "has_table_privilege", 16, oid_oid_text_args()),
        84 => make_entry(14084, "has_schema_privilege", 16, oid_text_args()),
        85 => make_entry(14085, "has_schema_privilege", 16, oid_oid_text_args()),
        86 => make_entry(14086, "has_database_privilege", 16, oid_text_args()),
        87 => make_entry(14087, "has_database_privilege", 16, oid_oid_text_args()),
        88 => make_entry(14088, "has_column_privilege", 16, oid_text_text_args()),
        89 => make_entry(14089, "has_column_privilege", 16, oid_oid_text_text_args()),
        90 => make_entry(14090, "has_sequence_privilege", 16, oid_text_args()),
        91 => make_entry(14091, "has_sequence_privilege", 16, oid_oid_text_args()),
        92 => make_entry(14092, "has_function_privilege", 16, oid_text_args()),
        93 => make_entry(14093, "has_function_privilege", 16, oid_oid_text_args()),
        94 => make_entry(14094, "has_any_column_privilege", 16, oid_text_args()),
        95 => make_entry(14095, "has_any_column_privilege", 16, oid_oid_text_args()),
        96 => make_entry(14096, "pg_has_role", 16, oid_text_args()),
        97 => make_entry(14097, "pg_has_role", 16, oid_oid_text_args()),
        98 => make_entry(14098, "abs", 701, float8_args()),
        99 => make_entry(14099, "floor", 20, int8_args()),
        100 => make_entry(14100, "ceil", 20, int8_args()),
        101 => make_entry(14101, "ceiling", 20, int8_args()),
        102 => make_entry(14102, "round", 20, int8_args()),
        103 => make_entry(14103, "sqrt", 701, int8_args()),
        104 => make_entry(14104, "power", 701, int8_int8_args()),
        105 => make_entry(14105, "power", 701, int8_float8_args()),
        106 => make_entry(14106, "power", 701, float8_int8_args()),
        107 => make_entry(14107, "pow", 701, int8_int8_args()),
        108 => make_entry(14108, "pow", 701, int8_float8_args()),
        _ => make_entry(14109, "pow", 701, float8_int8_args()),
    }
}

/// The whole catalog.
pub open spec fn catalog() -> Seq<PgProcView> {
    Seq::new(CATALOG_LEN as nat, |i: int| catalog_entry(i))
}

pub fn pg_proc_catalog_entries() -> (entries: Vec<PgProcCatalogEntry>)
    ensures
        entries@.map_values(|e: PgProcCatalogEntry| e@) == catalog(),
{
    let mut entries: Vec<PgProcCatalogEntry> = Vec::new();
    let mut i: usize = 0;
    while i < CATALOG_LEN
        invariant
            i <= CATALOG_LEN,
            entries@.len() == i,
            forall|j: int| 0 <= j < i ==> (#[trigger] entries@[j])@ == catalog_entry(j),
        decreases CATALOG_LEN - i,
    {
        entries.push(pg_proc_catalog_entry_at(i));
        i += 1;
    }
    assert(entries@.map_values(|e: PgProcCatalogEntry| e@) == catalog());
    entries
}

/// The index of the first catalog entry, from `start` on, with the given OID.
pub open spec fn index_of_oid(oid: i64, start: int) -> Option<int>
    decreases CATALOG_LEN - start,
{
    if start >= CATALOG_LEN {
        None
    } else if catalog_entry(start).oid == oid {
        Some(start)
    } else {
        index_of_oid(oid, start + 1)
    }
}

/// The catalog entry with the given OID.
pub open spec fn entry_with_oid(oid: i64) -> Option<PgProcView> {
    match index_of_oid(oid, 0) {
        Some(index) => Some(catalog_entry(index)),
        None => None,
    }
}

pub fn pg_proc_catalog_entry(oid: i64) -> (found: Option<PgProcCatalogEntry>)
    ensures
        match found {
            Some(found) => entry_with_oid(oid) == Some(found@),
            None => entry_with_oid(oid) is None,
        },
{
    let mut i: usize = 0;
    while i < CATALOG_LEN
        invariant
            i <= CATALOG_LEN,
            index_of_oid(oid, 0) == index_of_oid(oid, i as int),
        decreases CATALOG_LEN - i,
    {
        let candidate: PgProcCatalogEntry = pg_proc_catalog_entry_at(i);
        if candidate.oid == oid {
            return Some(candidate);
        }
        i += 1;
    }
    None
}

/// The display name of the type with the given OID.
pub open spec fn type_display(oid: int) -> Seq<char> {
    match pg_type::wire_type_of_oid(oid, -1) {
        Some(wire_type) => wire_type.spec_type_name(),
        None => "???"@,
    }
}

pub fn format_type_oid(oid: i64) -> (name: String)
    ensures
        name@ == type_display(oid as int),
{
    match PgType::from_oid_typmod(oid, -1) {
        Some(wire_type) => wire_type.format_type_name(),
        None => "???".to_owned(),
    }
}

/// Whether the type with the given OID refines a semantic type.
pub open spec fn oid_has_type(oid: int, data_type: DataType) -> bool {
    match pg_type::wire_type_of_oid(oid, -1) {
        Some(wire_type) => wire_type.refines(data_type),
        None => false,
    }
}

pub(crate) fn pg_oid_has_data_type(oid: i64, data_type: &DataType) -> (has: bool)
    ensures
        has == oid_has_type(oid as int, *data_type),
{
    match PgType::from_oid_typmod(oid, -1) {
        Some(wire_type) => wire_type.is_refinement_of(data_type),
        None => false,
    }
}

impl PgProcView {
    /// Whether an argument list fits the entry: one argument per parameter, or, if
    /// the last parameter repeats, at least as many, the extra ones of its type.
    pub open spec fn accepts(self, argument_types: Seq<DataType>) -> bool {
        let fixed = if self.variadic_oid() == 0 {
            self.arg_oids.len() as int
        } else {
            self.arg_oids.len() - 1
        };
        &&& if self.variadic_oid() == 0 {
            argument_types.len() == self.arg_oids.len()
        } else {
            0 < self.arg_oids.len() <= argument_types.len()
        }
        &&& forall|i: int|
            0 <= i < argument_types.len() ==> oid_has_type(
                if i < fixed {
                    self.arg_oids[i] as int
                } else {
                    self.variadic_oid() as int
                },
                #[trigger] argument_types[i],
            )
    }
}

pub(crate) fn catalog_entry_accepts_arguments(
    entry: &PgProcCatalogEntry,
    argument_types: &[DataType],
) -> (accepts: bool)
    ensures
        accepts == entry@.accepts(argument_types@),
{
    let variadic: i64 = entry.variadic_oid();
    let parameters: usize = entry.arg_oids.len();
    let fixed: usize = if variadic == 0 {
        if argument_types.len() != parameters {
            return false;
        }
        parameters
    } else {
        if parameters == 0 || argument_types.len() < parameters {
            return false;
        }
        parameters - 1
    };
    let mut i: usize = 0;
    while i < argument_types.len()
        invariant
            i <= argument_types@.len(),
            variadic == entry@.variadic_oid(),
            parameters == entry.arg_oids@.len(),
            variadic == 0 ==> fixed == parameters && argument_types@.len() == parameters,
            variadic != 0 ==> fixed == parameters - 1 && 0 < parameters <= argument_types@.len(),
            forall|j: int|
                0 <= j < i ==> oid_has_type(
                    if j < fixed {
                        entry@.arg_oids[j] as int
                    } else {
                        variadic as int
                    },
                    #[trigger] argument_types@[j],
                ),
        decreases argument_types@.len() - i,
    {
        let oid: i64 = if i < fixed {
            entry.arg_oids[i]
        } else {
            variadic
        };
        if !pg_oid_has_data_type(oid, &argument_types[i]) {
            return false;
        }
        i += 1;
    }
    true
}

} // verus!
