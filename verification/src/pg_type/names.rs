//! The names of types are read back as the types.

use vstd::prelude::*;

use crate::pg_type::{bare_spelling, spelling_oid, wire_type_of_oid, PgType};
use crate::text;

verus! {

/// A spelling has a first character, a last one, and one two places before that. With its
/// length they tell it from every other spelling.
spec fn has_marks(name: Seq<char>) -> bool {
    name.len() >= 3 && name[0] != 'p' && name[name.len() - 1] <= 'z' && name[name.len() - 3] <= 'z'
}

/// In lower case, without white space around it or the letter that the names of the
/// schemas start with.
spec fn is_plain(name: Seq<char>) -> bool {
    &&& name.len() > 0
    &&& name[0] != 'p'
    &&& !text::white_space(name[0])
    &&& !text::white_space(name.last())
    &&& forall|i: int| 0 <= i < name.len() ==> text::ascii_lower(#[trigger] name[i]) == name[i]
}

/// Two spellings name one type.
pub open spec fn same_type(a: Seq<char>, b: Seq<char>) -> bool {
    spelling_oid(a) is Some && spelling_oid(a) == spelling_oid(b)
}

/// The name of a type is among its spellings. No spelling starts with the letter that the
/// names of the schemas start with.
#[verifier::spinoff_prover]
#[verifier::rlimit(60)]
proof fn lemma_spellings(oid: i64, name: Seq<char>)
    ensures
        wire_type_of_oid(oid as int, -1) matches Some(wire_type) ==> spelling_oid(
            wire_type.spec_type_name(),
        ) == Some(oid),
        name.len() > 0 && name[0] == 'p' ==> spelling_oid(name) is None,
        same_type("bool"@, "boolean"@),
        same_type("int8"@, "bigint"@),
        same_type("int2"@, "smallint"@),
        same_type("int4"@, "integer"@),
        same_type("int"@, "integer"@),
        same_type("float4"@, "real"@),
        same_type("float8"@, "double precision"@),
        same_type("float"@, "double precision"@),
        same_type("bpchar"@, "character"@),
        same_type("char"@, "character"@),
        same_type("varchar"@, "character varying"@),
        same_type("time"@, "time without time zone"@),
        same_type("timestamp"@, "timestamp without time zone"@),
        same_type("timestamptz"@, "timestamp with time zone"@),
        same_type("decimal"@, "numeric"@),
        same_type("_bool"@, "boolean[]"@),
        same_type("bool[]"@, "boolean[]"@),
        same_type("_bytea"@, "bytea[]"@),
        same_type("_int2"@, "smallint[]"@),
        same_type("int2[]"@, "smallint[]"@),
        same_type("_int4"@, "integer[]"@),
        same_type("int4[]"@, "integer[]"@),
        same_type("int[]"@, "integer[]"@),
        same_type("_int8"@, "bigint[]"@),
        same_type("int8[]"@, "bigint[]"@),
        same_type("_text"@, "text[]"@),
        same_type("_oid"@, "oid[]"@),
        same_type("_bpchar"@, "character[]"@),
        same_type("char[]"@, "character[]"@),
        same_type("bpchar[]"@, "character[]"@),
        same_type("_varchar"@, "character varying[]"@),
        same_type("varchar[]"@, "character varying[]"@),
        same_type("_float4"@, "real[]"@),
        same_type("float4[]"@, "real[]"@),
        same_type("_float8"@, "double precision[]"@),
        same_type("float8[]"@, "double precision[]"@),
        same_type("float[]"@, "double precision[]"@),
        same_type("_timestamp"@, "timestamp without time zone[]"@),
        same_type("timestamp[]"@, "timestamp without time zone[]"@),
        same_type("_date"@, "date[]"@),
        same_type("_time"@, "time without time zone[]"@),
        same_type("time[]"@, "time without time zone[]"@),
        same_type("_timestamptz"@, "timestamp with time zone[]"@),
        same_type("timestamptz[]"@, "timestamp with time zone[]"@),
        same_type("_interval"@, "interval[]"@),
        same_type("_numeric"@, "numeric[]"@),
        same_type("decimal[]"@, "numeric[]"@),
        same_type("_uuid"@, "uuid[]"@),
{
    reveal_strlit("bool");
    assert(has_marks("bool"@));
    reveal_strlit("boolean");
    assert(has_marks("boolean"@));
    reveal_strlit("bytea");
    assert(has_marks("bytea"@));
    reveal_strlit("int8");
    assert(has_marks("int8"@));
    reveal_strlit("bigint");
    assert(has_marks("bigint"@));
    reveal_strlit("int2");
    assert(has_marks("int2"@));
    reveal_strlit("smallint");
    assert(has_marks("smallint"@));
    reveal_strlit("int4");
    assert(has_marks("int4"@));
    reveal_strlit("integer");
    assert(has_marks("integer"@));
    reveal_strlit("int");
    assert(has_marks("int"@));
    reveal_strlit("text");
    assert(has_marks("text"@));
    reveal_strlit("oid");
    assert(has_marks("oid"@));
    reveal_strlit("oidvector");
    assert(has_marks("oidvector"@));
    reveal_strlit("int2vector");
    assert(has_marks("int2vector"@));
    reveal_strlit("int2[]");
    assert(has_marks("int2[]"@));
    reveal_strlit("smallint[]");
    assert(has_marks("smallint[]"@));
    reveal_strlit("_int2");
    assert(has_marks("_int2"@));
    reveal_strlit("oid[]");
    assert(has_marks("oid[]"@));
    reveal_strlit("_oid");
    assert(has_marks("_oid"@));
    reveal_strlit("bool[]");
    assert(has_marks("bool[]"@));
    reveal_strlit("boolean[]");
    assert(has_marks("boolean[]"@));
    reveal_strlit("_bool");
    assert(has_marks("_bool"@));
    reveal_strlit("bytea[]");
    assert(has_marks("bytea[]"@));
    reveal_strlit("_bytea");
    assert(has_marks("_bytea"@));
    reveal_strlit("int4[]");
    assert(has_marks("int4[]"@));
    reveal_strlit("integer[]");
    assert(has_marks("integer[]"@));
    reveal_strlit("int[]");
    assert(has_marks("int[]"@));
    reveal_strlit("_int4");
    assert(has_marks("_int4"@));
    reveal_strlit("text[]");
    assert(has_marks("text[]"@));
    reveal_strlit("_text");
    assert(has_marks("_text"@));
    reveal_strlit("bpchar[]");
    assert(has_marks("bpchar[]"@));
    reveal_strlit("char[]");
    assert(has_marks("char[]"@));
    reveal_strlit("character[]");
    assert(has_marks("character[]"@));
    reveal_strlit("_bpchar");
    assert(has_marks("_bpchar"@));
    reveal_strlit("varchar[]");
    assert(has_marks("varchar[]"@));
    reveal_strlit("character varying[]");
    assert(has_marks("character varying[]"@));
    reveal_strlit("_varchar");
    assert(has_marks("_varchar"@));
    reveal_strlit("int8[]");
    assert(has_marks("int8[]"@));
    reveal_strlit("bigint[]");
    assert(has_marks("bigint[]"@));
    reveal_strlit("_int8");
    assert(has_marks("_int8"@));
    reveal_strlit("float4[]");
    assert(has_marks("float4[]"@));
    reveal_strlit("real[]");
    assert(has_marks("real[]"@));
    reveal_strlit("_float4");
    assert(has_marks("_float4"@));
    reveal_strlit("float8[]");
    assert(has_marks("float8[]"@));
    reveal_strlit("double precision[]");
    assert(has_marks("double precision[]"@));
    reveal_strlit("float[]");
    assert(has_marks("float[]"@));
    reveal_strlit("_float8");
    assert(has_marks("_float8"@));
    reveal_strlit("timestamp[]");
    assert(has_marks("timestamp[]"@));
    reveal_strlit("timestamp without time zone[]");
    assert(has_marks("timestamp without time zone[]"@));
    reveal_strlit("_timestamp");
    assert(has_marks("_timestamp"@));
    reveal_strlit("date[]");
    assert(has_marks("date[]"@));
    reveal_strlit("_date");
    assert(has_marks("_date"@));
    reveal_strlit("time[]");
    assert(has_marks("time[]"@));
    reveal_strlit("time without time zone[]");
    assert(has_marks("time without time zone[]"@));
    reveal_strlit("_time");
    assert(has_marks("_time"@));
    reveal_strlit("timestamptz[]");
    assert(has_marks("timestamptz[]"@));
    reveal_strlit("timestamp with time zone[]");
    assert(has_marks("timestamp with time zone[]"@));
    reveal_strlit("_timestamptz");
    assert(has_marks("_timestamptz"@));
    reveal_strlit("interval[]");
    assert(has_marks("interval[]"@));
    reveal_strlit("_interval");
    assert(has_marks("_interval"@));
    reveal_strlit("numeric[]");
    assert(has_marks("numeric[]"@));
    reveal_strlit("decimal[]");
    assert(has_marks("decimal[]"@));
    reveal_strlit("_numeric");
    assert(has_marks("_numeric"@));
    reveal_strlit("uuid[]");
    assert(has_marks("uuid[]"@));
    reveal_strlit("_uuid");
    assert(has_marks("_uuid"@));
    reveal_strlit("float4");
    assert(has_marks("float4"@));
    reveal_strlit("real");
    assert(has_marks("real"@));
    reveal_strlit("float8");
    assert(has_marks("float8"@));
    reveal_strlit("double precision");
    assert(has_marks("double precision"@));
    reveal_strlit("float");
    assert(has_marks("float"@));
    reveal_strlit("bpchar");
    assert(has_marks("bpchar"@));
    reveal_strlit("char");
    assert(has_marks("char"@));
    reveal_strlit("character");
    assert(has_marks("character"@));
    reveal_strlit("varchar");
    assert(has_marks("varchar"@));
    reveal_strlit("character varying");
    assert(has_marks("character varying"@));
    reveal_strlit("date");
    assert(has_marks("date"@));
    reveal_strlit("time");
    assert(has_marks("time"@));
    reveal_strlit("time without time zone");
    assert(has_marks("time without time zone"@));
    reveal_strlit("timestamp");
    assert(has_marks("timestamp"@));
    reveal_strlit("timestamp without time zone");
    assert(has_marks("timestamp without time zone"@));
    reveal_strlit("timestamptz");
    assert(has_marks("timestamptz"@));
    reveal_strlit("timestamp with time zone");
    assert(has_marks("timestamp with time zone"@));
    reveal_strlit("interval");
    assert(has_marks("interval"@));
    reveal_strlit("numeric");
    assert(has_marks("numeric"@));
    reveal_strlit("decimal");
    assert(has_marks("decimal"@));
    reveal_strlit("uuid");
    assert(has_marks("uuid"@));
    reveal_strlit("[]");
    reveal_with_fuel(PgType::spec_type_name, 2);
    assert(spelling_oid("boolean"@) == Some(16i64));
    assert(spelling_oid("bytea"@) == Some(17i64));
    assert(spelling_oid("bigint"@) == Some(20i64));
    assert(spelling_oid("smallint"@) == Some(21i64));
    assert(spelling_oid("int2vector"@) == Some(22i64));
    assert(spelling_oid("integer"@) == Some(23i64));
    assert(spelling_oid("text"@) == Some(25i64));
    assert(spelling_oid("oid"@) == Some(26i64));
    assert(spelling_oid("oidvector"@) == Some(30i64));
    assert(spelling_oid("real"@) == Some(700i64));
    assert(spelling_oid("double precision"@) == Some(701i64));
    assert(spelling_oid("character"@) == Some(1042i64));
    assert(spelling_oid("character varying"@) == Some(1043i64));
    assert(spelling_oid("date"@) == Some(1082i64));
    assert(spelling_oid("time without time zone"@) == Some(1083i64));
    assert(spelling_oid("timestamp without time zone"@) == Some(1114i64));
    assert(spelling_oid("timestamp with time zone"@) == Some(1184i64));
    assert(spelling_oid("interval"@) == Some(1186i64));
    assert(spelling_oid("numeric"@) == Some(1700i64));
    assert(spelling_oid("uuid"@) == Some(2950i64));
    assert(spelling_oid("smallint[]"@) == Some(1005i64));
    assert(spelling_oid("oid[]"@) == Some(1028i64));
    assert("boolean"@ + "[]"@ =~= "boolean[]"@);
    assert(spelling_oid("boolean[]"@) == Some(1000i64));
    assert("bytea"@ + "[]"@ =~= "bytea[]"@);
    assert(spelling_oid("bytea[]"@) == Some(1001i64));
    assert("integer"@ + "[]"@ =~= "integer[]"@);
    assert(spelling_oid("integer[]"@) == Some(1007i64));
    assert("text"@ + "[]"@ =~= "text[]"@);
    assert(spelling_oid("text[]"@) == Some(1009i64));
    assert("character"@ + "[]"@ =~= "character[]"@);
    assert(spelling_oid("character[]"@) == Some(1014i64));
    assert("character varying"@ + "[]"@ =~= "character varying[]"@);
    assert(spelling_oid("character varying[]"@) == Some(1015i64));
    assert("bigint"@ + "[]"@ =~= "bigint[]"@);
    assert(spelling_oid("bigint[]"@) == Some(1016i64));
    assert("real"@ + "[]"@ =~= "real[]"@);
    assert(spelling_oid("real[]"@) == Some(1021i64));
    assert("double precision"@ + "[]"@ =~= "double precision[]"@);
    assert(spelling_oid("double precision[]"@) == Some(1022i64));
    assert("timestamp without time zone"@ + "[]"@ =~= "timestamp without time zone[]"@);
    assert(spelling_oid("timestamp without time zone[]"@) == Some(1115i64));
    assert("date"@ + "[]"@ =~= "date[]"@);
    assert(spelling_oid("date[]"@) == Some(1182i64));
    assert("time without time zone"@ + "[]"@ =~= "time without time zone[]"@);
    assert(spelling_oid("time without time zone[]"@) == Some(1183i64));
    assert("timestamp with time zone"@ + "[]"@ =~= "timestamp with time zone[]"@);
    assert(spelling_oid("timestamp with time zone[]"@) == Some(1185i64));
    assert("interval"@ + "[]"@ =~= "interval[]"@);
    assert(spelling_oid("interval[]"@) == Some(1187i64));
    assert("numeric"@ + "[]"@ =~= "numeric[]"@);
    assert(spelling_oid("numeric[]"@) == Some(1231i64));
    assert("uuid"@ + "[]"@ =~= "uuid[]"@);
    assert(spelling_oid("uuid[]"@) == Some(2951i64));
}

#[verifier::spinoff_prover]
#[verifier::rlimit(60)]
proof fn lemma_names_are_plain(oid: i64)
    requires
        wire_type_of_oid(oid as int, -1) is Some,
    ensures
        is_plain(wire_type_of_oid(oid as int, -1)->0.spec_type_name()),
{
    reveal_strlit("boolean");
    assert(is_plain("boolean"@));
    reveal_strlit("bytea");
    assert(is_plain("bytea"@));
    reveal_strlit("bigint");
    assert(is_plain("bigint"@));
    reveal_strlit("smallint");
    assert(is_plain("smallint"@));
    reveal_strlit("int2vector");
    assert(is_plain("int2vector"@));
    reveal_strlit("integer");
    assert(is_plain("integer"@));
    reveal_strlit("text");
    assert(is_plain("text"@));
    reveal_strlit("oid");
    assert(is_plain("oid"@));
    reveal_strlit("oidvector");
    assert(is_plain("oidvector"@));
    reveal_strlit("real");
    assert(is_plain("real"@));
    reveal_strlit("double precision");
    assert(is_plain("double precision"@));
    reveal_strlit("character");
    assert(is_plain("character"@));
    reveal_strlit("character varying");
    assert(is_plain("character varying"@));
    reveal_strlit("date");
    assert(is_plain("date"@));
    reveal_strlit("time without time zone");
    assert(is_plain("time without time zone"@));
    reveal_strlit("timestamp without time zone");
    assert(is_plain("timestamp without time zone"@));
    reveal_strlit("timestamp with time zone");
    assert(is_plain("timestamp with time zone"@));
    reveal_strlit("interval");
    assert(is_plain("interval"@));
    reveal_strlit("numeric");
    assert(is_plain("numeric"@));
    reveal_strlit("uuid");
    assert(is_plain("uuid"@));
    reveal_strlit("smallint[]");
    assert(is_plain("smallint[]"@));
    reveal_strlit("oid[]");
    assert(is_plain("oid[]"@));
    reveal_strlit("boolean[]");
    assert(is_plain("boolean[]"@));
    reveal_strlit("bytea[]");
    assert(is_plain("bytea[]"@));
    reveal_strlit("integer[]");
    assert(is_plain("integer[]"@));
    reveal_strlit("text[]");
    assert(is_plain("text[]"@));
    reveal_strlit("character[]");
    assert(is_plain("character[]"@));
    reveal_strlit("character varying[]");
    assert(is_plain("character varying[]"@));
    reveal_strlit("bigint[]");
    assert(is_plain("bigint[]"@));
    reveal_strlit("real[]");
    assert(is_plain("real[]"@));
    reveal_strlit("double precision[]");
    assert(is_plain("double precision[]"@));
    reveal_strlit("timestamp without time zone[]");
    assert(is_plain("timestamp without time zone[]"@));
    reveal_strlit("date[]");
    assert(is_plain("date[]"@));
    reveal_strlit("time without time zone[]");
    assert(is_plain("time without time zone[]"@));
    reveal_strlit("timestamp with time zone[]");
    assert(is_plain("timestamp with time zone[]"@));
    reveal_strlit("interval[]");
    assert(is_plain("interval[]"@));
    reveal_strlit("numeric[]");
    assert(is_plain("numeric[]"@));
    reveal_strlit("uuid[]");
    assert(is_plain("uuid[]"@));
    reveal_strlit("[]");
    reveal_with_fuel(PgType::spec_type_name, 2);
    assert("boolean"@ + "[]"@ =~= "boolean[]"@);
    assert("bytea"@ + "[]"@ =~= "bytea[]"@);
    assert("integer"@ + "[]"@ =~= "integer[]"@);
    assert("text"@ + "[]"@ =~= "text[]"@);
    assert("character"@ + "[]"@ =~= "character[]"@);
    assert("character varying"@ + "[]"@ =~= "character varying[]"@);
    assert("bigint"@ + "[]"@ =~= "bigint[]"@);
    assert("real"@ + "[]"@ =~= "real[]"@);
    assert("double precision"@ + "[]"@ =~= "double precision[]"@);
    assert("timestamp without time zone"@ + "[]"@ =~= "timestamp without time zone[]"@);
    assert("date"@ + "[]"@ =~= "date[]"@);
    assert("time without time zone"@ + "[]"@ =~= "time without time zone[]"@);
    assert("timestamp with time zone"@ + "[]"@ =~= "timestamp with time zone[]"@);
    assert("interval"@ + "[]"@ =~= "interval[]"@);
    assert("numeric"@ + "[]"@ =~= "numeric[]"@);
    assert("uuid"@ + "[]"@ =~= "uuid[]"@);
}

proof fn lemma_lowered_together(schema: Seq<char>, name: Seq<char>)
    ensures
        text::ascii_lowered(schema + name) == text::ascii_lowered(schema) + text::ascii_lowered(
            name,
        ),
{
    assert(text::ascii_lowered(schema + name) =~= text::ascii_lowered(schema)
        + text::ascii_lowered(name));
}

/// The name of every type is read back as the OID of the type: in letters of either case,
/// alone or behind the catalog's schema, and between blanks.
pub proof fn type_names_read_back(
    oid: i64,
    before: Seq<char>,
    schema: Seq<char>,
    name: Seq<char>,
    after: Seq<char>,
)
    requires
        wire_type_of_oid(oid as int, -1) is Some,
        text::is_blank(before),
        text::is_blank(after),
        schema.len() == 0 || text::ascii_lowered(schema) == "pg_catalog."@,
        text::ascii_lowered(name) == text::ascii_lowered(
            wire_type_of_oid(oid as int, -1)->0.spec_type_name(),
        ),
    ensures
        spelling_oid(bare_spelling(before + schema + name + after)) == Some(oid),
{
    let shown = wire_type_of_oid(oid as int, -1)->0.spec_type_name();
    lemma_spellings(oid, name);
    lemma_names_are_plain(oid);
    reveal_strlit("pg_catalog.");
    assert(text::ascii_lowered(shown) =~= shown);
    let inner = schema + name;
    assert(name.len() == shown.len()) by {
        assert(text::ascii_lowered(name).len() == name.len());
    }
    assert(text::ascii_lower(name[0]) == shown[0]) by {
        assert(text::ascii_lowered(name)[0] == shown[0]);
    }
    assert(text::ascii_lower(name.last()) == shown.last()) by {
        assert(text::ascii_lowered(name)[name.len() - 1] == shown[name.len() - 1]);
    }
    if schema.len() > 0 {
        assert(text::ascii_lowered(schema)[0] == 'p');
        assert(text::ascii_lower(schema[0]) == 'p');
        assert(inner[0] == schema[0]);
        assert(text::ascii_lowered(schema).len() == schema.len());
    } else {
        assert(inner =~= name);
    }
    assert(inner.last() == name.last());
    assert(before + schema + name + after =~= before + inner + after);
    text::lemma_blanks_are_trimmed(before, inner, after);
    lemma_lowered_together(schema, name);
    let lowered = text::ascii_lowered(inner);
    if schema.len() > 0 {
        assert(lowered.take(11) =~= "pg_catalog."@);
        assert(lowered.skip(11) =~= shown);
    } else {
        assert(lowered =~= shown);
        if lowered.len() >= 11 {
            assert(lowered.take(11)[0] == shown[0]);
            assert("pg_catalog."@[0] == 'p');
        }
    }
}

/// A name behind the schema `public` is no type.
pub proof fn public_names_are_no_types(
    before: Seq<char>,
    schema: Seq<char>,
    name: Seq<char>,
    after: Seq<char>,
)
    requires
        text::is_blank(before),
        text::is_blank(after),
        text::ascii_lowered(schema) == "public."@,
        name.len() > 0 ==> !text::white_space(name.last()),
    ensures
        spelling_oid(bare_spelling(before + schema + name + after)) is None,
{
    reveal_strlit("public.");
    reveal_strlit("pg_catalog.");
    let inner = schema + name;
    assert(text::ascii_lowered(schema).len() == schema.len());
    assert(text::ascii_lowered(schema)[0] == 'p');
    assert(text::ascii_lowered(schema)[1] == 'u');
    assert(text::ascii_lowered(schema)[6] == '.');
    assert(text::ascii_lower(schema[0]) == 'p');
    assert(text::ascii_lower(schema[6]) == '.');
    assert(inner[0] == schema[0]);
    if name.len() == 0 {
        assert(inner.last() == schema[6]);
    } else {
        assert(inner.last() == name.last());
    }
    assert(before + schema + name + after =~= before + inner + after);
    text::lemma_blanks_are_trimmed(before, inner, after);
    lemma_lowered_together(schema, name);
    let lowered = text::ascii_lowered(inner);
    assert(lowered[0] == 'p');
    assert(lowered[1] == 'u');
    if lowered.len() >= 11 {
        assert(lowered.take(11)[1] == lowered[1]);
        assert("pg_catalog."@[1] == 'g');
    }
    lemma_spellings(0, lowered);
}

/// The short names of types name the same types as the long ones, and so do the names of
/// array types with an underscore before the element and with brackets behind it.
pub proof fn short_names_name_the_same_types()
    ensures
        same_type("bool"@, "boolean"@),
        same_type("int8"@, "bigint"@),
        same_type("int2"@, "smallint"@),
        same_type("int4"@, "integer"@),
        same_type("int"@, "integer"@),
        same_type("float4"@, "real"@),
        same_type("float8"@, "double precision"@),
        same_type("float"@, "double precision"@),
        same_type("bpchar"@, "character"@),
        same_type("char"@, "character"@),
        same_type("varchar"@, "character varying"@),
        same_type("time"@, "time without time zone"@),
        same_type("timestamp"@, "timestamp without time zone"@),
        same_type("timestamptz"@, "timestamp with time zone"@),
        same_type("decimal"@, "numeric"@),
        same_type("_bool"@, "boolean[]"@),
        same_type("bool[]"@, "boolean[]"@),
        same_type("_bytea"@, "bytea[]"@),
        same_type("_int2"@, "smallint[]"@),
        same_type("int2[]"@, "smallint[]"@),
        same_type("_int4"@, "integer[]"@),
        same_type("int4[]"@, "integer[]"@),
        same_type("int[]"@, "integer[]"@),
        same_type("_int8"@, "bigint[]"@),
        same_type("int8[]"@, "bigint[]"@),
        same_type("_text"@, "text[]"@),
        same_type("_oid"@, "oid[]"@),
        same_type("_bpchar"@, "character[]"@),
        same_type("char[]"@, "character[]"@),
        same_type("bpchar[]"@, "character[]"@),
        same_type("_varchar"@, "character varying[]"@),
        same_type("varchar[]"@, "character varying[]"@),
        same_type("_float4"@, "real[]"@),
        same_type("float4[]"@, "real[]"@),
        same_type("_float8"@, "double precision[]"@),
        same_type("float8[]"@, "double precision[]"@),
        same_type("float[]"@, "double precision[]"@),
        same_type("_timestamp"@, "timestamp without time zone[]"@),
        same_type("timestamp[]"@, "timestamp without time zone[]"@),
        same_type("_date"@, "date[]"@),
        same_type("_time"@, "time without time zone[]"@),
        same_type("time[]"@, "time without time zone[]"@),
        same_type("_timestamptz"@, "timestamp with time zone[]"@),
        same_type("timestamptz[]"@, "timestamp with time zone[]"@),
        same_type("_interval"@, "interval[]"@),
        same_type("_numeric"@, "numeric[]"@),
        same_type("decimal[]"@, "numeric[]"@),
        same_type("_uuid"@, "uuid[]"@),
{
    lemma_spellings(16, Seq::empty());
}

} // verus!
