//! The numbers that stand for types on the wire.

use vstd::prelude::*;

use crate::error::Result;
use crate::pg_type::{spec_array_oid, PgType};
use crate::schema::DataType;
use crate::text;

verus! {

/// A declared length is sent as a modifier four larger, and a declared precision and
/// scale as the precision in the upper and the scale in the lower sixteen bits, again
/// four larger; an array has the modifier of its elements, and every other type has none,
/// which is sent as minus one.
pub proof fn modifiers_carry_the_declaration(length: u32, precision: u32, scale: u32, other: PgType)
    requires
        length <= 0x7fff_fffb,
        1 <= precision <= 0x7ffe,
        scale <= 0xffff,
        !(other is Varchar) && !(other is Bpchar) && !(other is Numeric) && !(other is Array),
    ensures
        PgType::Varchar(Some(length)).spec_typmod() == length + 4,
        PgType::Bpchar(Some(length)).spec_typmod() == length + 4,
        ({
            let packed = (PgType::Numeric { precision: Some(precision), scale }).spec_typmod() - 4;
            packed / 0x1_0000 == precision && packed % 0x1_0000 == scale
        }),
        PgType::Varchar(None).spec_typmod() == -1,
        PgType::Bpchar(None).spec_typmod() == -1,
        (PgType::Numeric { precision: None, scale }).spec_typmod() == -1,
        other.spec_typmod() == -1,
        PgType::Array(Box::new(PgType::Varchar(Some(length)))).spec_typmod() == length + 4,
{
    reveal_with_fuel(PgType::spec_typmod, 2);
}

/// Types have the numbers and the lengths by which clients know them, whatever length,
/// precision and scale they declare; a type whose values differ in length has the length
/// minus one.
pub proof fn types_have_their_numbers(length: Option<u32>, precision: Option<u32>, scale: u32)
    ensures
        ({
            let is = |t: PgType, oid: int, size: int|
                t.spec_oid() is Some && t.spec_oid()->0 == oid && t.spec_typlen() == size;
            &&& is(PgType::Bool, 16, 1)
            &&& is(PgType::Bytea, 17, -1)
            &&& is(PgType::Int8, 20, 8)
            &&& is(PgType::Int2, 21, 2)
            &&& is(PgType::Int2Vector, 22, -1)
            &&& is(PgType::Int4, 23, 4)
            &&& is(PgType::Text, 25, -1)
            &&& is(PgType::Oid, 26, 4)
            &&& is(PgType::OidVector, 30, -1)
            &&& is(PgType::Float4, 700, 4)
            &&& is(PgType::Float8, 701, 8)
            &&& is(PgType::Bpchar(length), 1042, -1)
            &&& is(PgType::Varchar(length), 1043, -1)
            &&& is(PgType::Date, 1082, 4)
            &&& is(PgType::Time, 1083, 8)
            &&& is(PgType::Timestamp, 1114, 8)
            &&& is(PgType::Timestamptz, 1184, 8)
            &&& is(PgType::Interval, 1186, 16)
            &&& is(PgType::Numeric { precision, scale }, 1700, -1)
            &&& is(PgType::Uuid, 2950, 16)
        }),
        ({
            let is = |t: PgType, oid: int|
                {
                    let array = PgType::spec_array(t);
                    array.spec_oid() is Some && array.spec_oid()->0 == oid && array.spec_typlen()
                        == -1
                };
            &&& is(PgType::Bool, 1000)
            &&& is(PgType::Bytea, 1001)
            &&& is(PgType::Int2, 1005)
            &&& is(PgType::Int4, 1007)
            &&& is(PgType::Text, 1009)
            &&& is(PgType::Bpchar(length), 1014)
            &&& is(PgType::Varchar(length), 1015)
            &&& is(PgType::Int8, 1016)
            &&& is(PgType::Float4, 1021)
            &&& is(PgType::Float8, 1022)
            &&& is(PgType::Oid, 1028)
            &&& is(PgType::Timestamp, 1115)
            &&& is(PgType::Date, 1182)
            &&& is(PgType::Time, 1183)
            &&& is(PgType::Timestamptz, 1185)
            &&& is(PgType::Interval, 1187)
            &&& is(PgType::Numeric { precision, scale }, 1231)
            &&& is(PgType::Uuid, 2951)
        }),
{
}

/// The names of types show what they declare: the length of a character type, and the
/// precision of a numeric type and its scale unless that is zero, in parentheses; an
/// array type is named by its element type and a pair of brackets.
pub proof fn names_show_the_declaration(length: u32, precision: u32, scale: u32, element: PgType)
    ensures
        PgType::Varchar(Some(length)).spec_type_name() == "character varying("@
            + text::decimal_text(length as nat) + ")"@,
        PgType::Bpchar(Some(length)).spec_type_name() == "character("@ + text::decimal_text(
            length as nat,
        ) + ")"@,
        (PgType::Numeric { precision: Some(precision), scale: 0 }).spec_type_name() == "numeric("@
            + text::decimal_text(precision as nat) + ")"@,
        scale > 0 ==> (PgType::Numeric { precision: Some(precision), scale }).spec_type_name()
            == "numeric("@ + text::decimal_text(precision as nat) + ","@ + text::decimal_text(
            scale as nat,
        ) + ")"@,
        PgType::Array(Box::new(element)).spec_type_name() == element.spec_type_name() + "[]"@,
{
    reveal_with_fuel(PgType::spec_type_name, 2);
}

/// Of the integer types each holds what its bytes can: two of them from -32_768 to 32_767,
/// four from -2_147_483_648 to 2_147_483_647, or, for an object identifier, from zero to
/// 4_294_967_295; the other types turn no integer away.
pub proof fn narrow_integers_have_their_range(
    wire_type: &PgType,
    value: i64,
    overflow: Option<&'static str>,
)
    requires
        call_ensures(PgType::narrow_int_overflow, (wire_type, value), overflow),
    ensures
        *wire_type is Int2 ==> (overflow is None <==> -32_768 <= value <= 32_767),
        *wire_type is Int4 ==> (overflow is None <==> -2_147_483_648 <= value <= 2_147_483_647),
        *wire_type is Oid ==> (overflow is None <==> 0 <= value <= 4_294_967_295),
        !(*wire_type is Int2) && !(*wire_type is Int4) && !(*wire_type is Oid) ==> overflow is None,
        overflow is Some ==> overflow->0@ == wire_type.spec_type_name(),
{
}

/// A wire type refines the type of the values that it stands for and no other: integers
/// of every width are integers, texts of every length are texts, and numerics keep their
/// precision and scale.
pub proof fn wire_types_refine_one_type(
    length: Option<u32>,
    precision: Option<u32>,
    scale: u32,
    wire_type: PgType,
    a: DataType,
    b: DataType,
)
    ensures
        PgType::Int2.refines(DataType::Integer),
        PgType::Int4.refines(DataType::Integer),
        PgType::Int8.refines(DataType::Integer),
        PgType::Oid.refines(DataType::Integer),
        PgType::Bool.refines(DataType::Boolean),
        PgType::Float4.refines(DataType::Real),
        PgType::Float8.refines(DataType::Double),
        (PgType::Numeric { precision, scale }).refines(DataType::Numeric { precision, scale }),
        PgType::Text.refines(DataType::Text),
        PgType::Varchar(length).refines(DataType::Text),
        PgType::Bpchar(length).refines(DataType::Text),
        PgType::Bytea.refines(DataType::Bytea),
        PgType::Uuid.refines(DataType::Uuid),
        PgType::Date.refines(DataType::Date),
        PgType::Time.refines(DataType::Time),
        PgType::Timestamp.refines(DataType::Timestamp),
        PgType::Timestamptz.refines(DataType::TimestampTz),
        PgType::Interval.refines(DataType::Interval),
        wire_type.refines(a) && wire_type.refines(b) ==> a == b,
{
}

/// An array type is made of every scalar type that has one, and is the type of arrays of
/// what its element stands for.
pub proof fn array_types_are_of_their_elements(element: PgType, array: Result<PgType>)
    requires
        call_ensures(PgType::array, (element,), array),
    ensures
        element is Array || element is Int2Array || element is OidArray ==> array is Err,
        array matches Ok(made) ==> made.spec_oid() is Some && spec_array_oid(element)
            == made.spec_oid() && made.spec_type_name() == element.spec_type_name() + "[]"@,
{
    reveal_with_fuel(PgType::spec_type_name, 2);
    reveal_strlit("[]");
    reveal_strlit("smallint");
    reveal_strlit("smallint[]");
    reveal_strlit("oid");
    reveal_strlit("oid[]");
    assert("smallint"@ + "[]"@ =~= "smallint[]"@);
    assert("oid"@ + "[]"@ =~= "oid[]"@);
}

} // verus!
