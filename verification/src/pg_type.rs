//! PostgreSQL wire types.

use vstd::prelude::*;

use crate::error::{self, DbError, Result, SqlState};
use crate::schema::{ArrayType, DataType};
use crate::text;

pub mod names;
pub mod numbers;

verus! {

/// Bytes PostgreSQL adds to a type modifier before storing it in `atttypmod`
/// (`VARHDRSZ`). A `varchar(n)` reports `n + 4`; a client subtracts it back.
const VARHDRSZ: i32 = 4;

/// The PostgreSQL wire identity of a column or value: the type OID, its on-wire
/// length (`typlen`), and its type modifier (`atttypmod`), as reported in
/// `RowDescription` and `ParameterDescription`.
///
/// This is presentational metadata only. It never participates in storage,
/// comparison, or type checking - those use [`DataType`]. `PgType` exists so the
/// width, character-kind, and length distinctions that `DataType` intentionally
/// collapses (every integer to a single 64-bit type, every character type to
/// `TEXT`) are still reported accurately to clients. Deliberately has no
/// `Default`: a wire type is only meaningful relative to a `DataType`, so the
/// durable fallback is an `Option<PgType>` resolved through [`PgType::from`].
#[derive(Debug)]
pub enum PgType {
    Int2,
    Int4,
    Int8,
    Oid,
    Bool,
    Float4,
    Float8,
    Numeric { precision: Option<u32>, scale: u32 },
    Text,
    /// `varchar(n)`; `None` is unbounded `VARCHAR`.
    Varchar(Option<u32>),
    /// `char(n)` / `character(n)`; `None` is a bare `CHAR` with no length.
    Bpchar(Option<u32>),
    Bytea,
    Uuid,
    Date,
    Time,
    Timestamp,
    Timestamptz,
    Interval,
    OidVector,
    Int2Vector,
    OidArray,
    Int2Array,
    /// An array wire type. The `Int2Array` and `OidArray` variants are the
    /// durable spellings for their element types.
    Array(Box<PgType>),
}

/// The type OID of an array with the given element type.
pub open spec fn spec_array_oid(element: PgType) -> Option<i32> {
    match element {
        PgType::Bool => Some(1000),
        PgType::Bytea => Some(1001),
        PgType::Int2 => Some(1005),
        PgType::Int4 => Some(1007),
        PgType::Text => Some(1009),
        PgType::Bpchar(_) => Some(1014),
        PgType::Varchar(_) => Some(1015),
        PgType::Int8 => Some(1016),
        PgType::Float4 => Some(1021),
        PgType::Float8 => Some(1022),
        PgType::Oid => Some(1028),
        PgType::Timestamp => Some(1115),
        PgType::Date => Some(1182),
        PgType::Time => Some(1183),
        PgType::Timestamptz => Some(1185),
        PgType::Interval => Some(1187),
        PgType::Numeric { .. } => Some(1231),
        PgType::Uuid => Some(2951),
        _ => None,
    }
}

/// The declared length that a type modifier carries.
pub open spec fn typmod_length(typmod: int) -> Option<u32> {
    if typmod >= 4 {
        Some((typmod - 4) as u32)
    } else {
        None
    }
}

/// The declared precision and scale that a type modifier carries: the precision
/// in the high and the scale in the low sixteen bits of the modifier less four.
pub open spec fn typmod_numeric(typmod: int) -> (Option<u32>, u32) {
    let packed = typmod - 4;
    if packed < 0 || packed / 65536 == 0 {
        (None, 0)
    } else {
        (Some((packed / 65536) as u32), (packed % 65536) as u32)
    }
}

/// The wire type with the given type OID and modifier.
pub open spec fn wire_type_of_oid(oid: int, typmod: int) -> Option<PgType> {
    if typmod < i32::MIN || typmod > i32::MAX {
        None
    } else if oid == 16 {
        Some(PgType::Bool)
    } else if oid == 17 {
        Some(PgType::Bytea)
    } else if oid == 20 {
        Some(PgType::Int8)
    } else if oid == 21 {
        Some(PgType::Int2)
    } else if oid == 22 {
        Some(PgType::Int2Vector)
    } else if oid == 23 {
        Some(PgType::Int4)
    } else if oid == 25 {
        Some(PgType::Text)
    } else if oid == 26 {
        Some(PgType::Oid)
    } else if oid == 30 {
        Some(PgType::OidVector)
    } else if oid == 700 {
        Some(PgType::Float4)
    } else if oid == 701 {
        Some(PgType::Float8)
    } else if oid == 1005 {
        Some(PgType::Int2Array)
    } else if oid == 1000 {
        Some(PgType::Array(Box::new(PgType::Bool)))
    } else if oid == 1001 {
        Some(PgType::Array(Box::new(PgType::Bytea)))
    } else if oid == 1007 {
        Some(PgType::Array(Box::new(PgType::Int4)))
    } else if oid == 1009 {
        Some(PgType::Array(Box::new(PgType::Text)))
    } else if oid == 1014 {
        Some(PgType::Array(Box::new(PgType::Bpchar(typmod_length(typmod)))))
    } else if oid == 1015 {
        Some(PgType::Array(Box::new(PgType::Varchar(typmod_length(typmod)))))
    } else if oid == 1016 {
        Some(PgType::Array(Box::new(PgType::Int8)))
    } else if oid == 1021 {
        Some(PgType::Array(Box::new(PgType::Float4)))
    } else if oid == 1022 {
        Some(PgType::Array(Box::new(PgType::Float8)))
    } else if oid == 1028 {
        Some(PgType::OidArray)
    } else if oid == 1115 {
        Some(PgType::Array(Box::new(PgType::Timestamp)))
    } else if oid == 1182 {
        Some(PgType::Array(Box::new(PgType::Date)))
    } else if oid == 1183 {
        Some(PgType::Array(Box::new(PgType::Time)))
    } else if oid == 1185 {
        Some(PgType::Array(Box::new(PgType::Timestamptz)))
    } else if oid == 1187 {
        Some(PgType::Array(Box::new(PgType::Interval)))
    } else if oid == 1231 {
        let (precision, scale) = typmod_numeric(typmod);
        Some(PgType::Array(Box::new(PgType::Numeric { precision, scale })))
    } else if oid == 1042 {
        Some(PgType::Bpchar(typmod_length(typmod)))
    } else if oid == 1043 {
        Some(PgType::Varchar(typmod_length(typmod)))
    } else if oid == 1082 {
        Some(PgType::Date)
    } else if oid == 1083 {
        Some(PgType::Time)
    } else if oid == 1114 {
        Some(PgType::Timestamp)
    } else if oid == 1184 {
        Some(PgType::Timestamptz)
    } else if oid == 1186 {
        Some(PgType::Interval)
    } else if oid == 1700 {
        let (precision, scale) = typmod_numeric(typmod);
        Some(PgType::Numeric { precision, scale })
    } else if oid == 2950 {
        Some(PgType::Uuid)
    } else if oid == 2951 {
        Some(PgType::Array(Box::new(PgType::Uuid)))
    } else {
        None
    }
}

/// The type OID of a lower-case type spelling without its schema.
pub open spec fn spelling_oid(name: Seq<char>) -> Option<i64> {
    if name == "bool"@ || name == "boolean"@ {
        Some(16)
    } else if name == "bytea"@ {
        Some(17)
    } else if name == "int8"@ || name == "bigint"@ {
        Some(20)
    } else if name == "int2"@ || name == "smallint"@ {
        Some(21)
    } else if name == "int4"@ || name == "integer"@ || name == "int"@ {
        Some(23)
    } else if name == "text"@ {
        Some(25)
    } else if name == "oid"@ {
        Some(26)
    } else if name == "oidvector"@ {
        Some(30)
    } else if name == "int2vector"@ {
        Some(22)
    } else if name == "int2[]"@ || name == "smallint[]"@ || name == "_int2"@ {
        Some(1005)
    } else if name == "oid[]"@ || name == "_oid"@ {
        Some(1028)
    } else if name == "bool[]"@ || name == "boolean[]"@ || name == "_bool"@ {
        Some(1000)
    } else if name == "bytea[]"@ || name == "_bytea"@ {
        Some(1001)
    } else if name == "int4[]"@ || name == "integer[]"@ || name == "int[]"@ || name == "_int4"@ {
        Some(1007)
    } else if name == "text[]"@ || name == "_text"@ {
        Some(1009)
    } else if name == "bpchar[]"@ || name == "char[]"@ || name == "character[]"@
        || name == "_bpchar"@ {
        Some(1014)
    } else if name == "varchar[]"@ || name == "character varying[]"@ || name == "_varchar"@ {
        Some(1015)
    } else if name == "int8[]"@ || name == "bigint[]"@ || name == "_int8"@ {
        Some(1016)
    } else if name == "float4[]"@ || name == "real[]"@ || name == "_float4"@ {
        Some(1021)
    } else if name == "float8[]"@ || name == "double precision[]"@ || name == "float[]"@
        || name == "_float8"@ {
        Some(1022)
    } else if name == "timestamp[]"@ || name == "timestamp without time zone[]"@
        || name == "_timestamp"@ {
        Some(1115)
    } else if name == "date[]"@ || name == "_date"@ {
        Some(1182)
    } else if name == "time[]"@ || name == "time without time zone[]"@ || name == "_time"@ {
        Some(1183)
    } else if name == "timestamptz[]"@ || name == "timestamp with time zone[]"@
        || name == "_timestamptz"@ {
        Some(1185)
    } else if name == "interval[]"@ || name == "_interval"@ {
        Some(1187)
    } else if name == "numeric[]"@ || name == "decimal[]"@ || name == "_numeric"@ {
        Some(1231)
    } else if name == "uuid[]"@ || name == "_uuid"@ {
        Some(2951)
    } else if name == "float4"@ || name == "real"@ {
        Some(700)
    } else if name == "float8"@ || name == "double precision"@ || name == "float"@ {
        Some(701)
    } else if name == "bpchar"@ || name == "char"@ || name == "character"@ {
        Some(1042)
    } else if name == "varchar"@ || name == "character varying"@ {
        Some(1043)
    } else if name == "date"@ {
        Some(1082)
    } else if name == "time"@ || name == "time without time zone"@ {
        Some(1083)
    } else if name == "timestamp"@ || name == "timestamp without time zone"@ {
        Some(1114)
    } else if name == "timestamptz"@ || name == "timestamp with time zone"@ {
        Some(1184)
    } else if name == "interval"@ {
        Some(1186)
    } else if name == "numeric"@ || name == "decimal"@ {
        Some(1700)
    } else if name == "uuid"@ {
        Some(2950)
    } else {
        None
    }
}

/// A type spelling trimmed, in lower case, and without the catalog's schema.
pub open spec fn bare_spelling(name: Seq<char>) -> Seq<char> {
    let lowered = text::ascii_lowered(text::trimmed(name));
    if lowered.len() >= 11 && lowered.take(11) == "pg_catalog."@ {
        lowered.skip(11)
    } else {
        lowered
    }
}

impl PgType {
    /// Whether an array type names a scalar element type.
    pub open spec fn has_scalar_elements(self) -> bool {
        self matches PgType::Array(element) ==> !(*element is Array)
    }

    /// The type OID reported on the wire, where there is one.
    pub open spec fn spec_oid(self) -> Option<i32> {
        match self {
            PgType::Int2 => Some(21),
            PgType::Int4 => Some(23),
            PgType::Int8 => Some(20),
            PgType::Oid => Some(26),
            PgType::Bool => Some(16),
            PgType::Float4 => Some(700),
            PgType::Float8 => Some(701),
            PgType::Numeric { .. } => Some(1700),
            PgType::Text => Some(25),
            PgType::Varchar(_) => Some(1043),
            PgType::Bpchar(_) => Some(1042),
            PgType::Bytea => Some(17),
            PgType::Uuid => Some(2950),
            PgType::Date => Some(1082),
            PgType::Time => Some(1083),
            PgType::Timestamp => Some(1114),
            PgType::Timestamptz => Some(1184),
            PgType::Interval => Some(1186),
            PgType::OidVector => Some(30),
            PgType::Int2Vector => Some(22),
            PgType::OidArray => Some(1028),
            PgType::Int2Array => Some(1005),
            PgType::Array(element) => spec_array_oid(*element),
        }
    }

    /// The fixed on-wire byte length, or `-1`.
    pub open spec fn spec_typlen(self) -> int {
        match self {
            PgType::Bool => 1,
            PgType::Int2 => 2,
            PgType::Int4 | PgType::Oid | PgType::Float4 | PgType::Date => 4,
            PgType::Int8
            | PgType::Float8
            | PgType::Time
            | PgType::Timestamp
            | PgType::Timestamptz => 8,
            PgType::Uuid | PgType::Interval => 16,
            _ => -1,
        }
    }

    /// The type modifier, or `-1` for a type that declares none or one too large
    /// to encode. An array has the modifier of its elements.
    pub open spec fn spec_typmod(self) -> int
        decreases self,
    {
        match self {
            PgType::Varchar(Some(length)) | PgType::Bpchar(Some(length)) => if length + 4
                <= i32::MAX {
                length + 4
            } else {
                -1
            },
            PgType::Numeric { precision: Some(precision), scale } => if precision <= u16::MAX
                && scale <= u16::MAX && precision * 65536 + scale + 4 <= i32::MAX {
                precision * 65536 + scale + 4
            } else {
                -1
            },
            PgType::Array(element) => element.spec_typmod(),
            _ => -1,
        }
    }

    /// The semantic type that the wire type refines.
    pub open spec fn spec_data_type(self) -> DataType
        decreases self,
    {
        match self {
            PgType::Int2 | PgType::Int4 | PgType::Int8 | PgType::Oid => DataType::Integer,
            PgType::Bool => DataType::Boolean,
            PgType::Float4 => DataType::Real,
            PgType::Float8 => DataType::Double,
            PgType::Numeric { precision, scale } => DataType::Numeric { precision, scale },
            PgType::Text
            | PgType::Varchar(_)
            | PgType::Bpchar(_)
            | PgType::OidVector
            | PgType::Int2Vector
            | PgType::OidArray
            | PgType::Int2Array => DataType::Text,
            PgType::Array(element) => DataType::Array(ArrayType::of(element.spec_data_type())),
            PgType::Bytea => DataType::Bytea,
            PgType::Uuid => DataType::Uuid,
            PgType::Date => DataType::Date,
            PgType::Time => DataType::Time,
            PgType::Timestamp => DataType::Timestamp,
            PgType::Timestamptz => DataType::TimestampTz,
            PgType::Interval => DataType::Interval,
        }
    }

    /// The wire type of a scalar type without a declared label.
    pub open spec fn of_scalar(data_type: DataType) -> PgType {
        match data_type {
            DataType::Integer => PgType::Int8,
            DataType::Text => PgType::Text,
            DataType::Boolean => PgType::Bool,
            DataType::Date => PgType::Date,
            DataType::Timestamp => PgType::Timestamp,
            DataType::Time => PgType::Time,
            DataType::TimestampTz => PgType::Timestamptz,
            DataType::Interval => PgType::Interval,
            DataType::Bytea => PgType::Bytea,
            DataType::Uuid => PgType::Uuid,
            DataType::Double => PgType::Float8,
            DataType::Real => PgType::Float4,
            DataType::Numeric { precision, scale } => PgType::Numeric { precision, scale },
            DataType::Array(_) => arbitrary(),
        }
    }

    /// The wire type of a type without a declared label: the collapsed families
    /// report their widest form, every other type its own.
    pub open spec fn of_data_type(data_type: DataType) -> PgType {
        match data_type {
            DataType::Array(array) => PgType::Array(Box::new(PgType::of_scalar(array.element()))),
            scalar => PgType::of_scalar(scalar),
        }
    }

    /// The SQL display name of the type.
    pub open spec fn spec_type_name(self) -> Seq<char>
        decreases self,
    {
        match self {
            PgType::Int2 => "smallint"@,
            PgType::Int4 => "integer"@,
            PgType::Int8 => "bigint"@,
            PgType::Oid => "oid"@,
            PgType::Bool => "boolean"@,
            PgType::Float4 => "real"@,
            PgType::Float8 => "double precision"@,
            PgType::Text => "text"@,
            PgType::Varchar(None) => "character varying"@,
            PgType::Bpchar(None) => "character"@,
            PgType::Bytea => "bytea"@,
            PgType::Uuid => "uuid"@,
            PgType::Date => "date"@,
            PgType::Time => "time without time zone"@,
            PgType::Timestamp => "timestamp without time zone"@,
            PgType::Timestamptz => "timestamp with time zone"@,
            PgType::Interval => "interval"@,
            PgType::OidVector => "oidvector"@,
            PgType::Int2Vector => "int2vector"@,
            PgType::OidArray => "oid[]"@,
            PgType::Int2Array => "smallint[]"@,
            PgType::Numeric { precision: Some(precision), scale } => if scale == 0 {
                "numeric("@ + text::decimal_text(precision as nat) + ")"@
            } else {
                "numeric("@ + text::decimal_text(precision as nat) + ","@ + text::decimal_text(
                    scale as nat,
                ) + ")"@
            },
            PgType::Numeric { precision: None, .. } => "numeric"@,
            PgType::Varchar(Some(length)) => "character varying("@ + text::decimal_text(
                length as nat,
            ) + ")"@,
            PgType::Bpchar(Some(length)) => "character("@ + text::decimal_text(length as nat) + ")"@,
            PgType::Array(element) => element.spec_type_name() + "[]"@,
        }
    }

    /// Whether the declared parameters can be written in a type modifier.
    pub open spec fn typmod_is_encodable(self) -> bool {
        match self {
            PgType::Varchar(Some(length)) | PgType::Bpchar(Some(length)) => length + 4 <= i32::MAX,
            PgType::Numeric { precision: Some(precision), scale } => 0 < precision <= u16::MAX
                && scale <= u16::MAX && precision * 65536 + scale + 4 <= i32::MAX,
            PgType::Numeric { precision: None, scale } => scale == 0,
            _ => true,
        }
    }

    /// A client that decodes the reported OID and modifier recovers the wire type,
    /// of every scalar type and of every array that [`PgType::array`] makes.
    pub proof fn oid_and_typmod_identify_the_type(self)
        requires
            self matches PgType::Array(element) ==> spec_array_oid(*element) is Some
                && !(*element is Int2) && !(*element is Oid) && element.typmod_is_encodable(),
            self.typmod_is_encodable(),
        ensures
            self.spec_oid() is Some,
            wire_type_of_oid(self.spec_oid()->0 as int, self.spec_typmod()) == Some(self),
    {
        reveal_with_fuel(PgType::spec_typmod, 2);
    }

    /// The default wire type of a type refines that type.
    pub proof fn default_wire_type_refines(data_type: DataType)
        requires
            data_type matches DataType::Array(array) ==> !(array.element() is Array),
        ensures
            PgType::of_data_type(data_type).has_scalar_elements(),
            PgType::of_data_type(data_type).spec_data_type() == data_type,
    {
        broadcast use {ArrayType::array_type_is_its_element, ArrayType::array_type_of_element};

        reveal_with_fuel(PgType::spec_data_type, 2);
    }

    /// Decode a PostgreSQL type OID plus type modifier into the presentational
    /// wire type. Unsupported OIDs return `None`.
    pub fn from_oid_typmod(oid: i64, typmod: i64) -> (wire_type: Option<Self>)
        ensures
            wire_type == wire_type_of_oid(oid as int, typmod as int),
    {
        if typmod < i32::MIN as i64 || typmod > i32::MAX as i64 {
            return None;
        }
        let typmod: i32 = typmod as i32;
        Some(
            match oid {
                16 => PgType::Bool,
                17 => PgType::Bytea,
                20 => PgType::Int8,
                21 => PgType::Int2,
                22 => PgType::Int2Vector,
                23 => PgType::Int4,
                25 => PgType::Text,
                26 => PgType::Oid,
                30 => PgType::OidVector,
                700 => PgType::Float4,
                701 => PgType::Float8,
                1005 => PgType::Int2Array,
                1000 => PgType::Array(Box::new(PgType::Bool)),
                1001 => PgType::Array(Box::new(PgType::Bytea)),
                1007 => PgType::Array(Box::new(PgType::Int4)),
                1009 => PgType::Array(Box::new(PgType::Text)),
                1014 => PgType::Array(Box::new(PgType::Bpchar(decode_length_typmod(typmod)))),
                1015 => PgType::Array(Box::new(PgType::Varchar(decode_length_typmod(typmod)))),
                1016 => PgType::Array(Box::new(PgType::Int8)),
                1021 => PgType::Array(Box::new(PgType::Float4)),
                1022 => PgType::Array(Box::new(PgType::Float8)),
                1028 => PgType::OidArray,
                1115 => PgType::Array(Box::new(PgType::Timestamp)),
                1182 => PgType::Array(Box::new(PgType::Date)),
                1183 => PgType::Array(Box::new(PgType::Time)),
                1185 => PgType::Array(Box::new(PgType::Timestamptz)),
                1187 => PgType::Array(Box::new(PgType::Interval)),
                1231 => {
                    let (precision, scale): (Option<u32>, u32) = decode_numeric_typmod(typmod);
                    PgType::Array(Box::new(PgType::Numeric { precision, scale }))
                },
                1042 => PgType::Bpchar(decode_length_typmod(typmod)),
                1043 => PgType::Varchar(decode_length_typmod(typmod)),
                1082 => PgType::Date,
                1083 => PgType::Time,
                1114 => PgType::Timestamp,
                1184 => PgType::Timestamptz,
                1186 => PgType::Interval,
                1700 => {
                    let (precision, scale): (Option<u32>, u32) = decode_numeric_typmod(typmod);
                    PgType::Numeric { precision, scale }
                },
                2950 => PgType::Uuid,
                2951 => PgType::Array(Box::new(PgType::Uuid)),
                _ => return None,
            },
        )
    }

    /// Resolve a PostgreSQL type spelling commonly used in catalog probes to its
    /// type OID. This is intentionally limited to the exposed type set.
    pub fn oid_for_name(name: &str) -> (oid: Option<i64>)
        ensures
            oid == spelling_oid(bare_spelling(name@)),
    {
        let chars: Vec<char> = text::chars_of(name);
        let lowered: Vec<char> = text::to_ascii_lowered(text::trim(chars.as_slice()));
        proof {
            reveal_strlit("pg_catalog.");
            assert("pg_catalog."@.len() == 11);
        }
        if lowered.len() >= 11 {
            let schema: &[char] = vstd::slice::slice_subrange(lowered.as_slice(), 0, 11);
            assert(schema@ == lowered@.take(11));
            if text::chars_equal(schema, "pg_catalog.") {
                let bare: &[char] = vstd::slice::slice_subrange(
                    lowered.as_slice(),
                    11,
                    lowered.len(),
                );
                assert(bare@ == lowered@.skip(11));
                return Self::oid_for_bare_spelling(bare);
            }
        }
        Self::oid_for_bare_spelling(lowered.as_slice())
    }

    fn oid_for_bare_spelling(name: &[char]) -> (oid: Option<i64>)
        ensures
            oid == spelling_oid(name@),
    {
        if text::chars_equal(name, "bool") || text::chars_equal(name, "boolean") {
            Some(16)
        } else if text::chars_equal(name, "bytea") {
            Some(17)
        } else if text::chars_equal(name, "int8") || text::chars_equal(name, "bigint") {
            Some(20)
        } else if text::chars_equal(name, "int2") || text::chars_equal(name, "smallint") {
            Some(21)
        } else if text::chars_equal(name, "int4") || text::chars_equal(name, "integer")
            || text::chars_equal(name, "int") {
            Some(23)
        } else if text::chars_equal(name, "text") {
            Some(25)
        } else if text::chars_equal(name, "oid") {
            Some(26)
        } else if text::chars_equal(name, "oidvector") {
            Some(30)
        } else if text::chars_equal(name, "int2vector") {
            Some(22)
        } else if text::chars_equal(name, "int2[]") || text::chars_equal(name, "smallint[]")
            || text::chars_equal(name, "_int2") {
            Some(1005)
        } else if text::chars_equal(name, "oid[]") || text::chars_equal(name, "_oid") {
            Some(1028)
        } else if text::chars_equal(name, "bool[]") || text::chars_equal(name, "boolean[]")
            || text::chars_equal(name, "_bool") {
            Some(1000)
        } else if text::chars_equal(name, "bytea[]") || text::chars_equal(name, "_bytea") {
            Some(1001)
        } else if text::chars_equal(name, "int4[]") || text::chars_equal(name, "integer[]")
            || text::chars_equal(name, "int[]") || text::chars_equal(name, "_int4") {
            Some(1007)
        } else if text::chars_equal(name, "text[]") || text::chars_equal(name, "_text") {
            Some(1009)
        } else if text::chars_equal(name, "bpchar[]") || text::chars_equal(name, "char[]")
            || text::chars_equal(name, "character[]") || text::chars_equal(name, "_bpchar") {
            Some(1014)
        } else if text::chars_equal(name, "varchar[]")
            || text::chars_equal(name, "character varying[]")
            || text::chars_equal(name, "_varchar") {
            Some(1015)
        } else if text::chars_equal(name, "int8[]") || text::chars_equal(name, "bigint[]")
            || text::chars_equal(name, "_int8") {
            Some(1016)
        } else if text::chars_equal(name, "float4[]") || text::chars_equal(name, "real[]")
            || text::chars_equal(name, "_float4") {
            Some(1021)
        } else if text::chars_equal(name, "float8[]")
            || text::chars_equal(name, "double precision[]") || text::chars_equal(name, "float[]")
            || text::chars_equal(name, "_float8") {
            Some(1022)
        } else if text::chars_equal(name, "timestamp[]")
            || text::chars_equal(name, "timestamp without time zone[]")
            || text::chars_equal(name, "_timestamp") {
            Some(1115)
        } else if text::chars_equal(name, "date[]") || text::chars_equal(name, "_date") {
            Some(1182)
        } else if text::chars_equal(name, "time[]")
            || text::chars_equal(name, "time without time zone[]")
            || text::chars_equal(name, "_time") {
            Some(1183)
        } else if text::chars_equal(name, "timestamptz[]")
            || text::chars_equal(name, "timestamp with time zone[]")
            || text::chars_equal(name, "_timestamptz") {
            Some(1185)
        } else if text::chars_equal(name, "interval[]") || text::chars_equal(name, "_interval") {
            Some(1187)
        } else if text::chars_equal(name, "numeric[]") || text::chars_equal(name, "decimal[]")
            || text::chars_equal(name, "_numeric") {
            Some(1231)
        } else if text::chars_equal(name, "uuid[]") || text::chars_equal(name, "_uuid") {
            Some(2951)
        } else if text::chars_equal(name, "float4") || text::chars_equal(name, "real") {
            Some(700)
        } else if text::chars_equal(name, "float8") || text::chars_equal(name, "double precision")
            || text::chars_equal(name, "float") {
            Some(701)
        } else if text::chars_equal(name, "bpchar") || text::chars_equal(name, "char")
            || text::chars_equal(name, "character") {
            Some(1042)
        } else if text::chars_equal(name, "varchar")
            || text::chars_equal(name, "character varying") {
            Some(1043)
        } else if text::chars_equal(name, "date") {
            Some(1082)
        } else if text::chars_equal(name, "time")
            || text::chars_equal(name, "time without time zone") {
            Some(1083)
        } else if text::chars_equal(name, "timestamp")
            || text::chars_equal(name, "timestamp without time zone") {
            Some(1114)
        } else if text::chars_equal(name, "timestamptz")
            || text::chars_equal(name, "timestamp with time zone") {
            Some(1184)
        } else if text::chars_equal(name, "interval") {
            Some(1186)
        } else if text::chars_equal(name, "numeric") || text::chars_equal(name, "decimal") {
            Some(1700)
        } else if text::chars_equal(name, "uuid") {
            Some(2950)
        } else {
            None
        }
    }

    /// PostgreSQL-style SQL display name used by `format_type`.
    pub fn format_type_name(&self) -> (name: String)
        ensures
            name@ == self.spec_type_name(),
        decreases *self,
    {
        match self {
            PgType::Int2 => "smallint".to_owned(),
            PgType::Int4 => "integer".to_owned(),
            PgType::Int8 => "bigint".to_owned(),
            PgType::Oid => "oid".to_owned(),
            PgType::Bool => "boolean".to_owned(),
            PgType::Float4 => "real".to_owned(),
            PgType::Float8 => "double precision".to_owned(),
            PgType::Text => "text".to_owned(),
            PgType::Varchar(None) => "character varying".to_owned(),
            PgType::Bpchar(None) => "character".to_owned(),
            PgType::Bytea => "bytea".to_owned(),
            PgType::Uuid => "uuid".to_owned(),
            PgType::Date => "date".to_owned(),
            PgType::Time => "time without time zone".to_owned(),
            PgType::Timestamp => "timestamp without time zone".to_owned(),
            PgType::Timestamptz => "timestamp with time zone".to_owned(),
            PgType::Interval => "interval".to_owned(),
            PgType::OidVector => "oidvector".to_owned(),
            PgType::Int2Vector => "int2vector".to_owned(),
            PgType::OidArray => "oid[]".to_owned(),
            PgType::Int2Array => "smallint[]".to_owned(),
            PgType::Numeric { precision: Some(precision), scale } => {
                if *scale == 0 {
                    text::numbered_text("numeric(", *precision as u128, ")")
                } else {
                    let start: String = text::numbered_text("numeric(", *precision as u128, ",");
                    text::numbered_text(start.as_str(), *scale as u128, ")")
                }
            },
            PgType::Numeric { precision: None, .. } => "numeric".to_owned(),
            PgType::Varchar(Some(length)) => text::numbered_text(
                "character varying(",
                *length as u128,
                ")",
            ),
            PgType::Bpchar(Some(length)) => text::numbered_text("character(", *length as u128, ")"),
            PgType::Array(element) => {
                let mut name: String = element.format_type_name();
                name.append("[]");
                name
            },
        }
    }

    /// The PostgreSQL type OID reported on the wire. An array type must have a
    /// supported element type, as every array that [`PgType::array`] makes does.
    pub fn oid(&self) -> (oid: i32)
        requires
            self.spec_oid() is Some,
        ensures
            Some(oid) == self.spec_oid(),
    {
        match self {
            PgType::Int2 => 21,
            PgType::Int4 => 23,
            PgType::Int8 => 20,
            PgType::Oid => 26,
            PgType::Bool => 16,
            PgType::Float4 => 700,
            PgType::Float8 => 701,
            PgType::Numeric { .. } => 1700,
            PgType::Text => 25,
            PgType::Varchar(_) => 1043,
            PgType::Bpchar(_) => 1042,
            PgType::Bytea => 17,
            PgType::Uuid => 2950,
            PgType::Date => 1082,
            PgType::Time => 1083,
            PgType::Timestamp => 1114,
            PgType::Timestamptz => 1184,
            PgType::Interval => 1186,
            PgType::OidVector => 30,
            PgType::Int2Vector => 22,
            PgType::OidArray => 1028,
            PgType::Int2Array => 1005,
            PgType::Array(element) => array_oid(element).unwrap(),
        }
    }

    /// The fixed on-wire byte length (`typlen`), or `-1` for a variable-length type.
    pub fn typlen(&self) -> (length: i16)
        ensures
            length == self.spec_typlen(),
    {
        match self {
            PgType::Bool => 1,
            PgType::Int2 => 2,
            PgType::Int4 | PgType::Oid | PgType::Float4 | PgType::Date => 4,
            PgType::Int8
            | PgType::Float8
            | PgType::Time
            | PgType::Timestamp
            | PgType::Timestamptz => 8,
            PgType::Uuid | PgType::Interval => 16,
            PgType::Numeric { .. }
            | PgType::Text
            | PgType::Varchar(_)
            | PgType::Bpchar(_)
            | PgType::Bytea
            | PgType::OidVector
            | PgType::Int2Vector
            | PgType::OidArray
            | PgType::Int2Array
            | PgType::Array(_) => -1,
        }
    }

    /// The PostgreSQL type modifier (`atttypmod`), or `-1` when unconstrained.
    /// Encodes the declared length of `varchar(n)`/`char(n)` and the
    /// precision/scale of `numeric(p, s)`, matching how clients decode it. A
    /// parameter too large to encode degrades to "unconstrained".
    pub fn typmod(&self) -> (typmod: i32)
        ensures
            typmod == self.spec_typmod(),
        decreases *self,
    {
        let modifier: i64 = match self {
            PgType::Varchar(Some(len)) | PgType::Bpchar(Some(len)) => *len as i64
                + VARHDRSZ as i64,
            PgType::Numeric { precision: Some(precision), scale } => {
                if *precision > u16::MAX as u32 || *scale > u16::MAX as u32 {
                    return -1;
                }
                *precision as i64 * 65536 + *scale as i64 + VARHDRSZ as i64
            },
            PgType::Array(element) => return element.typmod(),
            _ => return -1,
        };
        if modifier <= i32::MAX as i64 {
            modifier as i32
        } else {
            -1
        }
    }

    /// The storage/semantic [`DataType`] this wire type refines. The distinctions
    /// `DataType` collapses are dropped here: every integer width maps to
    /// `Integer` and every character kind to `Text`; all other types are 1:1.
    /// This is the inverse of [`PgType::from`] on the collapsed families.
    pub fn data_type(&self) -> (data_type: DataType)
        requires
            self.has_scalar_elements(),
        ensures
            data_type == self.spec_data_type(),
        decreases *self,
    {
        match self {
            PgType::Int2 | PgType::Int4 | PgType::Int8 | PgType::Oid => DataType::Integer,
            PgType::Bool => DataType::Boolean,
            PgType::Float4 => DataType::Real,
            PgType::Float8 => DataType::Double,
            PgType::Numeric { precision, scale } => DataType::Numeric {
                precision: *precision,
                scale: *scale,
            },
            PgType::Text
            | PgType::Varchar(_)
            | PgType::Bpchar(_)
            | PgType::OidVector
            | PgType::Int2Vector
            | PgType::OidArray
            | PgType::Int2Array => DataType::Text,
            PgType::Array(element) => DataType::Array(
                ArrayType::from_validated_scalar(element.data_type()),
            ),
            PgType::Bytea => DataType::Bytea,
            PgType::Uuid => DataType::Uuid,
            PgType::Date => DataType::Date,
            PgType::Time => DataType::Time,
            PgType::Timestamp => DataType::Timestamp,
            PgType::Timestamptz => DataType::TimestampTz,
            PgType::Interval => DataType::Interval,
        }
    }

    /// Whether the wire type is one that refines `data_type`. An array of arrays
    /// refines nothing.
    pub open spec fn refines(self, data_type: DataType) -> bool {
        self.has_scalar_elements() && self.spec_data_type() == data_type
    }

    /// Whether the wire type is one that refines `data_type`.
    pub fn is_refinement_of(&self, data_type: &DataType) -> (refines: bool)
        ensures
            refines == self.refines(*data_type),
    {
        if let PgType::Array(element) = self {
            if let PgType::Array(_) = **element {
                return false;
            }
        }
        self.data_type() == *data_type
    }

    /// If `value` does not fit this type's narrow integer width (`int2`/`int4`),
    /// the PostgreSQL type name for the range error (e.g. `"smallint"`); `None`
    /// if it fits or this is not a width-narrowed integer. The single 64-bit
    /// integer storage is not itself range-enforced, so a write or cast into a
    /// narrowed column uses this to keep the advertised OID truthful.
    pub fn narrow_int_overflow(&self, value: i64) -> (overflow: Option<&'static str>)
        ensures
            match overflow {
                Some(name) => match *self {
                    PgType::Int2 => !(i16::MIN <= value <= i16::MAX) && name@ == "smallint"@,
                    PgType::Int4 => !(i32::MIN <= value <= i32::MAX) && name@ == "integer"@,
                    PgType::Oid => !(u32::MIN <= value <= u32::MAX) && name@ == "oid"@,
                    _ => false,
                },
                None => match *self {
                    PgType::Int2 => i16::MIN <= value <= i16::MAX,
                    PgType::Int4 => i32::MIN <= value <= i32::MAX,
                    PgType::Oid => u32::MIN <= value <= u32::MAX,
                    _ => true,
                },
            },
    {
        match self {
            PgType::Int2 => if value < i16::MIN as i64 || value > i16::MAX as i64 {
                Some("smallint")
            } else {
                None
            },
            PgType::Int4 => if value < i32::MIN as i64 || value > i32::MAX as i64 {
                Some("integer")
            } else {
                None
            },
            PgType::Oid => if value < 0 || value > u32::MAX as i64 {
                Some("oid")
            } else {
                None
            },
            _ => None,
        }
    }

    /// Whether a type can be the element type of an array.
    pub open spec fn can_be_element(self) -> bool {
        spec_array_oid(self) is Some
    }

    /// The array type over an element type, in its durable spelling.
    pub open spec fn spec_array(element: PgType) -> PgType {
        match element {
            PgType::Int2 => PgType::Int2Array,
            PgType::Oid => PgType::OidArray,
            other => PgType::Array(Box::new(other)),
        }
    }

    pub fn array(element: PgType) -> (array: Result<Self>)
        ensures
            match array {
                Ok(array) => element.can_be_element() && array == PgType::spec_array(element),
                Err(error) => !element.can_be_element() && error@ == error::plan_error(
                    SqlState::DatatypeMismatch,
                    if element is Array || element is Int2Array || element is OidArray {
                        "array elements cannot themselves be arrays"@
                    } else {
                        element.spec_type_name() + " cannot be used as an array element type"@
                    },
                ),
            },
    {
        if matches!(element, PgType::Array(_) | PgType::Int2Array | PgType::OidArray) {
            return Err(
                DbError::plan(
                    SqlState::DatatypeMismatch,
                    "array elements cannot themselves be arrays",
                ),
            );
        }
        if array_oid(&element).is_none() {
            let mut message: String = element.format_type_name();
            message.append(" cannot be used as an array element type");
            return Err(DbError::plan(SqlState::DatatypeMismatch, message.as_str()));
        }
        Ok(
            match element {
                PgType::Int2 => PgType::Int2Array,
                PgType::Oid => PgType::OidArray,
                other => PgType::Array(Box::new(other)),
            },
        )
    }

    fn is_same(&self, other: &Self) -> (same: bool)
        ensures
            same == (*self == *other),
        decreases *self,
    {
        match (self, other) {
            (PgType::Int2, PgType::Int2) => true,
            (PgType::Int4, PgType::Int4) => true,
            (PgType::Int8, PgType::Int8) => true,
            (PgType::Oid, PgType::Oid) => true,
            (PgType::Bool, PgType::Bool) => true,
            (PgType::Float4, PgType::Float4) => true,
            (PgType::Float8, PgType::Float8) => true,
            (PgType::Text, PgType::Text) => true,
            (PgType::Bytea, PgType::Bytea) => true,
            (PgType::Uuid, PgType::Uuid) => true,
            (PgType::Date, PgType::Date) => true,
            (PgType::Time, PgType::Time) => true,
            (PgType::Timestamp, PgType::Timestamp) => true,
            (PgType::Timestamptz, PgType::Timestamptz) => true,
            (PgType::Interval, PgType::Interval) => true,
            (PgType::OidVector, PgType::OidVector) => true,
            (PgType::Int2Vector, PgType::Int2Vector) => true,
            (PgType::OidArray, PgType::OidArray) => true,
            (PgType::Int2Array, PgType::Int2Array) => true,
            (
                PgType::Numeric { precision, scale },
                PgType::Numeric { precision: other_precision, scale: other_scale },
            ) => same_length(precision, other_precision) && *scale == *other_scale,
            (PgType::Varchar(a), PgType::Varchar(b)) => same_length(a, b),
            (PgType::Bpchar(a), PgType::Bpchar(b)) => same_length(a, b),
            (PgType::Array(a), PgType::Array(b)) => a.is_same(b),
            _ => false,
        }
    }
}

fn same_length(a: &Option<u32>, b: &Option<u32>) -> (same: bool)
    ensures
        same == (*a == *b),
{
    match (a, b) {
        (None, None) => true,
        (Some(a), Some(b)) => *a == *b,
        _ => false,
    }
}

impl Clone for PgType {
    fn clone(&self) -> (copy: Self)
        ensures
            copy == *self,
        decreases self,
    {
        match self {
            PgType::Int2 => PgType::Int2,
            PgType::Int4 => PgType::Int4,
            PgType::Int8 => PgType::Int8,
            PgType::Oid => PgType::Oid,
            PgType::Bool => PgType::Bool,
            PgType::Float4 => PgType::Float4,
            PgType::Float8 => PgType::Float8,
            PgType::Text => PgType::Text,
            PgType::Bytea => PgType::Bytea,
            PgType::Uuid => PgType::Uuid,
            PgType::Date => PgType::Date,
            PgType::Time => PgType::Time,
            PgType::Timestamp => PgType::Timestamp,
            PgType::Timestamptz => PgType::Timestamptz,
            PgType::Interval => PgType::Interval,
            PgType::OidVector => PgType::OidVector,
            PgType::Int2Vector => PgType::Int2Vector,
            PgType::OidArray => PgType::OidArray,
            PgType::Int2Array => PgType::Int2Array,
            PgType::Numeric { precision, scale } => PgType::Numeric {
                precision: *precision,
                scale: *scale,
            },
            PgType::Varchar(length) => PgType::Varchar(*length),
            PgType::Bpchar(length) => PgType::Bpchar(*length),
            PgType::Array(element) => {
                let element: PgType = (**element).clone();
                PgType::Array(Box::new(element))
            },
        }
    }
}

impl PartialEq for PgType {
    fn eq(&self, other: &Self) -> (same: bool) {
        self.is_same(other)
    }
}

impl vstd::std_specs::cmp::PartialEqSpecImpl for PgType {
    open spec fn obeys_eq_spec() -> bool {
        true
    }

    open spec fn eq_spec(&self, other: &Self) -> bool {
        *self == *other
    }
}

impl Eq for PgType {

}

fn decode_length_typmod(typmod: i32) -> (length: Option<u32>)
    ensures
        length == typmod_length(typmod as int),
{
    if typmod >= VARHDRSZ {
        Some((typmod - VARHDRSZ) as u32)
    } else {
        None
    }
}

fn decode_numeric_typmod(typmod: i32) -> (decoded: (Option<u32>, u32))
    ensures
        decoded == typmod_numeric(typmod as int),
{
    if typmod < VARHDRSZ {
        return (None, 0);
    }
    let packed: u32 = (typmod - VARHDRSZ) as u32;
    let precision: u32 = packed / 65536;
    if precision == 0 {
        return (None, 0);
    }
    (Some(precision), packed % 65536)
}

fn array_oid(element: &PgType) -> (oid: Option<i32>)
    ensures
        oid == spec_array_oid(*element),
{
    Some(
        match element {
            PgType::Bool => 1000,
            PgType::Bytea => 1001,
            PgType::Int2 => 1005,
            PgType::Int4 => 1007,
            PgType::Text => 1009,
            PgType::Bpchar(_) => 1014,
            PgType::Varchar(_) => 1015,
            PgType::Int8 => 1016,
            PgType::Float4 => 1021,
            PgType::Float8 => 1022,
            PgType::Oid => 1028,
            PgType::Timestamp => 1115,
            PgType::Date => 1182,
            PgType::Time => 1183,
            PgType::Timestamptz => 1185,
            PgType::Interval => 1187,
            PgType::Numeric { .. } => 1231,
            PgType::Uuid => 2951,
            _ => return None,
        },
    )
}

/// The wire type of a scalar type without a declared label.
fn scalar_wire_type(data_type: &DataType) -> (wire_type: PgType)
    requires
        !(*data_type is Array),
    ensures
        wire_type == PgType::of_scalar(*data_type),
{
    match data_type {
        DataType::Integer => PgType::Int8,
        DataType::Text => PgType::Text,
        DataType::Boolean => PgType::Bool,
        DataType::Date => PgType::Date,
        DataType::Timestamp => PgType::Timestamp,
        DataType::Time => PgType::Time,
        DataType::TimestampTz => PgType::Timestamptz,
        DataType::Interval => PgType::Interval,
        DataType::Bytea => PgType::Bytea,
        DataType::Uuid => PgType::Uuid,
        DataType::Double => PgType::Float8,
        DataType::Real => PgType::Float4,
        DataType::Numeric { precision, scale } => PgType::Numeric {
            precision: *precision,
            scale: *scale,
        },
        DataType::Array(_) => {
            assert(false);
            PgType::Text
        },
    }
}

/// The fallback wire type for a `DataType` with no declared label: the collapsed
/// families report their widest/most-general form (`Integer` as `int8`, `Text` as
/// `text`); every other type is 1:1.
impl From<&DataType> for PgType {
    fn from(data_type: &DataType) -> (wire_type: Self) {
        match data_type {
            DataType::Array(array) => PgType::Array(
                Box::new(scalar_wire_type(array.element_type())),
            ),
            scalar => scalar_wire_type(scalar),
        }
    }
}

impl vstd::std_specs::convert::FromSpecImpl<&DataType> for PgType {
    open spec fn obeys_from_spec() -> bool {
        true
    }

    open spec fn from_spec(data_type: &DataType) -> Self {
        PgType::of_data_type(*data_type)
    }
}

} // verus!
