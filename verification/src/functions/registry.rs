//! The registry of built-in scalar functions: each function's name, NULL policy,
//! signature and evaluator.
//!
//! Sequence functions (`nextval`/`currval`/`setval`), aggregates, and the
//! NULL-folding forms `COALESCE`/`NULLIF` are *not* registered here: they have
//! their own bound representations and binding rules.

use vstd::prelude::*;

use crate::functions::catalog::{self, PgProcCatalogEntry, PgProcView};
use crate::functions::signature::{ArgType, Signature, Verdict};
use crate::ids::FunctionId;
use crate::pg_type::{self, PgType};
use crate::schema::DataType;
use crate::text;

verus! {

/// How a scalar function treats a NULL argument.
#[derive(Clone, Copy, Debug, PartialEq, Eq, Structural)]
pub enum NullHandling {
    /// A NULL argument makes the call evaluate to NULL without invoking the
    /// evaluator, and the result type is nullable when any argument is. This is the
    /// rule for almost every function.
    Propagate,
    /// A NULL argument still evaluates to NULL without invoking the evaluator, but
    /// the function may also return NULL for non-NULL inputs (for example, metadata
    /// lookups for a missing OID). The result type is always nullable.
    Nullable,
    /// The evaluator is always invoked and owns NULL semantics. The result type is
    /// always nullable. Used for compatibility functions where only some NULL
    /// arguments propagate, such as `format_type(oid, NULL)`.
    EvaluateNullable,
    /// The evaluator is always invoked (it decides how NULL is handled) and the
    /// result is never NULL, so the result type is non-nullable. Used by `CONCAT`
    /// (ignores NULL arguments) and the zero-argument system information functions.
    NeverNull,
}

/// The run-time computation of a built-in function.
#[derive(Clone, Copy, Debug, PartialEq, Eq, Structural)]
pub enum Evaluator {
    Upper,
    Lower,
    Trim,
    Length,
    Abs,
    Floor,
    Ceil,
    Round,
    Sqrt,
    Power,
    Mod,
    Replace,
    Position,
    Left,
    Right,
    Concat,
    Substring,
    Extract,
    StatementTimestamp,
    Version,
    CurrentDatabase,
    CurrentSchema,
    CurrentUser,
    PgBackendPid,
    CurrentSetting,
    FormatType,
    PgGetIndexdef,
    PgTableIsVisible,
    PgGetExpr,
    PgGetConstraintdef,
    PgGetUserbyid,
    True,
    Null,
    PgGetSerialSequence,
    Zero,
    False,
    ToRegclass,
    ToRegtype,
    PgGetFunctiondef,
    PgGetFunctionArguments,
    PgGetFunctionResult,
    PgFunctionIsVisible,
    Oidvectortypes,
}

/// One built-in scalar function: its canonical (lowercase) name, NULL policy,
/// bind-time signature check, and run-time evaluator.
#[derive(Clone, Copy, Debug)]
pub struct ScalarFunction {
    pub name: &'static str,
    pub null_handling: NullHandling,
    pub signature: Signature,
    pub eval: Evaluator,
}

/// What the registry says of a function.
pub struct FunctionView {
    pub name: Seq<char>,
    pub null_handling: NullHandling,
    pub signature: Signature,
    pub eval: Evaluator,
}

impl View for ScalarFunction {
    type V = FunctionView;

    open spec fn view(&self) -> FunctionView {
        FunctionView {
            name: self.name@,
            null_handling: self.null_handling,
            signature: self.signature,
            eval: self.eval,
        }
    }
}

impl FunctionView {
    /// Whether the result of a call can be NULL, given whether each argument can be.
    pub open spec fn result_nullable(self, arg_nullable: Seq<bool>) -> bool {
        match self.null_handling {
            NullHandling::Propagate => arg_nullable.contains(true),
            NullHandling::Nullable | NullHandling::EvaluateNullable => true,
            NullHandling::NeverNull => false,
        }
    }
}

impl ScalarFunction {
    /// The result type's nullability for a call, given whether each argument is
    /// nullable. A `Propagate` function's result is nullable when any argument is;
    /// a `NeverNull` function's result is never nullable. The binder uses this so
    /// the NULL rule lives with the function definition rather than being
    /// re-derived at the call site.
    pub fn result_nullable(&self, arg_nullable: &[bool]) -> (nullable: bool)
        ensures
            nullable == self@.result_nullable(arg_nullable@),
    {
        match self.null_handling {
            NullHandling::Propagate => {
                let mut i: usize = 0;
                while i < arg_nullable.len()
                    invariant
                        i <= arg_nullable@.len(),
                        self.null_handling == NullHandling::Propagate,
                        forall|j: int| 0 <= j < i ==> !(#[trigger] arg_nullable@[j]),
                    decreases arg_nullable@.len() - i,
                {
                    if arg_nullable[i] {
                        assert(arg_nullable@[i as int] == true);
                        return true;
                    }
                    i += 1;
                }
                false
            },
            NullHandling::Nullable | NullHandling::EvaluateNullable => true,
            NullHandling::NeverNull => false,
        }
    }

    /// Validates the arguments of a call and gives the result type.
    pub fn check_signature(&self, args: &[ArgType<'_>]) -> (result: crate::error::Result<DataType>)
        ensures
            match result {
                Ok(data_type) => self@.signature.verdict(self@.name, args@) == Verdict::Ok(
                    data_type,
                ),
                Err(error) => self@.signature.verdict(self@.name, args@) == Verdict::Err(error@),
            },
    {
        self.signature.check(self.name, args)
    }
}

/// A registered function.
pub open spec fn function(
    name: Seq<char>,
    null_handling: NullHandling,
    signature: Signature,
    eval: Evaluator,
) -> FunctionView {
    FunctionView { name, null_handling, signature, eval }
}

/// The registered function with the given name.
#[verifier::opaque]
pub open spec fn function_named(name: Seq<char>) -> Option<FunctionView> {
    if name == "upper"@ {
        Some(function(name, NullHandling::Propagate, Signature::TextToText, Evaluator::Upper))
    } else if name == "lower"@ {
        Some(function(name, NullHandling::Propagate, Signature::TextToText, Evaluator::Lower))
    } else if name == "trim"@ {
        Some(function(name, NullHandling::Propagate, Signature::TextToText, Evaluator::Trim))
    } else if name == "length"@ {
        Some(function(name, NullHandling::Propagate, Signature::Length, Evaluator::Length))
    } else if name == "abs"@ {
        Some(function(name, NullHandling::Propagate, Signature::NumericSame, Evaluator::Abs))
    } else if name == "floor"@ {
        Some(function(name, NullHandling::Propagate, Signature::NumericSame, Evaluator::Floor))
    } else if name == "ceil"@ {
        Some(function(name, NullHandling::Propagate, Signature::NumericSame, Evaluator::Ceil))
    } else if name == "ceiling"@ {
        Some(function(name, NullHandling::Propagate, Signature::NumericSame, Evaluator::Ceil))
    } else if name == "round"@ {
        Some(function(name, NullHandling::Propagate, Signature::NumericSame, Evaluator::Round))
    } else if name == "sqrt"@ {
        Some(function(name, NullHandling::Propagate, Signature::NumericToDouble, Evaluator::Sqrt))
    } else if name == "power"@ {
        Some(function(name, NullHandling::Propagate, Signature::Power, Evaluator::Power))
    } else if name == "pow"@ {
        Some(function(name, NullHandling::Propagate, Signature::Power, Evaluator::Power))
    } else if name == "mod"@ {
        Some(function(name, NullHandling::Propagate, Signature::Mod, Evaluator::Mod))
    } else if name == "replace"@ {
        Some(function(name, NullHandling::Propagate, Signature::Replace, Evaluator::Replace))
    } else if name == "position"@ {
        Some(function(name, NullHandling::Propagate, Signature::Position, Evaluator::Position))
    } else if name == "left"@ {
        Some(function(name, NullHandling::Propagate, Signature::TextIntegerToText, Evaluator::Left))
    } else if name == "right"@ {
        Some(
            function(
                name,
                NullHandling::Propagate,
                Signature::TextIntegerToText,
                Evaluator::Right,
            ),
        )
    } else if name == "concat"@ {
        Some(function(name, NullHandling::NeverNull, Signature::Concat, Evaluator::Concat))
    } else if name == "substring"@ {
        Some(function(name, NullHandling::Propagate, Signature::Substring, Evaluator::Substring))
    } else if name == "extract"@ {
        Some(function(name, NullHandling::Propagate, Signature::Extract, Evaluator::Extract))
    } else if name == "current_timestamp"@ {
        Some(
            function(
                name,
                NullHandling::NeverNull,
                Signature::NoArgsTimestamptz,
                Evaluator::StatementTimestamp,
            ),
        )
    } else if name == "now"@ {
        Some(
            function(
                name,
                NullHandling::NeverNull,
                Signature::NoArgsTimestamptz,
                Evaluator::StatementTimestamp,
            ),
        )
    } else if name == "version"@ {
        Some(function(name, NullHandling::NeverNull, Signature::NoArgsText, Evaluator::Version))
    } else if name == "current_database"@ {
        Some(
            function(
                name,
                NullHandling::NeverNull,
                Signature::NoArgsText,
                Evaluator::CurrentDatabase,
            ),
        )
    } else if name == "current_catalog"@ {
        Some(
            function(
                name,
                NullHandling::NeverNull,
                Signature::NoArgsText,
                Evaluator::CurrentDatabase,
            ),
        )
    } else if name == "current_schema"@ {
        Some(
            function(
                name,
                NullHandling::NeverNull,
                Signature::NoArgsText,
                Evaluator::CurrentSchema,
            ),
        )
    } else if name == "current_user"@ {
        Some(function(name, NullHandling::NeverNull, Signature::NoArgsText, Evaluator::CurrentUser))
    } else if name == "session_user"@ {
        Some(function(name, NullHandling::NeverNull, Signature::NoArgsText, Evaluator::CurrentUser))
    } else if name == "user"@ {
        Some(function(name, NullHandling::NeverNull, Signature::NoArgsText, Evaluator::CurrentUser))
    } else if name == "pg_backend_pid"@ {
        Some(
            function(
                name,
                NullHandling::NeverNull,
                Signature::NoArgsInteger,
                Evaluator::PgBackendPid,
            ),
        )
    } else if name == "current_setting"@ {
        Some(
            function(
                name,
                NullHandling::Propagate,
                Signature::TextToText,
                Evaluator::CurrentSetting,
            ),
        )
    } else if name == "format_type"@ {
        Some(
            function(
                name,
                NullHandling::EvaluateNullable,
                Signature::FormatType,
                Evaluator::FormatType,
            ),
        )
    } else if name == "pg_get_indexdef"@ {
        Some(
            function(
                name,
                NullHandling::Nullable,
                Signature::PgGetIndexdef,
                Evaluator::PgGetIndexdef,
            ),
        )
    } else if name == "pg_table_is_visible"@ {
        Some(
            function(
                name,
                NullHandling::Propagate,
                Signature::IntegerToBoolean,
                Evaluator::PgTableIsVisible,
            ),
        )
    } else if name == "pg_get_expr"@ {
        Some(function(name, NullHandling::Nullable, Signature::PgGetExpr, Evaluator::PgGetExpr))
    } else if name == "pg_get_constraintdef"@ {
        Some(
            function(
                name,
                NullHandling::Nullable,
                Signature::PgGetConstraintdef,
                Evaluator::PgGetConstraintdef,
            ),
        )
    } else if name == "pg_get_userbyid"@ {
        Some(
            function(
                name,
                NullHandling::Nullable,
                Signature::IntegerToText,
                Evaluator::PgGetUserbyid,
            ),
        )
    } else if name == "has_table_privilege"@ {
        Some(function(name, NullHandling::Propagate, Signature::Privilege2Or3, Evaluator::True))
    } else if name == "has_schema_privilege"@ {
        Some(function(name, NullHandling::Propagate, Signature::Privilege2Or3, Evaluator::True))
    } else if name == "has_database_privilege"@ {
        Some(function(name, NullHandling::Propagate, Signature::Privilege2Or3, Evaluator::True))
    } else if name == "has_column_privilege"@ {
        Some(function(name, NullHandling::Propagate, Signature::Privilege3Or4, Evaluator::True))
    } else if name == "has_sequence_privilege"@ {
        Some(function(name, NullHandling::Propagate, Signature::Privilege2Or3, Evaluator::True))
    } else if name == "has_function_privilege"@ {
        Some(function(name, NullHandling::Propagate, Signature::Privilege2Or3, Evaluator::True))
    } else if name == "has_any_column_privilege"@ {
        Some(function(name, NullHandling::Propagate, Signature::Privilege2Or3, Evaluator::True))
    } else if name == "pg_has_role"@ {
        Some(function(name, NullHandling::Propagate, Signature::Privilege2Or3, Evaluator::True))
    } else if name == "obj_description"@ {
        Some(function(name, NullHandling::Nullable, Signature::ObjDescription, Evaluator::Null))
    } else if name == "col_description"@ {
        Some(function(name, NullHandling::Nullable, Signature::TwoIntegersToText, Evaluator::Null))
    } else if name == "pg_get_serial_sequence"@ {
        Some(
            function(
                name,
                NullHandling::Nullable,
                Signature::TwoTextToText,
                Evaluator::PgGetSerialSequence,
            ),
        )
    } else if name == "pg_relation_size"@ {
        Some(function(name, NullHandling::Propagate, Signature::IntegerToInteger, Evaluator::Zero))
    } else if name == "pg_table_size"@ {
        Some(function(name, NullHandling::Propagate, Signature::IntegerToInteger, Evaluator::Zero))
    } else if name == "pg_indexes_size"@ {
        Some(function(name, NullHandling::Propagate, Signature::IntegerToInteger, Evaluator::Zero))
    } else if name == "pg_total_relation_size"@ {
        Some(function(name, NullHandling::Propagate, Signature::IntegerToInteger, Evaluator::Zero))
    } else if name == "pg_my_temp_schema"@ {
        Some(function(name, NullHandling::NeverNull, Signature::NoArgsInteger, Evaluator::Zero))
    } else if name == "pg_is_other_temp_schema"@ {
        Some(function(name, NullHandling::Propagate, Signature::IntegerToBoolean, Evaluator::False))
    } else if name == "to_regclass"@ {
        Some(
            function(
                name,
                NullHandling::Nullable,
                Signature::TextToInteger,
                Evaluator::ToRegclass,
            ),
        )
    } else if name == "to_regtype"@ {
        Some(function(name, NullHandling::Nullable, Signature::TextToInteger, Evaluator::ToRegtype))
    } else if name == "pg_get_viewdef"@ {
        Some(
            function(
                name,
                NullHandling::Nullable,
                Signature::OidOptionalBoolToText,
                Evaluator::Null,
            ),
        )
    } else if name == "pg_get_functiondef"@ {
        Some(
            function(
                name,
                NullHandling::Nullable,
                Signature::IntegerToText,
                Evaluator::PgGetFunctiondef,
            ),
        )
    } else if name == "pg_get_function_arguments"@ {
        Some(
            function(
                name,
                NullHandling::Nullable,
                Signature::IntegerToText,
                Evaluator::PgGetFunctionArguments,
            ),
        )
    } else if name == "pg_get_function_result"@ {
        Some(
            function(
                name,
                NullHandling::Nullable,
                Signature::IntegerToText,
                Evaluator::PgGetFunctionResult,
            ),
        )
    } else if name == "pg_get_triggerdef"@ {
        Some(
            function(
                name,
                NullHandling::Nullable,
                Signature::OidOptionalBoolToText,
                Evaluator::Null,
            ),
        )
    } else if name == "pg_get_ruledef"@ {
        Some(
            function(
                name,
                NullHandling::Nullable,
                Signature::OidOptionalBoolToText,
                Evaluator::Null,
            ),
        )
    } else if name == "pg_get_partkeydef"@ {
        Some(function(name, NullHandling::Nullable, Signature::IntegerToText, Evaluator::Null))
    } else if name == "pg_function_is_visible"@ {
        Some(
            function(
                name,
                NullHandling::Propagate,
                Signature::IntegerToBoolean,
                Evaluator::PgFunctionIsVisible,
            ),
        )
    } else if name == "oidvectortypes"@ {
        Some(
            function(
                name,
                NullHandling::Propagate,
                Signature::TextToText,
                Evaluator::Oidvectortypes,
            ),
        )
    } else {
        None
    }
}

fn make_function(
    name: &'static str,
    null_handling: NullHandling,
    signature: Signature,
    eval: Evaluator,
) -> (made: ScalarFunction)
    ensures
        made@ == function(name@, null_handling, signature, eval),
{
    ScalarFunction { name, null_handling, signature, eval }
}

/// Look up a scalar function by its lowercase name. Returns `None` for names that
/// are not registered built-ins.
pub fn lookup_scalar_function(name: &str) -> (found: Option<ScalarFunction>)
    ensures
        match found {
            Some(found) => function_named(name@) == Some(found@),
            None => function_named(name@) is None,
        },
{
    proof {
        reveal(function_named);
    }
    if text::same_text(name, "upper") {
        Some(
            make_function(
                "upper",
                NullHandling::Propagate,
                Signature::TextToText,
                Evaluator::Upper,
            ),
        )
    } else if text::same_text(name, "lower") {
        Some(
            make_function(
                "lower",
                NullHandling::Propagate,
                Signature::TextToText,
                Evaluator::Lower,
            ),
        )
    } else if text::same_text(name, "trim") {
        Some(make_function("trim", NullHandling::Propagate, Signature::TextToText, Evaluator::Trim))
    } else if text::same_text(name, "length") {
        Some(make_function("length", NullHandling::Propagate, Signature::Length, Evaluator::Length))
    } else if text::same_text(name, "abs") {
        Some(make_function("abs", NullHandling::Propagate, Signature::NumericSame, Evaluator::Abs))
    } else if text::same_text(name, "floor") {
        Some(
            make_function(
                "floor",
                NullHandling::Propagate,
                Signature::NumericSame,
                Evaluator::Floor,
            ),
        )
    } else if text::same_text(name, "ceil") {
        Some(
            make_function(
                "ceil",
                NullHandling::Propagate,
                Signature::NumericSame,
                Evaluator::Ceil,
            ),
        )
    } else if text::same_text(name, "ceiling") {
        Some(
            make_function(
                "ceiling",
                NullHandling::Propagate,
                Signature::NumericSame,
                Evaluator::Ceil,
            ),
        )
    } else if text::same_text(name, "round") {
        Some(
            make_function(
                "round",
                NullHandling::Propagate,
                Signature::NumericSame,
                Evaluator::Round,
            ),
        )
    } else if text::same_text(name, "sqrt") {
        Some(
            make_function(
                "sqrt",
                NullHandling::Propagate,
                Signature::NumericToDouble,
                Evaluator::Sqrt,
            ),
        )
    } else if text::same_text(name, "power") {
        Some(make_function("power", NullHandling::Propagate, Signature::Power, Evaluator::Power))
    } else if text::same_text(name, "pow") {
        Some(make_function("pow", NullHandling::Propagate, Signature::Power, Evaluator::Power))
    } else if text::same_text(name, "mod") {
        Some(make_function("mod", NullHandling::Propagate, Signature::Mod, Evaluator::Mod))
    } else if text::same_text(name, "replace") {
        Some(
            make_function(
                "replace",
                NullHandling::Propagate,
                Signature::Replace,
                Evaluator::Replace,
            ),
        )
    } else if text::same_text(name, "position") {
        Some(
            make_function(
                "position",
                NullHandling::Propagate,
                Signature::Position,
                Evaluator::Position,
            ),
        )
    } else if text::same_text(name, "left") {
        Some(
            make_function(
                "left",
                NullHandling::Propagate,
                Signature::TextIntegerToText,
                Evaluator::Left,
            ),
        )
    } else if text::same_text(name, "right") {
        Some(
            make_function(
                "right",
                NullHandling::Propagate,
                Signature::TextIntegerToText,
                Evaluator::Right,
            ),
        )
    } else if text::same_text(name, "concat") {
        Some(make_function("concat", NullHandling::NeverNull, Signature::Concat, Evaluator::Concat))
    } else if text::same_text(name, "substring") {
        Some(
            make_function(
                "substring",
                NullHandling::Propagate,
                Signature::Substring,
                Evaluator::Substring,
            ),
        )
    } else if text::same_text(name, "extract") {
        Some(
            make_function(
                "extract",
                NullHandling::Propagate,
                Signature::Extract,
                Evaluator::Extract,
            ),
        )
    } else if text::same_text(name, "current_timestamp") {
        Some(
            make_function(
                "current_timestamp",
                NullHandling::NeverNull,
                Signature::NoArgsTimestamptz,
                Evaluator::StatementTimestamp,
            ),
        )
    } else if text::same_text(name, "now") {
        Some(
            make_function(
                "now",
                NullHandling::NeverNull,
                Signature::NoArgsTimestamptz,
                Evaluator::StatementTimestamp,
            ),
        )
    } else if text::same_text(name, "version") {
        Some(
            make_function(
                "version",
                NullHandling::NeverNull,
                Signature::NoArgsText,
                Evaluator::Version,
            ),
        )
    } else if text::same_text(name, "current_database") {
        Some(
            make_function(
                "current_database",
                NullHandling::NeverNull,
                Signature::NoArgsText,
                Evaluator::CurrentDatabase,
            ),
        )
    } else if text::same_text(name, "current_catalog") {
        Some(
            make_function(
                "current_catalog",
                NullHandling::NeverNull,
                Signature::NoArgsText,
                Evaluator::CurrentDatabase,
            ),
        )
    } else if text::same_text(name, "current_schema") {
        Some(
            make_function(
                "current_schema",
                NullHandling::NeverNull,
                Signature::NoArgsText,
                Evaluator::CurrentSchema,
            ),
        )
    } else if text::same_text(name, "current_user") {
        Some(
            make_function(
                "current_user",
                NullHandling::NeverNull,
                Signature::NoArgsText,
                Evaluator::CurrentUser,
            ),
        )
    } else if text::same_text(name, "session_user") {
        Some(
            make_function(
                "session_user",
                NullHandling::NeverNull,
                Signature::NoArgsText,
                Evaluator::CurrentUser,
            ),
        )
    } else if text::same_text(name, "user") {
        Some(
            make_function(
                "user",
                NullHandling::NeverNull,
                Signature::NoArgsText,
                Evaluator::CurrentUser,
            ),
        )
    } else if text::same_text(name, "pg_backend_pid") {
        Some(
            make_function(
                "pg_backend_pid",
                NullHandling::NeverNull,
                Signature::NoArgsInteger,
                Evaluator::PgBackendPid,
            ),
        )
    } else if text::same_text(name, "current_setting") {
        Some(
            make_function(
                "current_setting",
                NullHandling::Propagate,
                Signature::TextToText,
                Evaluator::CurrentSetting,
            ),
        )
    } else if text::same_text(name, "format_type") {
        Some(
            make_function(
                "format_type",
                NullHandling::EvaluateNullable,
                Signature::FormatType,
                Evaluator::FormatType,
            ),
        )
    } else if text::same_text(name, "pg_get_indexdef") {
        Some(
            make_function(
                "pg_get_indexdef",
                NullHandling::Nullable,
                Signature::PgGetIndexdef,
                Evaluator::PgGetIndexdef,
            ),
        )
    } else if text::same_text(name, "pg_table_is_visible") {
        Some(
            make_function(
                "pg_table_is_visible",
                NullHandling::Propagate,
                Signature::IntegerToBoolean,
                Evaluator::PgTableIsVisible,
            ),
        )
    } else if text::same_text(name, "pg_get_expr") {
        Some(
            make_function(
                "pg_get_expr",
                NullHandling::Nullable,
                Signature::PgGetExpr,
                Evaluator::PgGetExpr,
            ),
        )
    } else if text::same_text(name, "pg_get_constraintdef") {
        Some(
            make_function(
                "pg_get_constraintdef",
                NullHandling::Nullable,
                Signature::PgGetConstraintdef,
                Evaluator::PgGetConstraintdef,
            ),
        )
    } else if text::same_text(name, "pg_get_userbyid") {
        Some(
            make_function(
                "pg_get_userbyid",
                NullHandling::Nullable,
                Signature::IntegerToText,
                Evaluator::PgGetUserbyid,
            ),
        )
    } else if text::same_text(name, "has_table_privilege") {
        Some(
            make_function(
                "has_table_privilege",
                NullHandling::Propagate,
                Signature::Privilege2Or3,
                Evaluator::True,
            ),
        )
    } else if text::same_text(name, "has_schema_privilege") {
        Some(
            make_function(
                "has_schema_privilege",
                NullHandling::Propagate,
                Signature::Privilege2Or3,
                Evaluator::True,
            ),
        )
    } else if text::same_text(name, "has_database_privilege") {
        Some(
            make_function(
                "has_database_privilege",
                NullHandling::Propagate,
                Signature::Privilege2Or3,
                Evaluator::True,
            ),
        )
    } else if text::same_text(name, "has_column_privilege") {
        Some(
            make_function(
                "has_column_privilege",
                NullHandling::Propagate,
                Signature::Privilege3Or4,
                Evaluator::True,
            ),
        )
    } else if text::same_text(name, "has_sequence_privilege") {
        Some(
            make_function(
                "has_sequence_privilege",
                NullHandling::Propagate,
                Signature::Privilege2Or3,
                Evaluator::True,
            ),
        )
    } else if text::same_text(name, "has_function_privilege") {
        Some(
            make_function(
                "has_function_privilege",
                NullHandling::Propagate,
                Signature::Privilege2Or3,
                Evaluator::True,
            ),
        )
    } else if text::same_text(name, "has_any_column_privilege") {
        Some(
            make_function(
                "has_any_column_privilege",
                NullHandling::Propagate,
                Signature::Privilege2Or3,
                Evaluator::True,
            ),
        )
    } else if text::same_text(name, "pg_has_role") {
        Some(
            make_function(
                "pg_has_role",
                NullHandling::Propagate,
                Signature::Privilege2Or3,
                Evaluator::True,
            ),
        )
    } else if text::same_text(name, "obj_description") {
        Some(
            make_function(
                "obj_description",
                NullHandling::Nullable,
                Signature::ObjDescription,
                Evaluator::Null,
            ),
        )
    } else if text::same_text(name, "col_description") {
        Some(
            make_function(
                "col_description",
                NullHandling::Nullable,
                Signature::TwoIntegersToText,
                Evaluator::Null,
            ),
        )
    } else if text::same_text(name, "pg_get_serial_sequence") {
        Some(
            make_function(
                "pg_get_serial_sequence",
                NullHandling::Nullable,
                Signature::TwoTextToText,
                Evaluator::PgGetSerialSequence,
            ),
        )
    } else if text::same_text(name, "pg_relation_size") {
        Some(
            make_function(
                "pg_relation_size",
                NullHandling::Propagate,
                Signature::IntegerToInteger,
                Evaluator::Zero,
            ),
        )
    } else if text::same_text(name, "pg_table_size") {
        Some(
            make_function(
                "pg_table_size",
                NullHandling::Propagate,
                Signature::IntegerToInteger,
                Evaluator::Zero,
            ),
        )
    } else if text::same_text(name, "pg_indexes_size") {
        Some(
            make_function(
                "pg_indexes_size",
                NullHandling::Propagate,
                Signature::IntegerToInteger,
                Evaluator::Zero,
            ),
        )
    } else if text::same_text(name, "pg_total_relation_size") {
        Some(
            make_function(
                "pg_total_relation_size",
                NullHandling::Propagate,
                Signature::IntegerToInteger,
                Evaluator::Zero,
            ),
        )
    } else if text::same_text(name, "pg_my_temp_schema") {
        Some(
            make_function(
                "pg_my_temp_schema",
                NullHandling::NeverNull,
                Signature::NoArgsInteger,
                Evaluator::Zero,
            ),
        )
    } else if text::same_text(name, "pg_is_other_temp_schema") {
        Some(
            make_function(
                "pg_is_other_temp_schema",
                NullHandling::Propagate,
                Signature::IntegerToBoolean,
                Evaluator::False,
            ),
        )
    } else if text::same_text(name, "to_regclass") {
        Some(
            make_function(
                "to_regclass",
                NullHandling::Nullable,
                Signature::TextToInteger,
                Evaluator::ToRegclass,
            ),
        )
    } else if text::same_text(name, "to_regtype") {
        Some(
            make_function(
                "to_regtype",
                NullHandling::Nullable,
                Signature::TextToInteger,
                Evaluator::ToRegtype,
            ),
        )
    } else if text::same_text(name, "pg_get_viewdef") {
        Some(
            make_function(
                "pg_get_viewdef",
                NullHandling::Nullable,
                Signature::OidOptionalBoolToText,
                Evaluator::Null,
            ),
        )
    } else if text::same_text(name, "pg_get_functiondef") {
        Some(
            make_function(
                "pg_get_functiondef",
                NullHandling::Nullable,
                Signature::IntegerToText,
                Evaluator::PgGetFunctiondef,
            ),
        )
    } else if text::same_text(name, "pg_get_function_arguments") {
        Some(
            make_function(
                "pg_get_function_arguments",
                NullHandling::Nullable,
                Signature::IntegerToText,
                Evaluator::PgGetFunctionArguments,
            ),
        )
    } else if text::same_text(name, "pg_get_function_result") {
        Some(
            make_function(
                "pg_get_function_result",
                NullHandling::Nullable,
                Signature::IntegerToText,
                Evaluator::PgGetFunctionResult,
            ),
        )
    } else if text::same_text(name, "pg_get_triggerdef") {
        Some(
            make_function(
                "pg_get_triggerdef",
                NullHandling::Nullable,
                Signature::OidOptionalBoolToText,
                Evaluator::Null,
            ),
        )
    } else if text::same_text(name, "pg_get_ruledef") {
        Some(
            make_function(
                "pg_get_ruledef",
                NullHandling::Nullable,
                Signature::OidOptionalBoolToText,
                Evaluator::Null,
            ),
        )
    } else if text::same_text(name, "pg_get_partkeydef") {
        Some(
            make_function(
                "pg_get_partkeydef",
                NullHandling::Nullable,
                Signature::IntegerToText,
                Evaluator::Null,
            ),
        )
    } else if text::same_text(name, "pg_function_is_visible") {
        Some(
            make_function(
                "pg_function_is_visible",
                NullHandling::Propagate,
                Signature::IntegerToBoolean,
                Evaluator::PgFunctionIsVisible,
            ),
        )
    } else if text::same_text(name, "oidvectortypes") {
        Some(
            make_function(
                "oidvectortypes",
                NullHandling::Propagate,
                Signature::TextToText,
                Evaluator::Oidvectortypes,
            ),
        )
    } else {
        None
    }
}

/// Every function in the catalog is registered, and its OID is a function id.
pub proof fn catalog_functions_are_registered(index: int)
    requires
        0 <= index < catalog::CATALOG_LEN,
    ensures
        function_named(catalog::catalog_entry(index).name) is Some,
        14_000 <= catalog::catalog_entry(index).oid < 14_110,
        pg_type::wire_type_of_oid(catalog::catalog_entry(index).ret_oid as int, -1) is Some,
{
    reveal(function_named);
    reveal(catalog::catalog_entry);
}

/// Every registered function is in the catalog.
pub proof fn registered_functions_are_in_the_catalog(name: Seq<char>)
    requires
        function_named(name) is Some,
    ensures
        exists|index: int|
            0 <= index < catalog::CATALOG_LEN && #[trigger] catalog::catalog_entry(index).name
                == name,
{
    reveal(function_named);
    reveal(catalog::catalog_entry);
    if name == "upper"@ {
        assert(catalog::catalog_entry(0).name == name);
    } else if name == "lower"@ {
        assert(catalog::catalog_entry(1).name == name);
    } else if name == "trim"@ {
        assert(catalog::catalog_entry(2).name == name);
    } else if name == "length"@ {
        assert(catalog::catalog_entry(3).name == name);
    } else if name == "abs"@ {
        assert(catalog::catalog_entry(4).name == name);
    } else if name == "floor"@ {
        assert(catalog::catalog_entry(5).name == name);
    } else if name == "ceil"@ {
        assert(catalog::catalog_entry(6).name == name);
    } else if name == "ceiling"@ {
        assert(catalog::catalog_entry(7).name == name);
    } else if name == "round"@ {
        assert(catalog::catalog_entry(8).name == name);
    } else if name == "sqrt"@ {
        assert(catalog::catalog_entry(9).name == name);
    } else if name == "power"@ {
        assert(catalog::catalog_entry(10).name == name);
    } else if name == "pow"@ {
        assert(catalog::catalog_entry(11).name == name);
    } else if name == "mod"@ {
        assert(catalog::catalog_entry(12).name == name);
    } else if name == "replace"@ {
        assert(catalog::catalog_entry(18).name == name);
    } else if name == "position"@ {
        assert(catalog::catalog_entry(19).name == name);
    } else if name == "left"@ {
        assert(catalog::catalog_entry(20).name == name);
    } else if name == "right"@ {
        assert(catalog::catalog_entry(21).name == name);
    } else if name == "concat"@ {
        assert(catalog::catalog_entry(15).name == name);
    } else if name == "substring"@ {
        assert(catalog::catalog_entry(16).name == name);
    } else if name == "extract"@ {
        assert(catalog::catalog_entry(13).name == name);
    } else if name == "current_timestamp"@ {
        assert(catalog::catalog_entry(23).name == name);
    } else if name == "now"@ {
        assert(catalog::catalog_entry(22).name == name);
    } else if name == "version"@ {
        assert(catalog::catalog_entry(24).name == name);
    } else if name == "current_database"@ {
        assert(catalog::catalog_entry(25).name == name);
    } else if name == "current_catalog"@ {
        assert(catalog::catalog_entry(26).name == name);
    } else if name == "current_schema"@ {
        assert(catalog::catalog_entry(27).name == name);
    } else if name == "current_user"@ {
        assert(catalog::catalog_entry(28).name == name);
    } else if name == "session_user"@ {
        assert(catalog::catalog_entry(29).name == name);
    } else if name == "user"@ {
        assert(catalog::catalog_entry(30).name == name);
    } else if name == "pg_backend_pid"@ {
        assert(catalog::catalog_entry(31).name == name);
    } else if name == "current_setting"@ {
        assert(catalog::catalog_entry(32).name == name);
    } else if name == "format_type"@ {
        assert(catalog::catalog_entry(33).name == name);
    } else if name == "pg_get_indexdef"@ {
        assert(catalog::catalog_entry(34).name == name);
    } else if name == "pg_table_is_visible"@ {
        assert(catalog::catalog_entry(36).name == name);
    } else if name == "pg_get_expr"@ {
        assert(catalog::catalog_entry(37).name == name);
    } else if name == "pg_get_constraintdef"@ {
        assert(catalog::catalog_entry(39).name == name);
    } else if name == "pg_get_userbyid"@ {
        assert(catalog::catalog_entry(41).name == name);
    } else if name == "has_table_privilege"@ {
        assert(catalog::catalog_entry(45).name == name);
    } else if name == "has_schema_privilege"@ {
        assert(catalog::catalog_entry(47).name == name);
    } else if name == "has_database_privilege"@ {
        assert(catalog::catalog_entry(49).name == name);
    } else if name == "has_column_privilege"@ {
        assert(catalog::catalog_entry(51).name == name);
    } else if name == "has_sequence_privilege"@ {
        assert(catalog::catalog_entry(53).name == name);
    } else if name == "has_function_privilege"@ {
        assert(catalog::catalog_entry(55).name == name);
    } else if name == "has_any_column_privilege"@ {
        assert(catalog::catalog_entry(57).name == name);
    } else if name == "pg_has_role"@ {
        assert(catalog::catalog_entry(59).name == name);
    } else if name == "obj_description"@ {
        assert(catalog::catalog_entry(61).name == name);
    } else if name == "col_description"@ {
        assert(catalog::catalog_entry(63).name == name);
    } else if name == "pg_get_serial_sequence"@ {
        assert(catalog::catalog_entry(42).name == name);
    } else if name == "pg_relation_size"@ {
        assert(catalog::catalog_entry(64).name == name);
    } else if name == "pg_table_size"@ {
        assert(catalog::catalog_entry(65).name == name);
    } else if name == "pg_indexes_size"@ {
        assert(catalog::catalog_entry(66).name == name);
    } else if name == "pg_total_relation_size"@ {
        assert(catalog::catalog_entry(67).name == name);
    } else if name == "pg_my_temp_schema"@ {
        assert(catalog::catalog_entry(68).name == name);
    } else if name == "pg_is_other_temp_schema"@ {
        assert(catalog::catalog_entry(69).name == name);
    } else if name == "to_regclass"@ {
        assert(catalog::catalog_entry(43).name == name);
    } else if name == "to_regtype"@ {
        assert(catalog::catalog_entry(44).name == name);
    } else if name == "pg_get_viewdef"@ {
        assert(catalog::catalog_entry(70).name == name);
    } else if name == "pg_get_functiondef"@ {
        assert(catalog::catalog_entry(72).name == name);
    } else if name == "pg_get_function_arguments"@ {
        assert(catalog::catalog_entry(73).name == name);
    } else if name == "pg_get_function_result"@ {
        assert(catalog::catalog_entry(74).name == name);
    } else if name == "pg_get_triggerdef"@ {
        assert(catalog::catalog_entry(75).name == name);
    } else if name == "pg_get_ruledef"@ {
        assert(catalog::catalog_entry(77).name == name);
    } else if name == "pg_get_partkeydef"@ {
        assert(catalog::catalog_entry(79).name == name);
    } else if name == "pg_function_is_visible"@ {
        assert(catalog::catalog_entry(80).name == name);
    } else if name == "oidvectortypes"@ {
        assert(catalog::catalog_entry(81).name == name);
    }
}

/// The function and the catalog entry with the given durable id.
pub open spec fn function_with_id(id: FunctionId) -> Option<(FunctionView, PgProcView)> {
    match catalog::entry_with_oid(id as i64) {
        Some(entry) => match function_named(entry.name) {
            Some(function) => Some((function, entry)),
            None => None,
        },
        None => None,
    }
}

/// Look up a registered scalar function through its durable PostgreSQL OID.
pub fn lookup_scalar_function_by_id(id: FunctionId) -> (found: Option<
    (ScalarFunction, PgProcCatalogEntry),
>)
    ensures
        match found {
            Some((function, entry)) => function_with_id(id) == Some((function@, entry@)),
            None => function_with_id(id) is None,
        },
{
    match catalog::pg_proc_catalog_entry(id as i64) {
        Some(entry) => match lookup_scalar_function(entry.name) {
            Some(function) => Some((function, entry)),
            None => None,
        },
        None => None,
    }
}

/// Whether a durable built-in id exactly describes the metadata of a call.
pub open spec fn id_matches(
    id: FunctionId,
    argument_types: Seq<DataType>,
    result_type: DataType,
    result_pg_type: Option<PgType>,
) -> bool {
    match function_with_id(id) {
        Some((function, entry)) => match pg_type::wire_type_of_oid(entry.ret_oid as int, -1) {
            Some(wire_type) => {
                &&& wire_type.refines(result_type)
                &&& result_pg_type is Some ==> result_pg_type == Some(wire_type)
                &&& entry.accepts(argument_types)
            },
            None => false,
        },
        None => false,
    }
}

/// Whether a durable built-in ID exactly describes the stored call metadata.
pub fn scalar_function_id_matches(
    id: FunctionId,
    argument_types: &[DataType],
    result_type: &DataType,
    result_pg_type: Option<&PgType>,
) -> (matches: bool)
    ensures
        matches == id_matches(
            id,
            argument_types@,
            *result_type,
            match result_pg_type {
                Some(wire_type) => Some(*wire_type),
                None => None,
            },
        ),
{
    let entry: PgProcCatalogEntry = match lookup_scalar_function_by_id(id) {
        Some((_, entry)) => entry,
        None => return false,
    };
    let entry_result: PgType = match PgType::from_oid_typmod(entry.ret_oid, -1) {
        Some(entry_result) => entry_result,
        None => return false,
    };
    if !entry_result.is_refinement_of(result_type) {
        return false;
    }
    if let Some(wire_type) = result_pg_type {
        if *wire_type != entry_result {
            return false;
        }
    }
    catalog::catalog_entry_accepts_arguments(&entry, argument_types)
}

/// Whether an overload is the one that a type-checked call resolves to.
pub open spec fn is_overload(
    entry: PgProcView,
    name: Seq<char>,
    argument_types: Seq<DataType>,
    result_type: DataType,
) -> bool {
    &&& entry.name == name
    &&& catalog::oid_has_type(entry.ret_oid as int, result_type)
    &&& entry.accepts(argument_types)
}

/// The index of the first overload, from `start` on, that a call resolves to.
pub open spec fn index_of_overload(
    name: Seq<char>,
    argument_types: Seq<DataType>,
    result_type: DataType,
    start: int,
) -> Option<int>
    decreases catalog::CATALOG_LEN - start,
{
    if start >= catalog::CATALOG_LEN {
        None
    } else if is_overload(catalog::catalog_entry(start), name, argument_types, result_type) {
        Some(start)
    } else {
        index_of_overload(name, argument_types, result_type, start + 1)
    }
}

/// Resolve the durable built-in identity for an already type-checked call.
pub fn scalar_function_id(
    name: &str,
    argument_types: &[DataType],
    result_type: &DataType,
) -> (id: Option<FunctionId>)
    ensures
        match id {
            Some(id) => index_of_overload(name@, argument_types@, *result_type, 0) is Some && id
                == catalog::catalog_entry(
                index_of_overload(name@, argument_types@, *result_type, 0)->0,
            ).oid,
            None => index_of_overload(name@, argument_types@, *result_type, 0) is None,
        },
{
    let mut i: usize = 0;
    while i < catalog::CATALOG_LEN
        invariant
            i <= catalog::CATALOG_LEN,
            index_of_overload(name@, argument_types@, *result_type, 0) == index_of_overload(
                name@,
                argument_types@,
                *result_type,
                i as int,
            ),
        decreases catalog::CATALOG_LEN - i,
    {
        let entry: PgProcCatalogEntry = catalog::pg_proc_catalog_entry_at(i);
        if text::same_text(entry.name, name) && catalog::pg_oid_has_data_type(
            entry.ret_oid,
            result_type,
        ) && catalog::catalog_entry_accepts_arguments(&entry, argument_types) {
            proof {
                catalog_functions_are_registered(i as int);
            }
            return Some(entry.oid as u32);
        }
        i += 1;
    }
    None
}

/// The overloads of a function with `arity` parameters, from index `start` on,
/// each mapped to a wire type.
pub open spec fn wire_types_of_overloads(
    name: Seq<char>,
    arity: nat,
    wire_type: spec_fn(PgProcView) -> Option<PgType>,
    start: int,
) -> Seq<PgType>
    decreases catalog::CATALOG_LEN - start,
{
    if start >= catalog::CATALOG_LEN {
        Seq::empty()
    } else {
        let rest = wire_types_of_overloads(name, arity, wire_type, start + 1);
        match wire_type_of_overload(name, arity, wire_type, start) {
            Some(candidate) => seq![candidate] + rest,
            None => rest,
        }
    }
}

/// The wire type that an overload is mapped to, if it has the name and that many
/// parameters.
pub open spec fn wire_type_of_overload(
    name: Seq<char>,
    arity: nat,
    wire_type: spec_fn(PgProcView) -> Option<PgType>,
    index: int,
) -> Option<PgType> {
    let entry = catalog::catalog_entry(index);
    if entry.name == name && entry.arg_oids.len() == arity {
        wire_type(entry)
    } else {
        None
    }
}

/// The wire type that all candidates agree on.
pub open spec fn agreed(candidates: Seq<PgType>) -> Option<PgType> {
    if candidates.len() > 0 && forall|i: int|
        0 <= i < candidates.len() ==> #[trigger] candidates[i] == candidates[0] {
        Some(candidates[0])
    } else {
        None
    }
}

/// The result type of an overload, if it refines the given semantic type.
pub open spec fn result_wire_type(data_type: DataType) -> spec_fn(PgProcView) -> Option<PgType> {
    |entry: PgProcView|
        match pg_type::wire_type_of_oid(entry.ret_oid as int, -1) {
            Some(wire_type) => if wire_type.refines(data_type) {
                Some(wire_type)
            } else {
                None
            },
            None => None,
        }
}

/// The type of one parameter of an overload.
pub open spec fn parameter_wire_type(index: int) -> spec_fn(PgProcView) -> Option<PgType> {
    |entry: PgProcView|
        if index < entry.arg_oids.len() {
            pg_type::wire_type_of_oid(entry.arg_oids[index] as int, -1)
        } else {
            None
        }
}

/// The result type of one overload.
fn result_candidate(index: usize, name: &str, arity: usize, data_type: &DataType) -> (candidate:
    Option<PgType>)
    requires
        index < catalog::CATALOG_LEN,
    ensures
        candidate == wire_type_of_overload(
            name@,
            arity as nat,
            result_wire_type(*data_type),
            index as int,
        ),
{
    let entry: PgProcCatalogEntry = catalog::pg_proc_catalog_entry_at(index);
    if text::same_text(entry.name, name) && entry.arg_oids.len() == arity {
        if let Some(candidate) = PgType::from_oid_typmod(entry.ret_oid, -1) {
            if candidate.is_refinement_of(data_type) {
                return Some(candidate);
            }
        }
    }
    None
}

/// The type of one parameter of one overload.
fn parameter_candidate(index: usize, name: &str, arity: usize, parameter: usize) -> (candidate:
    Option<PgType>)
    requires
        index < catalog::CATALOG_LEN,
    ensures
        candidate == wire_type_of_overload(
            name@,
            arity as nat,
            parameter_wire_type(parameter as int),
            index as int,
        ),
{
    let entry: PgProcCatalogEntry = catalog::pg_proc_catalog_entry_at(index);
    if text::same_text(entry.name, name) && entry.arg_oids.len() == arity && parameter
        < entry.arg_oids.len() {
        PgType::from_oid_typmod(entry.arg_oids[parameter], -1)
    } else {
        None
    }
}

/// The wire type of a call's result, if every overload with that many parameters
/// and a result of the semantic type gives the same one.
pub fn scalar_function_result_pg_type(name: &str, arity: usize, data_type: &DataType) -> (found:
    Option<PgType>)
    ensures
        found == agreed(
            wire_types_of_overloads(name@, arity as nat, result_wire_type(*data_type), 0),
        ),
{
    let mut candidates: Vec<PgType> = Vec::new();
    let mut i: usize = catalog::CATALOG_LEN;
    while i > 0
        invariant
            i <= catalog::CATALOG_LEN,
            candidates@.reverse() == wire_types_of_overloads(
                name@,
                arity as nat,
                result_wire_type(*data_type),
                i as int,
            ),
        decreases i,
    {
        let ghost before = candidates@;
        i -= 1;
        if let Some(candidate) = result_candidate(i, name, arity, data_type) {
            candidates.push(candidate);
            assert(candidates@.reverse() == seq![candidate] + before.reverse());
        }
    }
    agree(candidates)
}

/// The wire type of one parameter of a function, if every overload with that many
/// parameters gives the same one.
pub fn scalar_function_arg_pg_type(name: &str, arity: usize, index: usize) -> (found: Option<
    PgType,
>)
    ensures
        found == agreed(
            wire_types_of_overloads(name@, arity as nat, parameter_wire_type(index as int), 0),
        ),
{
    let mut candidates: Vec<PgType> = Vec::new();
    let mut i: usize = catalog::CATALOG_LEN;
    while i > 0
        invariant
            i <= catalog::CATALOG_LEN,
            candidates@.reverse() == wire_types_of_overloads(
                name@,
                arity as nat,
                parameter_wire_type(index as int),
                i as int,
            ),
        decreases i,
    {
        let ghost before = candidates@;
        i -= 1;
        if let Some(candidate) = parameter_candidate(i, name, arity, index) {
            candidates.push(candidate);
            assert(candidates@.reverse() == seq![candidate] + before.reverse());
        }
    }
    agree(candidates)
}

/// The wire type that all candidates, gathered last to first, agree on.
fn agree(candidates: Vec<PgType>) -> (found: Option<PgType>)
    ensures
        found == agreed(candidates@.reverse()),
{
    let ghost forward = candidates@.reverse();
    if candidates.len() == 0 {
        return None;
    }
    let last: usize = candidates.len() - 1;
    assert(forward[0] == candidates@[last as int]);
    let mut i: usize = 0;
    while i < last
        invariant
            i <= last,
            last == candidates@.len() - 1,
            forward == candidates@.reverse(),
            forward[0] == candidates@[last as int],
            forall|j: int| 0 <= j < i ==> #[trigger] candidates@[j] == forward[0],
        decreases last - i,
    {
        if candidates[i] != candidates[last] {
            assert(forward[last - i] == candidates@[i as int]);
            return None;
        }
        i += 1;
    }
    assert forall|j: int| 0 <= j < forward.len() implies #[trigger] forward[j] == forward[0] by {
        assert(forward[j] == candidates@[last - j]);
    }
    Some(candidates[last].clone())
}

} // verus!
