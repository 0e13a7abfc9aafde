//! Bind-time signatures of the built-in functions. Errors are plan errors.

use vstd::prelude::*;

use crate::error::{self, DbError, ErrorView, Result, SqlState};
use crate::schema::DataType;
use crate::text;
use crate::value::Value;

verus! {

/// A bound argument as seen by a function's signature check: its resolved type
/// and, when the argument is a constant, the literal value. `literal` is only
/// consulted by functions that must validate a constant at bind time (currently
/// `EXTRACT`, which checks its field name).
pub struct ArgType<'a> {
    pub data_type: DataType,
    pub literal: Option<&'a Value>,
}

/// The argument rule of a built-in function, which also gives its result type.
#[derive(Clone, Copy, Debug, PartialEq, Eq, Structural)]
pub enum Signature {
    TextToText,
    Length,
    /// An integer or a double, giving that same type.
    NumericSame,
    /// Any numeric argument, widened to `DOUBLE`.
    NumericToDouble,
    /// Two numeric arguments, result `DOUBLE`.
    Power,
    /// Integer-only, as the `%` operator is.
    Mod,
    Replace,
    Position,
    TextIntegerToText,
    /// One or more texts.
    Concat,
    /// `SUBSTRING(text, start[, length])`.
    Substring,
    /// `EXTRACT(field FROM source)`, bound as `extract('field', source)`. The field
    /// literal (when constant) must name a supported component; the source must be a
    /// `DATE` or `TIMESTAMP`.
    Extract,
    NoArgsTimestamptz,
    NoArgsText,
    NoArgsInteger,
    FormatType,
    PgGetIndexdef,
    IntegerToBoolean,
    PgGetExpr,
    PgGetConstraintdef,
    IntegerToText,
    Privilege2Or3,
    Privilege3Or4,
    ObjDescription,
    TwoIntegersToText,
    TwoTextToText,
    IntegerToInteger,
    TextToInteger,
    OidOptionalBoolToText,
}

/// What a signature gives: the result type of an accepted call, or the error.
pub type Verdict = core::result::Result<DataType, ErrorView>;

/// The error for an argument of another type than expected.
pub open spec fn mismatch_error(expected: DataType, actual: DataType) -> ErrorView {
    error::plan_error(
        SqlState::DatatypeMismatch,
        "expected expression type "@ + expected.diagnostic_text() + ", got "@
            + actual.diagnostic_text(),
    )
}

/// The error for a wrong number of arguments.
pub open spec fn arity_error(name: Seq<char>, arity: nat) -> ErrorView {
    error::plan_error(
        SqlState::SyntaxError,
        "function "@ + name + " expects "@ + text::decimal_text(arity) + " argument(s)"@,
    )
}

/// The error for a wrong number of arguments to a function with optional ones.
pub open spec fn optional_arity_error(name: Seq<char>, expects: Seq<char>) -> ErrorView {
    error::plan_error(SqlState::SyntaxError, "function "@ + name + expects)
}

/// The error for an argument that is neither an integer nor a double.
pub open spec fn not_numeric_error(name: Seq<char>, actual: DataType) -> ErrorView {
    error::plan_error(
        SqlState::DatatypeMismatch,
        "function "@ + name + " requires a numeric argument, got "@ + actual.diagnostic_text(),
    )
}

/// The verdict `accepted`, unless an argument differs from its parameter type: then
/// the first such argument decides.
pub open spec fn typed(
    args: Seq<ArgType<'_>>,
    parameters: Seq<DataType>,
    start: int,
    accepted: Verdict,
) -> Verdict
    decreases args.len() - start,
{
    if start < 0 || start >= args.len() || start >= parameters.len() {
        accepted
    } else if args[start].data_type != parameters[start] {
        Err(mismatch_error(parameters[start], args[start].data_type))
    } else {
        typed(args, parameters, start + 1, accepted)
    }
}

/// The verdict on a call with exactly the given parameters.
pub open spec fn exactly(
    name: Seq<char>,
    args: Seq<ArgType<'_>>,
    parameters: Seq<DataType>,
    result: DataType,
) -> Verdict {
    if args.len() != parameters.len() {
        Err(arity_error(name, parameters.len()))
    } else {
        typed(args, parameters, 0, Ok(result))
    }
}

/// The verdict on a numeric argument: the argument's own type.
pub open spec fn numeric(name: Seq<char>, arg: ArgType<'_>) -> Verdict {
    match arg.data_type {
        DataType::Integer => Ok(DataType::Integer),
        DataType::Double => Ok(DataType::Double),
        other => Err(not_numeric_error(name, other)),
    }
}

/// The first argument, from `start` on, that is neither a text nor an integer.
pub open spec fn text_or_integer(name: Seq<char>, args: Seq<ArgType<'_>>, start: int) -> Verdict
    decreases args.len() - start,
{
    if start < 0 || start >= args.len() {
        Ok(DataType::Boolean)
    } else if args[start].data_type is Text || args[start].data_type is Integer {
        text_or_integer(name, args, start + 1)
    } else {
        Err(
            error::plan_error(
                SqlState::DatatypeMismatch,
                "function "@ + name + " requires text or integer arguments, got "@
                    + args[start].data_type.diagnostic_text(),
            ),
        )
    }
}

/// The verdict on a privilege inquiry of `least` to `most` arguments.
pub open spec fn privilege(
    name: Seq<char>,
    args: Seq<ArgType<'_>>,
    least: nat,
    most: nat,
) -> Verdict {
    if !(least <= args.len() <= most) {
        Err(
            error::plan_error(
                SqlState::SyntaxError,
                "function "@ + name + " expects "@ + text::decimal_text(least) + " to "@
                    + text::decimal_text(most) + " arguments"@,
            ),
        )
    } else {
        text_or_integer(name, args, 0)
    }
}

/// The calendar/clock components that `EXTRACT` supports.
#[derive(Clone, Copy, Debug, PartialEq, Eq, Structural)]
pub enum ExtractField {
    Year,
    Month,
    Day,
    Hour,
    Minute,
    Second,
}

impl ExtractField {
    /// The component that a field name names.
    pub open spec fn named(field: Seq<char>) -> Option<ExtractField> {
        if field == "year"@ {
            Some(ExtractField::Year)
        } else if field == "month"@ {
            Some(ExtractField::Month)
        } else if field == "day"@ {
            Some(ExtractField::Day)
        } else if field == "hour"@ {
            Some(ExtractField::Hour)
        } else if field == "minute"@ {
            Some(ExtractField::Minute)
        } else if field == "second"@ {
            Some(ExtractField::Second)
        } else {
            None
        }
    }

    pub(crate) fn parse(field: &str) -> (component: Option<Self>)
        ensures
            component == ExtractField::named(field@),
    {
        if text::same_text(field, "year") {
            Some(ExtractField::Year)
        } else if text::same_text(field, "month") {
            Some(ExtractField::Month)
        } else if text::same_text(field, "day") {
            Some(ExtractField::Day)
        } else if text::same_text(field, "hour") {
            Some(ExtractField::Hour)
        } else if text::same_text(field, "minute") {
            Some(ExtractField::Minute)
        } else if text::same_text(field, "second") {
            Some(ExtractField::Second)
        } else {
            None
        }
    }
}

/// The field name that a constant argument gives.
pub open spec fn literal_text(arg: ArgType<'_>) -> Option<Seq<char>> {
    match arg.literal {
        Some(Value::Text(text)) => Some(text@),
        _ => None,
    }
}

/// The verdict on an `EXTRACT` call.
pub open spec fn extract(name: Seq<char>, args: Seq<ArgType<'_>>) -> Verdict {
    if args.len() != 2 {
        Err(arity_error(name, 2))
    } else if args[0].data_type != DataType::Text {
        Err(mismatch_error(DataType::Text, args[0].data_type))
    } else if literal_text(args[0]) is Some && ExtractField::named(
        literal_text(args[0])->0,
    ) is None {
        Err(
            error::plan_error(
                SqlState::FeatureNotSupported,
                "EXTRACT field "@ + literal_text(args[0])->0 + " is not supported"@,
            ),
        )
    } else if !(args[1].data_type is Date || args[1].data_type is Timestamp) {
        Err(
            error::plan_error(
                SqlState::DatatypeMismatch,
                "EXTRACT requires a date or timestamp argument, got "@
                    + args[1].data_type.diagnostic_text(),
            ),
        )
    } else {
        Ok(DataType::Double)
    }
}

/// As many texts as there are arguments.
pub open spec fn all_texts(count: nat) -> Seq<DataType> {
    Seq::new(count, |i: int| DataType::Text)
}

impl Signature {
    /// The verdict on a call with the given arguments.
    pub open spec fn verdict(self, name: Seq<char>, args: Seq<ArgType<'_>>) -> Verdict {
        match self {
            Signature::TextToText => exactly(name, args, seq![DataType::Text], DataType::Text),
            Signature::Length => exactly(name, args, seq![DataType::Text], DataType::Integer),
            Signature::NumericSame => if args.len() != 1 {
                Err(arity_error(name, 1))
            } else {
                numeric(name, args[0])
            },
            Signature::NumericToDouble => if args.len() != 1 {
                Err(arity_error(name, 1))
            } else if numeric(name, args[0]) is Err {
                numeric(name, args[0])
            } else {
                Ok(DataType::Double)
            },
            Signature::Power => if args.len() != 2 {
                Err(arity_error(name, 2))
            } else if numeric(name, args[0]) is Err {
                numeric(name, args[0])
            } else if numeric(name, args[1]) is Err {
                numeric(name, args[1])
            } else {
                Ok(DataType::Double)
            },
            Signature::Mod => exactly(
                name,
                args,
                seq![DataType::Integer, DataType::Integer],
                DataType::Integer,
            ),
            Signature::Replace => exactly(
                name,
                args,
                seq![DataType::Text, DataType::Text, DataType::Text],
                DataType::Text,
            ),
            Signature::Position => exactly(
                name,
                args,
                seq![DataType::Text, DataType::Text],
                DataType::Integer,
            ),
            Signature::TextIntegerToText => exactly(
                name,
                args,
                seq![DataType::Text, DataType::Integer],
                DataType::Text,
            ),
            Signature::Concat => if args.len() == 0 {
                Err(
                    error::plan_error(
                        SqlState::SyntaxError,
                        "concat requires at least one argument"@,
                    ),
                )
            } else {
                typed(args, all_texts(args.len()), 0, Ok(DataType::Text))
            },
            Signature::Substring => if args.len() != 2 && args.len() != 3 {
                Err(
                    error::plan_error(
                        SqlState::SyntaxError,
                        "substring expects 2 or 3 arguments"@,
                    ),
                )
            } else {
                typed(
                    args,
                    seq![DataType::Text, DataType::Integer, DataType::Integer],
                    0,
                    Ok(DataType::Text),
                )
            },
            Signature::Extract => extract(name, args),
            Signature::NoArgsTimestamptz => exactly(
                name,
                args,
                Seq::<DataType>::empty(),
                DataType::TimestampTz,
            ),
            Signature::NoArgsText => exactly(name, args, Seq::<DataType>::empty(), DataType::Text),
            Signature::NoArgsInteger => exactly(
                name,
                args,
                Seq::<DataType>::empty(),
                DataType::Integer,
            ),
            Signature::FormatType => exactly(
                name,
                args,
                seq![DataType::Integer, DataType::Integer],
                DataType::Text,
            ),
            Signature::PgGetIndexdef => if args.len() != 1 && args.len() != 3 {
                Err(optional_arity_error(name, " expects 1 or 3 arguments"@))
            } else {
                typed(
                    args,
                    seq![DataType::Integer, DataType::Integer, DataType::Boolean],
                    0,
                    Ok(DataType::Text),
                )
            },
            Signature::IntegerToBoolean => exactly(
                name,
                args,
                seq![DataType::Integer],
                DataType::Boolean,
            ),
            Signature::PgGetExpr => if args.len() != 2 && args.len() != 3 {
                Err(optional_arity_error(name, " expects 2 or 3 arguments"@))
            } else {
                typed(
                    args,
                    seq![DataType::Text, DataType::Integer, DataType::Boolean],
                    0,
                    Ok(DataType::Text),
                )
            },
            Signature::PgGetConstraintdef => if args.len() != 1 && args.len() != 2 {
                Err(optional_arity_error(name, " expects 1 or 2 arguments"@))
            } else {
                typed(args, seq![DataType::Integer, DataType::Boolean], 0, Ok(DataType::Text))
            },
            Signature::IntegerToText => exactly(
                name,
                args,
                seq![DataType::Integer],
                DataType::Text,
            ),
            Signature::Privilege2Or3 => privilege(name, args, 2, 3),
            Signature::Privilege3Or4 => privilege(name, args, 3, 4),
            Signature::ObjDescription => if args.len() != 1 && args.len() != 2 {
                Err(optional_arity_error(name, " expects 1 or 2 arguments"@))
            } else {
                typed(args, seq![DataType::Integer, DataType::Text], 0, Ok(DataType::Text))
            },
            Signature::TwoIntegersToText => exactly(
                name,
                args,
                seq![DataType::Integer, DataType::Integer],
                DataType::Text,
            ),
            Signature::TwoTextToText => exactly(
                name,
                args,
                seq![DataType::Text, DataType::Text],
                DataType::Text,
            ),
            Signature::IntegerToInteger => exactly(
                name,
                args,
                seq![DataType::Integer],
                DataType::Integer,
            ),
            Signature::TextToInteger => exactly(
                name,
                args,
                seq![DataType::Text],
                DataType::Integer,
            ),
            Signature::OidOptionalBoolToText => if args.len() != 1 && args.len() != 2 {
                Err(optional_arity_error(name, " expects 1 or 2 arguments"@))
            } else {
                typed(args, seq![DataType::Integer, DataType::Boolean], 0, Ok(DataType::Text))
            },
        }
    }

    /// Validates arity and argument types and gives the result type. Nullability
    /// of the result is derived from the function's NULL policy.
    pub fn check(&self, name: &str, args: &[ArgType<'_>]) -> (result: Result<DataType>)
        ensures
            match result {
                Ok(data_type) => self.verdict(name@, args@) == Verdict::Ok(data_type),
                Err(error) => self.verdict(name@, args@) == Verdict::Err(error@),
            },
    {
        match self {
            Signature::TextToText => {
                let parameters: Vec<DataType> = vec![DataType::Text];
                assert(parameters@ == seq![DataType::Text]);
                check_exactly(name, args, parameters, DataType::Text)
            },
            Signature::Length => {
                let parameters: Vec<DataType> = vec![DataType::Text];
                assert(parameters@ == seq![DataType::Text]);
                check_exactly(name, args, parameters, DataType::Integer)
            },
            Signature::NumericSame => {
                if args.len() != 1 {
                    return Err(wrong_arity(name, 1));
                }
                numeric_arg_type(name, &args[0])
            },
            Signature::NumericToDouble => {
                if args.len() != 1 {
                    return Err(wrong_arity(name, 1));
                }
                match numeric_arg_type(name, &args[0]) {
                    Ok(_) => Ok(DataType::Double),
                    Err(error) => Err(error),
                }
            },
            Signature::Power => {
                if args.len() != 2 {
                    return Err(wrong_arity(name, 2));
                }
                if let Err(error) = numeric_arg_type(name, &args[0]) {
                    return Err(error);
                }
                match numeric_arg_type(name, &args[1]) {
                    Ok(_) => Ok(DataType::Double),
                    Err(error) => Err(error),
                }
            },
            Signature::Mod => {
                let parameters: Vec<DataType> = vec![DataType::Integer, DataType::Integer];
                assert(parameters@ == seq![DataType::Integer, DataType::Integer]);
                check_exactly(name, args, parameters, DataType::Integer)
            },
            Signature::Replace => {
                let parameters: Vec<DataType> = vec![
                    DataType::Text,
                    DataType::Text,
                    DataType::Text,
                ];
                assert(parameters@ == seq![DataType::Text, DataType::Text, DataType::Text]);
                check_exactly(name, args, parameters, DataType::Text)
            },
            Signature::Position => {
                let parameters: Vec<DataType> = vec![DataType::Text, DataType::Text];
                assert(parameters@ == seq![DataType::Text, DataType::Text]);
                check_exactly(name, args, parameters, DataType::Integer)
            },
            Signature::TextIntegerToText => {
                let parameters: Vec<DataType> = vec![DataType::Text, DataType::Integer];
                assert(parameters@ == seq![DataType::Text, DataType::Integer]);
                check_exactly(name, args, parameters, DataType::Text)
            },
            Signature::Concat => {
                if args.len() == 0 {
                    return Err(
                        DbError::plan(
                            SqlState::SyntaxError,
                            "concat requires at least one argument",
                        ),
                    );
                }
                let mut parameters: Vec<DataType> = Vec::new();
                let mut i: usize = 0;
                while i < args.len()
                    invariant
                        i <= args@.len(),
                        parameters@ == all_texts(i as nat),
                    decreases args@.len() - i,
                {
                    parameters.push(DataType::Text);
                    i += 1;
                    assert(parameters@ == all_texts(i as nat));
                }
                check_types(args, &parameters, DataType::Text)
            },
            Signature::Substring => {
                if args.len() != 2 && args.len() != 3 {
                    return Err(
                        DbError::plan(SqlState::SyntaxError, "substring expects 2 or 3 arguments"),
                    );
                }
                let parameters: Vec<DataType> = vec![
                    DataType::Text,
                    DataType::Integer,
                    DataType::Integer,
                ];
                assert(parameters@ == seq![DataType::Text, DataType::Integer, DataType::Integer]);
                check_types(args, &parameters, DataType::Text)
            },
            Signature::Extract => check_extract(name, args),
            Signature::NoArgsTimestamptz => {
                let parameters: Vec<DataType> = vec![];
                assert(parameters@ == Seq::<DataType>::empty());
                check_exactly(name, args, parameters, DataType::TimestampTz)
            },
            Signature::NoArgsText => {
                let parameters: Vec<DataType> = vec![];
                assert(parameters@ == Seq::<DataType>::empty());
                check_exactly(name, args, parameters, DataType::Text)
            },
            Signature::NoArgsInteger => {
                let parameters: Vec<DataType> = vec![];
                assert(parameters@ == Seq::<DataType>::empty());
                check_exactly(name, args, parameters, DataType::Integer)
            },
            Signature::FormatType => {
                let parameters: Vec<DataType> = vec![DataType::Integer, DataType::Integer];
                assert(parameters@ == seq![DataType::Integer, DataType::Integer]);
                check_exactly(name, args, parameters, DataType::Text)
            },
            Signature::PgGetIndexdef => {
                let parameters: Vec<DataType> = vec![
                    DataType::Integer,
                    DataType::Integer,
                    DataType::Boolean,
                ];
                assert(parameters@ == seq![
                    DataType::Integer,
                    DataType::Integer,
                    DataType::Boolean,
                ]);
                check_optional(name, args, parameters, 1, 3, " expects 1 or 3 arguments")
            },
            Signature::IntegerToBoolean => {
                let parameters: Vec<DataType> = vec![DataType::Integer];
                assert(parameters@ == seq![DataType::Integer]);
                check_exactly(name, args, parameters, DataType::Boolean)
            },
            Signature::PgGetExpr => {
                let parameters: Vec<DataType> = vec![
                    DataType::Text,
                    DataType::Integer,
                    DataType::Boolean,
                ];
                assert(parameters@ == seq![DataType::Text, DataType::Integer, DataType::Boolean]);
                check_optional(name, args, parameters, 2, 3, " expects 2 or 3 arguments")
            },
            Signature::PgGetConstraintdef => {
                let parameters: Vec<DataType> = vec![DataType::Integer, DataType::Boolean];
                assert(parameters@ == seq![DataType::Integer, DataType::Boolean]);
                check_optional(name, args, parameters, 1, 2, " expects 1 or 2 arguments")
            },
            Signature::IntegerToText => {
                let parameters: Vec<DataType> = vec![DataType::Integer];
                assert(parameters@ == seq![DataType::Integer]);
                check_exactly(name, args, parameters, DataType::Text)
            },
            Signature::Privilege2Or3 => check_privilege(name, args, 2, 3),
            Signature::Privilege3Or4 => check_privilege(name, args, 3, 4),
            Signature::ObjDescription => {
                let parameters: Vec<DataType> = vec![DataType::Integer, DataType::Text];
                assert(parameters@ == seq![DataType::Integer, DataType::Text]);
                check_optional(name, args, parameters, 1, 2, " expects 1 or 2 arguments")
            },
            Signature::TwoIntegersToText => {
                let parameters: Vec<DataType> = vec![DataType::Integer, DataType::Integer];
                assert(parameters@ == seq![DataType::Integer, DataType::Integer]);
                check_exactly(name, args, parameters, DataType::Text)
            },
            Signature::TwoTextToText => {
                let parameters: Vec<DataType> = vec![DataType::Text, DataType::Text];
                assert(parameters@ == seq![DataType::Text, DataType::Text]);
                check_exactly(name, args, parameters, DataType::Text)
            },
            Signature::IntegerToInteger => {
                let parameters: Vec<DataType> = vec![DataType::Integer];
                assert(parameters@ == seq![DataType::Integer]);
                check_exactly(name, args, parameters, DataType::Integer)
            },
            Signature::TextToInteger => {
                let parameters: Vec<DataType> = vec![DataType::Text];
                assert(parameters@ == seq![DataType::Text]);
                check_exactly(name, args, parameters, DataType::Integer)
            },
            Signature::OidOptionalBoolToText => {
                let parameters: Vec<DataType> = vec![DataType::Integer, DataType::Boolean];
                assert(parameters@ == seq![DataType::Integer, DataType::Boolean]);
                check_optional(name, args, parameters, 1, 2, " expects 1 or 2 arguments")
            },
        }
    }
}

fn wrong_arity(name: &str, arity: usize) -> (error: DbError)
    ensures
        error@ == arity_error(name@, arity as nat),
{
    let start: String = text::joined_text("function ", name, " expects ");
    let message: String = text::numbered_text(start.as_str(), arity as u128, " argument(s)");
    DbError::plan(SqlState::SyntaxError, message.as_str())
}

fn type_mismatch(expected: &DataType, actual: &DataType) -> (error: DbError)
    ensures
        error@ == mismatch_error(*expected, *actual),
{
    let expected_text: String = expected.diagnostic();
    let actual_text: String = actual.diagnostic();
    let start: String = text::joined_text(
        "expected expression type ",
        expected_text.as_str(),
        ", got ",
    );
    let message: String = text::joined_text(start.as_str(), actual_text.as_str(), "");
    proof {
        reveal_strlit("");
        assert(message@ == start@ + actual_text@);
    }
    DbError::plan(SqlState::DatatypeMismatch, message.as_str())
}

fn check_types(args: &[ArgType<'_>], parameters: &Vec<DataType>, accepted: DataType) -> (result:
    Result<DataType>)
    ensures
        match result {
            Ok(data_type) => typed(args@, parameters@, 0, Verdict::Ok(accepted)) == Verdict::Ok(
                data_type,
            ),
            Err(error) => typed(args@, parameters@, 0, Verdict::Ok(accepted)) == Verdict::Err(
                error@,
            ),
        },
{
    let mut i: usize = 0;
    while i < args.len() && i < parameters.len()
        invariant
            i <= args@.len(),
            i <= parameters@.len(),
            typed(args@, parameters@, 0, Verdict::Ok(accepted)) == typed(
                args@,
                parameters@,
                i as int,
                Verdict::Ok(accepted),
            ),
        decreases args@.len() - i,
    {
        if args[i].data_type != parameters[i] {
            return Err(type_mismatch(&parameters[i], &args[i].data_type));
        }
        i += 1;
    }
    Ok(accepted)
}

fn check_exactly(
    name: &str,
    args: &[ArgType<'_>],
    parameters: Vec<DataType>,
    accepted: DataType,
) -> (result: Result<DataType>)
    ensures
        match result {
            Ok(data_type) => exactly(name@, args@, parameters@, accepted) == Verdict::Ok(data_type),
            Err(error) => exactly(name@, args@, parameters@, accepted) == Verdict::Err(error@),
        },
{
    if args.len() != parameters.len() {
        return Err(wrong_arity(name, parameters.len()));
    }
    check_types(args, &parameters, accepted)
}

fn check_optional(
    name: &str,
    args: &[ArgType<'_>],
    parameters: Vec<DataType>,
    least: usize,
    most: usize,
    expects: &str,
) -> (result: Result<DataType>)
    ensures
        ({
            let verdict = if args@.len() != least && args@.len() != most {
                Verdict::Err(optional_arity_error(name@, expects@))
            } else {
                typed(args@, parameters@, 0, Verdict::Ok(DataType::Text))
            };
            match result {
                Ok(data_type) => verdict == Verdict::Ok(data_type),
                Err(error) => verdict == Verdict::Err(error@),
            }
        }),
{
    if args.len() != least && args.len() != most {
        let message: String = text::joined_text("function ", name, expects);
        return Err(DbError::plan(SqlState::SyntaxError, message.as_str()));
    }
    check_types(args, &parameters, DataType::Text)
}

/// The numeric type (`Integer` or `Double`) of an argument for functions that
/// accept either. Used both to validate (`SQRT`, `POWER`) and to carry the type
/// through (`ABS`, `FLOOR`, `CEIL`, `ROUND`).
fn numeric_arg_type(name: &str, arg: &ArgType<'_>) -> (result: Result<DataType>)
    ensures
        match result {
            Ok(data_type) => numeric(name@, *arg) == Verdict::Ok(data_type),
            Err(error) => numeric(name@, *arg) == Verdict::Err(error@),
        },
{
    match &arg.data_type {
        DataType::Integer => Ok(DataType::Integer),
        DataType::Double => Ok(DataType::Double),
        other => {
            let actual: String = other.diagnostic();
            let start: String = text::joined_text(
                "function ",
                name,
                " requires a numeric argument, got ",
            );
            let message: String = text::joined_text(start.as_str(), actual.as_str(), "");
            proof {
                reveal_strlit("");
                assert(message@ == start@ + actual@);
            }
            Err(DbError::plan(SqlState::DatatypeMismatch, message.as_str()))
        },
    }
}

fn check_privilege(name: &str, args: &[ArgType<'_>], least: usize, most: usize) -> (result: Result<
    DataType,
>)
    ensures
        match result {
            Ok(data_type) => privilege(name@, args@, least as nat, most as nat) == Verdict::Ok(
                data_type,
            ),
            Err(error) => privilege(name@, args@, least as nat, most as nat) == Verdict::Err(
                error@,
            ),
        },
{
    if args.len() < least || args.len() > most {
        let start: String = text::joined_text("function ", name, " expects ");
        let middle: String = text::numbered_text(start.as_str(), least as u128, " to ");
        let message: String = text::numbered_text(middle.as_str(), most as u128, " arguments");
        return Err(DbError::plan(SqlState::SyntaxError, message.as_str()));
    }
    let mut i: usize = 0;
    while i < args.len()
        invariant
            i <= args@.len(),
            text_or_integer(name@, args@, 0) == text_or_integer(name@, args@, i as int),
            privilege(name@, args@, least as nat, most as nat) == text_or_integer(name@, args@, 0),
        decreases args@.len() - i,
    {
        if !matches!(args[i].data_type, DataType::Text | DataType::Integer) {
            let actual: String = args[i].data_type.diagnostic();
            let start: String = text::joined_text(
                "function ",
                name,
                " requires text or integer arguments, got ",
            );
            let message: String = text::joined_text(start.as_str(), actual.as_str(), "");
            proof {
                reveal_strlit("");
                assert(message@ == start@ + actual@);
            }
            return Err(DbError::plan(SqlState::DatatypeMismatch, message.as_str()));
        }
        i += 1;
    }
    Ok(DataType::Boolean)
}

fn check_extract(name: &str, args: &[ArgType<'_>]) -> (result: Result<DataType>)
    ensures
        match result {
            Ok(data_type) => extract(name@, args@) == Verdict::Ok(data_type),
            Err(error) => extract(name@, args@) == Verdict::Err(error@),
        },
{
    if args.len() != 2 {
        return Err(wrong_arity(name, 2));
    }
    if args[0].data_type != DataType::Text {
        return Err(type_mismatch(&DataType::Text, &args[0].data_type));
    }
    if let Some(Value::Text(field)) = args[0].literal {
        if ExtractField::parse(field.as_str()).is_none() {
            let message: String = text::joined_text(
                "EXTRACT field ",
                field.as_str(),
                " is not supported",
            );
            return Err(DbError::plan(SqlState::FeatureNotSupported, message.as_str()));
        }
    }
    if !matches!(args[1].data_type, DataType::Date | DataType::Timestamp) {
        let actual: String = args[1].data_type.diagnostic();
        let message: String = text::joined_text(
            "EXTRACT requires a date or timestamp argument, got ",
            actual.as_str(),
            "",
        );
        proof {
            reveal_strlit("");
            assert(message@ == "EXTRACT requires a date or timestamp argument, got "@ + actual@);
        }
        return Err(DbError::plan(SqlState::DatatypeMismatch, message.as_str()));
    }
    Ok(DataType::Double)
}

} // verus!
