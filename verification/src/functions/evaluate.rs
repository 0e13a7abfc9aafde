//! Evaluators (run time). Errors are `ErrorKind::Execute`. Arity and argument
//! types are already validated at bind time, so evaluators index arguments and
//! read their expected types directly.
//!
//! A call is computed here as far as integers, texts and the built-in tables decide
//! it. Where floating-point arithmetic, a setting of the server or its catalog is
//! needed, the evaluation names exactly what is asked for, and the caller hands the
//! answer to one of the functions that finish the call.

use vstd::prelude::*;

use crate::context::StatementContext;
use crate::datetime;
use crate::error::{self, DbError, ErrorView, Result, SqlState};
use crate::float::OrderedF64;
use crate::functions::catalog::{self, PgProcCatalogEntry, PgProcView};
use crate::functions::registry::Evaluator;
use crate::functions::signature::ExtractField;
use crate::functions::strings;
use crate::pg_type::{self, PgType};
use crate::row;
use crate::text;
use crate::value::{Value, ValueView};

verus! {

/// A numeric argument of a floating-point function.
#[derive(Clone, Copy, Debug)]
pub enum FloatOperand {
    /// An integer, to be converted.
    Integer(i64),
    Double(OrderedF64),
}

/// A floating-point computation.
#[derive(Clone, Copy, Debug)]
pub enum FloatCall {
    /// The greatest integral number that is not greater.
    Floor(OrderedF64),
    /// The least integral number that is not less.
    Ceil(OrderedF64),
    /// The nearest integral number, halves to the even one.
    Round(OrderedF64),
    /// The square root of a number that is not negative.
    Sqrt(FloatOperand),
    /// A power; [`finish_power`] takes the result.
    Power(FloatOperand, FloatOperand),
    /// A whole number and millionths.
    Component { whole: i64, micros: i64 },
}

/// A question to the catalog of the server.
#[derive(Clone, Debug)]
pub enum CatalogQuery {
    IndexDef { index_oid: i64, column: Option<i64>, pretty: bool },
    ConstraintDef { constraint_oid: i64, pretty: bool },
    Expr { expr: String, relation_oid: i64, pretty: bool },
    UserById(i64),
    TableIsVisible(i64),
    RegClass(String),
    SerialSequence { table: String, column: String },
}

/// What a call of a built-in function comes to.
#[derive(Debug)]
pub enum Evaluation {
    /// The result.
    Done(Value),
    /// The result is the double that this computation gives.
    Float(FloatCall),
    /// [`finish_setting`] makes the result from the setting with this name.
    Setting(String),
    /// The answer is the result: [`text_or_null`] or [`integer_or_null`] of it, or the
    /// boolean itself.
    Catalog(CatalogQuery),
}

/// What a question to the catalog holds.
pub enum CatalogQueryView {
    IndexDef { index_oid: i64, column: Option<i64>, pretty: bool },
    ConstraintDef { constraint_oid: i64, pretty: bool },
    Expr { expr: Seq<char>, relation_oid: i64, pretty: bool },
    UserById(i64),
    TableIsVisible(i64),
    RegClass(Seq<char>),
    SerialSequence { table: Seq<char>, column: Seq<char> },
}

impl View for CatalogQuery {
    type V = CatalogQueryView;

    open spec fn view(&self) -> CatalogQueryView {
        match *self {
            CatalogQuery::IndexDef { index_oid, column, pretty } => CatalogQueryView::IndexDef {
                index_oid,
                column,
                pretty,
            },
            CatalogQuery::ConstraintDef { constraint_oid, pretty } =>
            CatalogQueryView::ConstraintDef { constraint_oid, pretty },
            CatalogQuery::Expr { expr, relation_oid, pretty } => CatalogQueryView::Expr {
                expr: expr@,
                relation_oid,
                pretty,
            },
            CatalogQuery::UserById(oid) => CatalogQueryView::UserById(oid),
            CatalogQuery::TableIsVisible(oid) => CatalogQueryView::TableIsVisible(oid),
            CatalogQuery::RegClass(name) => CatalogQueryView::RegClass(name@),
            CatalogQuery::SerialSequence { table, column } => CatalogQueryView::SerialSequence {
                table: table@,
                column: column@,
            },
        }
    }
}

/// What an evaluation holds.
pub enum EvaluationView {
    Done(ValueView),
    Float(FloatCall),
    Setting(Seq<char>),
    Catalog(CatalogQueryView),
}

impl View for Evaluation {
    type V = EvaluationView;

    open spec fn view(&self) -> EvaluationView {
        match *self {
            Evaluation::Done(value) => EvaluationView::Done(value@),
            Evaluation::Float(call) => EvaluationView::Float(call),
            Evaluation::Setting(name) => EvaluationView::Setting(name@),
            Evaluation::Catalog(query) => EvaluationView::Catalog(query@),
        }
    }
}

/// An evaluation or the error that it ends in.
pub type Outcome = core::result::Result<EvaluationView, ErrorView>;

/// The outcome of an evaluator is as stated.
pub open spec fn is_outcome(result: Result<Evaluation>, outcome: Outcome) -> bool {
    match result {
        Ok(evaluation) => outcome == Ok::<EvaluationView, ErrorView>(evaluation@),
        Err(error) => outcome == Err::<EvaluationView, ErrorView>(error@),
    }
}

/// The error of an argument with the wrong type.
pub open spec fn mismatch(message: Seq<char>) -> ErrorView {
    error::execute_error(SqlState::DatatypeMismatch, message)
}

/// The text in an argument.
pub open spec fn text_in(value: ValueView) -> core::result::Result<Seq<char>, ErrorView> {
    match value {
        ValueView::Text(text) => Ok(text),
        _ => Err(mismatch("function expected a text argument"@)),
    }
}

/// The integer in an argument.
pub open spec fn integer_in(value: ValueView) -> core::result::Result<i64, ErrorView> {
    match value {
        ValueView::Integer(n) => Ok(n),
        _ => Err(mismatch("function expected an integer argument"@)),
    }
}

/// The boolean in an argument.
pub open spec fn boolean_in(value: ValueView) -> core::result::Result<bool, ErrorView> {
    match value {
        ValueView::Boolean(b) => Ok(b),
        _ => Err(mismatch("function expected a boolean argument"@)),
    }
}

/// The number in an argument.
pub open spec fn double_in(value: ValueView) -> core::result::Result<FloatOperand, ErrorView> {
    match value {
        ValueView::Integer(n) => Ok(FloatOperand::Integer(n)),
        ValueView::Float(f) => Ok(FloatOperand::Double(f)),
        _ => Err(mismatch("function expected a numeric argument"@)),
    }
}

fn type_mismatch(message: &str) -> (error: DbError)
    ensures
        error@ == mismatch(message@),
{
    DbError::execute(SqlState::DatatypeMismatch, message)
}

fn text_arg(value: &Value) -> (result: Result<&str>)
    ensures
        match result {
            Ok(text) => text_in(value@) == Ok::<Seq<char>, ErrorView>(text@),
            Err(error) => text_in(value@) == Err::<Seq<char>, ErrorView>(error@),
        },
{
    match value {
        Value::Text(text) => Ok(text.as_str()),
        _ => Err(type_mismatch("function expected a text argument")),
    }
}

fn integer_arg(value: &Value) -> (result: Result<i64>)
    ensures
        match result {
            Ok(n) => integer_in(value@) == Ok::<i64, ErrorView>(n),
            Err(error) => integer_in(value@) == Err::<i64, ErrorView>(error@),
        },
{
    match value {
        Value::Integer(n) => Ok(*n),
        _ => Err(type_mismatch("function expected an integer argument")),
    }
}

fn boolean_arg(value: &Value) -> (result: Result<bool>)
    ensures
        match result {
            Ok(b) => boolean_in(value@) == Ok::<bool, ErrorView>(b),
            Err(error) => boolean_in(value@) == Err::<bool, ErrorView>(error@),
        },
{
    match value {
        Value::Boolean(b) => Ok(*b),
        _ => Err(type_mismatch("function expected a boolean argument")),
    }
}

fn double_arg(value: &Value) -> (result: Result<FloatOperand>)
    ensures
        match result {
            Ok(operand) => double_in(value@) == Ok::<FloatOperand, ErrorView>(operand),
            Err(error) => double_in(value@) == Err::<FloatOperand, ErrorView>(error@),
        },
{
    match value {
        Value::Integer(n) => Ok(FloatOperand::Integer(*n)),
        Value::Float(f) => Ok(FloatOperand::Double(*f)),
        _ => Err(type_mismatch("function expected a numeric argument")),
    }
}

fn done(value: Value) -> (evaluation: Result<Evaluation>)
    ensures
        is_outcome(evaluation, finished(value@)),
{
    Ok(Evaluation::Done(value))
}

/// The outcome of a call whose result is known.
pub open spec fn finished(value: ValueView) -> Outcome {
    Ok(EvaluationView::Done(value))
}

/// A negative number, however it is given.
pub open spec fn is_negative(operand: FloatOperand) -> bool {
    match operand {
        FloatOperand::Integer(n) => n < 0,
        FloatOperand::Double(f) => f.key() < 0,
    }
}

/// The remainder of a division that rounds towards zero.
pub open spec fn truncated_remainder(left: int, right: int) -> int {
    let divisor = if right < 0 {
        -right
    } else {
        right
    };
    if left < 0 {
        -((-left) % divisor)
    } else {
        left % divisor
    }
}

/// A double without its sign.
pub open spec fn without_sign(number: OrderedF64) -> OrderedF64 {
    OrderedF64(number.magnitude_bits() as u64)
}

/// The outcome of `ABS`.
pub open spec fn abs_outcome(value: ValueView) -> Outcome {
    match value {
        ValueView::Integer(n) => if n == i64::MIN {
            Err(
                error::execute_error(
                    SqlState::NumericValueOutOfRange,
                    "integer value out of range"@,
                ),
            )
        } else if n < 0 {
            finished(ValueView::Integer((-n) as i64))
        } else {
            finished(value)
        },
        ValueView::Float(f) => finished(ValueView::Float(without_sign(f))),
        _ => Err(mismatch("abs requires a numeric argument"@)),
    }
}

/// `ABS`: integer stays integer (with overflow checking); a double loses its sign.
fn eval_abs(value: &Value) -> (result: Result<Evaluation>)
    ensures
        is_outcome(result, abs_outcome(value@)),
{
    match value {
        Value::Integer(n) => {
            if *n == i64::MIN {
                Err(
                    DbError::execute(
                        SqlState::NumericValueOutOfRange,
                        "integer value out of range",
                    ),
                )
            } else if *n < 0 {
                done(Value::Integer(-*n))
            } else {
                done(Value::Integer(*n))
            }
        },
        Value::Float(f) => {
            let bits: u64 = f.get();
            let magnitude: u64 = if bits >= 0x8000_0000_0000_0000 {
                bits - 0x8000_0000_0000_0000
            } else {
                bits
            };
            done(Value::Float(OrderedF64::new(magnitude)))
        },
        _ => Err(type_mismatch("abs requires a numeric argument")),
    }
}

/// The rounding functions.
#[derive(Clone, Copy, Debug, PartialEq, Eq, Structural)]
pub enum Rounding {
    Floor,
    Ceil,
    Round,
}

impl Rounding {
    pub open spec fn call(self, number: OrderedF64) -> FloatCall {
        match self {
            Rounding::Floor => FloatCall::Floor(number),
            Rounding::Ceil => FloatCall::Ceil(number),
            Rounding::Round => FloatCall::Round(number),
        }
    }
}

/// The outcome of `FLOOR`, `CEIL` and `ROUND`.
pub open spec fn rounding_outcome(value: ValueView, rounding: Rounding) -> Outcome {
    match value {
        ValueView::Integer(_) => finished(value),
        ValueView::Float(f) => Ok(EvaluationView::Float(rounding.call(f))),
        _ => Err(mismatch("function requires a numeric argument"@)),
    }
}

/// `FLOOR`/`CEIL`/`ROUND`: an integer is returned unchanged; a double is rounded and
/// stays double.
fn numeric_round(value: &Value, rounding: Rounding) -> (result: Result<Evaluation>)
    ensures
        is_outcome(result, rounding_outcome(value@, rounding)),
{
    match value {
        Value::Integer(n) => done(Value::Integer(*n)),
        Value::Float(f) => Ok(
            Evaluation::Float(
                match rounding {
                    Rounding::Floor => FloatCall::Floor(*f),
                    Rounding::Ceil => FloatCall::Ceil(*f),
                    Rounding::Round => FloatCall::Round(*f),
                },
            ),
        ),
        _ => Err(type_mismatch("function requires a numeric argument")),
    }
}

/// The outcome of `SQRT`.
pub open spec fn sqrt_outcome(value: ValueView) -> Outcome {
    match double_in(value) {
        Ok(operand) => if is_negative(operand) {
            Err(
                error::execute_error(
                    SqlState::NumericValueOutOfRange,
                    "cannot take square root of a negative number"@,
                ),
            )
        } else {
            Ok(EvaluationView::Float(FloatCall::Sqrt(operand)))
        },
        Err(error) => Err(error),
    }
}

/// `SQRT(numeric)`, a double. A negative argument is rejected (PostgreSQL raises
/// rather than returning NaN).
fn eval_sqrt(value: &Value) -> (result: Result<Evaluation>)
    ensures
        is_outcome(result, sqrt_outcome(value@)),
{
    let operand: FloatOperand = match double_arg(value) {
        Ok(operand) => operand,
        Err(error) => return Err(error),
    };
    let negative: bool = match operand {
        FloatOperand::Integer(n) => n < 0,
        FloatOperand::Double(f) => f.order_key() < 0,
    };
    if negative {
        return Err(
            DbError::execute(
                SqlState::NumericValueOutOfRange,
                "cannot take square root of a negative number",
            ),
        );
    }
    Ok(Evaluation::Float(FloatCall::Sqrt(operand)))
}

/// The outcome of `POWER`.
pub open spec fn power_outcome(base: ValueView, exponent: ValueView) -> Outcome {
    match (double_in(base), double_in(exponent)) {
        (Ok(base), Ok(exponent)) => Ok(EvaluationView::Float(FloatCall::Power(base, exponent))),
        (Err(error), _) => Err(error),
        (_, Err(error)) => Err(error),
    }
}

fn eval_power(base: &Value, exponent: &Value) -> (result: Result<Evaluation>)
    ensures
        is_outcome(result, power_outcome(base@, exponent@)),
{
    let base: FloatOperand = match double_arg(base) {
        Ok(base) => base,
        Err(error) => return Err(error),
    };
    let exponent: FloatOperand = match double_arg(exponent) {
        Ok(exponent) => exponent,
        Err(error) => return Err(error),
    };
    Ok(Evaluation::Float(FloatCall::Power(base, exponent)))
}

/// `POWER(base, exp)`, given the power. A non-finite result (overflow, or an undefined
/// case such as a negative base to a fractional power) is rejected.
pub fn finish_power(power: OrderedF64) -> (result: Result<Value>)
    ensures
        match result {
            Ok(value) => power.spec_is_finite() && value@ == ValueView::Float(power),
            Err(error) => !power.spec_is_finite() && error@ == error::execute_error(
                SqlState::NumericValueOutOfRange,
                "power result is out of range or undefined"@,
            ),
        },
{
    if power.is_finite() {
        Ok(Value::Float(power))
    } else {
        Err(
            DbError::execute(
                SqlState::NumericValueOutOfRange,
                "power result is out of range or undefined",
            ),
        )
    }
}

/// The outcome of `MOD`.
pub open spec fn mod_outcome(left: ValueView, right: ValueView) -> Outcome {
    match (integer_in(left), integer_in(right)) {
        (Ok(left), Ok(right)) => if right == 0 {
            Err(error::execute_error(SqlState::DivisionByZero, "division by zero"@))
        } else {
            finished(ValueView::Integer(truncated_remainder(left as int, right as int) as i64))
        },
        (Err(error), _) => Err(error),
        (_, Err(error)) => Err(error),
    }
}

/// `MOD(a, b)`: integer remainder, with division-by-zero rejected. The remainder of a
/// division by `-1` is zero, also where the quotient would overflow.
fn eval_mod(left: &Value, right: &Value) -> (result: Result<Evaluation>)
    ensures
        is_outcome(result, mod_outcome(left@, right@)),
{
    let left: i64 = match integer_arg(left) {
        Ok(left) => left,
        Err(error) => return Err(error),
    };
    let right: i64 = match integer_arg(right) {
        Ok(right) => right,
        Err(error) => return Err(error),
    };
    if right == 0 {
        return Err(DbError::execute(SqlState::DivisionByZero, "division by zero"));
    }
    let divisor: i128 = if right < 0 {
        -(right as i128)
    } else {
        right as i128
    };
    let remainder: i128 = if left < 0 {
        -((-(left as i128)) % divisor)
    } else {
        left as i128 % divisor
    };
    proof {
        let size = if left < 0 {
            -(left as int)
        } else {
            left as int
        };
        vstd::arithmetic::div_mod::lemma_mod_bound(size, divisor as int);
    }
    done(Value::Integer(remainder as i64))
}

/// The outcome of `LENGTH`.
pub open spec fn length_outcome(value: ValueView) -> Outcome {
    match text_in(value) {
        Ok(text) => if text.len() > i64::MAX {
            Err(error::internal_error("string length exceeds i64 range"@))
        } else {
            finished(ValueView::Integer(text.len() as i64))
        },
        Err(error) => Err(error),
    }
}

fn eval_length(value: &Value) -> (result: Result<Evaluation>)
    ensures
        is_outcome(result, length_outcome(value@)),
{
    match text_arg(value) {
        Ok(text) => {
            let length: usize = text::chars_of(text).len();
            if length as u128 > i64::MAX as u128 {
                Err(DbError::internal("string length exceeds i64 range"))
            } else {
                done(Value::Integer(length as i64))
            }
        },
        Err(error) => Err(error),
    }
}

/// The outcome of a function from text to text.
pub open spec fn text_outcome(value: ValueView, f: spec_fn(Seq<char>) -> Seq<char>) -> Outcome {
    match text_in(value) {
        Ok(text) => finished(ValueView::Text(f(text))),
        Err(error) => Err(error),
    }
}

fn eval_upper(value: &Value) -> (result: Result<Evaluation>)
    ensures
        is_outcome(result, text_outcome(value@, |text: Seq<char>| strings::uppercase(text))),
        value@ is Text && strings::all_ascii(value@->Text_0) ==> is_outcome(
            result,
            finished(ValueView::Text(strings::ascii_raised(value@->Text_0))),
        ),
{
    match text_arg(value) {
        Ok(text) => done(Value::Text(strings::to_uppercase(text))),
        Err(error) => Err(error),
    }
}

fn eval_lower(value: &Value) -> (result: Result<Evaluation>)
    ensures
        is_outcome(result, text_outcome(value@, |text: Seq<char>| strings::lowercase(text))),
        value@ is Text && strings::all_ascii(value@->Text_0) ==> is_outcome(
            result,
            finished(ValueView::Text(text::ascii_lowered(value@->Text_0))),
        ),
{
    match text_arg(value) {
        Ok(text) => done(Value::Text(strings::to_lowercase(text))),
        Err(error) => Err(error),
    }
}

fn eval_trim(value: &Value) -> (result: Result<Evaluation>)
    ensures
        is_outcome(result, text_outcome(value@, |text: Seq<char>| text::trimmed(text))),
{
    match text_arg(value) {
        Ok(text) => {
            let chars: Vec<char> = text::chars_of(text);
            done(Value::Text(text::string_of(text::trim(&chars))))
        },
        Err(error) => Err(error),
    }
}

/// The outcome of `REPLACE`.
pub open spec fn replace_outcome(string: ValueView, from: ValueView, to: ValueView) -> Outcome {
    match (text_in(string), text_in(from), text_in(to)) {
        (Ok(string), Ok(from), Ok(to)) => finished(
            ValueView::Text(strings::replaced(string, from, to, 0)),
        ),
        (Err(error), _, _) => Err(error),
        (_, Err(error), _) => Err(error),
        (_, _, Err(error)) => Err(error),
    }
}

/// `REPLACE(string, from, to)`: replace every non-overlapping occurrence of
/// `from` with `to`. An empty `from` leaves the string unchanged (matching
/// PostgreSQL).
fn eval_replace(string: &Value, from: &Value, to: &Value) -> (result: Result<Evaluation>)
    ensures
        is_outcome(result, replace_outcome(string@, from@, to@)),
{
    let string: &str = match text_arg(string) {
        Ok(string) => string,
        Err(error) => return Err(error),
    };
    let from: &str = match text_arg(from) {
        Ok(from) => from,
        Err(error) => return Err(error),
    };
    let to: &str = match text_arg(to) {
        Ok(to) => to,
        Err(error) => return Err(error),
    };
    done(Value::Text(strings::replace_all(string, from, to)))
}

/// The outcome of `POSITION`.
pub open spec fn position_outcome(needle: ValueView, string: ValueView) -> Outcome {
    match (text_in(needle), text_in(string)) {
        (Ok(needle), Ok(string)) => if strings::position(needle, string) > i64::MAX {
            Err(error::internal_error("string length exceeds i64 range"@))
        } else {
            finished(ValueView::Integer(strings::position(needle, string) as i64))
        },
        (Err(error), _) => Err(error),
        (_, Err(error)) => Err(error),
    }
}

/// `POSITION(substring, string)`: the 1-based character index of the first
/// occurrence of `substring` in `string`, or 0 if absent. An empty substring is
/// at position 1.
fn eval_position(needle: &Value, string: &Value) -> (result: Result<Evaluation>)
    ensures
        is_outcome(result, position_outcome(needle@, string@)),
{
    let needle: &str = match text_arg(needle) {
        Ok(needle) => needle,
        Err(error) => return Err(error),
    };
    let string: &str = match text_arg(string) {
        Ok(string) => string,
        Err(error) => return Err(error),
    };
    let position: usize = strings::position_in(needle, string);
    if position as u128 > i64::MAX as u128 {
        return Err(DbError::internal("string length exceeds i64 range"));
    }
    done(Value::Integer(position as i64))
}

/// The outcome of `LEFT` and `RIGHT`.
pub open spec fn end_outcome(string: ValueView, n: ValueView, left: bool) -> Outcome {
    match (text_in(string), integer_in(n)) {
        (Ok(string), Ok(n)) => finished(
            ValueView::Text(
                if left {
                    strings::left(string, n as int)
                } else {
                    strings::right(string, n as int)
                },
            ),
        ),
        (Err(error), _) => Err(error),
        (_, Err(error)) => Err(error),
    }
}

/// `LEFT(string, n)` / `RIGHT(string, n)`, by character. A negative `n` removes
/// `|n|` characters from the far end (PostgreSQL semantics).
fn eval_left_right(string: &Value, n: &Value, left: bool) -> (result: Result<Evaluation>)
    ensures
        is_outcome(result, end_outcome(string@, n@, left)),
{
    let string: &str = match text_arg(string) {
        Ok(string) => string,
        Err(error) => return Err(error),
    };
    let n: i64 = match integer_arg(n) {
        Ok(n) => n,
        Err(error) => return Err(error),
    };
    if left {
        done(Value::Text(strings::left_of(string, n)))
    } else {
        done(Value::Text(strings::right_of(string, n)))
    }
}

/// The outcome of `CONCAT`, from the argument at `index` on.
pub open spec fn concat_outcome(values: Seq<ValueView>, index: nat, so_far: Seq<char>) -> Outcome
    decreases values.len() - index,
{
    if index >= values.len() {
        finished(ValueView::Text(so_far))
    } else {
        match values[index as int] {
            ValueView::Null => concat_outcome(values, index + 1, so_far),
            ValueView::Text(text) => concat_outcome(values, index + 1, so_far + text),
            _ => Err(mismatch("concat requires text arguments"@)),
        }
    }
}

/// `CONCAT(...)`: ignore NULL arguments and concatenate the rest; the result is
/// the empty string when every argument is NULL (never NULL).
fn eval_concat(values: &[Value]) -> (result: Result<Evaluation>)
    ensures
        is_outcome(result, concat_outcome(row::value_views(values@), 0, Seq::empty())),
{
    let ghost views = row::value_views(values@);
    let mut out: String = String::new();
    let mut i: usize = 0;
    assert(out@ =~= Seq::<char>::empty());
    while i < values.len()
        invariant
            i <= values@.len(),
            views == row::value_views(values@),
            concat_outcome(views, 0, Seq::empty()) == concat_outcome(views, i as nat, out@),
        decreases values@.len() - i,
    {
        assert(views[i as int] == values@[i as int]@);
        match &values[i] {
            Value::Null => {},
            Value::Text(text) => {
                out.append(text);
            },
            _ => return Err(type_mismatch("concat requires text arguments")),
        }
        i += 1;
    }
    done(Value::Text(out))
}

/// The outcome of `SUBSTRING`.
pub open spec fn substring_outcome(values: Seq<ValueView>) -> Outcome {
    match (text_in(values[0]), integer_in(values[1])) {
        (Ok(string), Ok(start)) => if string.len() > i64::MAX {
            Err(error::internal_error("string length exceeds i64 range"@))
        } else if values.len() <= 2 {
            finished(
                ValueView::Text(
                    strings::substring(string, start as int, string.len() as int + 1),
                ),
            )
        } else {
            match integer_in(values[2]) {
                Ok(count) => if count < 0 {
                    Err(mismatch("substring length must not be negative"@))
                } else {
                    finished(
                        ValueView::Text(
                            strings::substring(string, start as int, start + count),
                        ),
                    )
                },
                Err(error) => Err(error),
            }
        },
        (Err(error), _) => Err(error),
        (Ok(string), Err(error)) => if string.len() > i64::MAX {
            Err(error::internal_error("string length exceeds i64 range"@))
        } else {
            Err(error)
        },
    }
}

/// `SUBSTRING(text, start[, length])` with 1-based start positions, clamped to the
/// string bounds. A negative length is rejected.
fn eval_substring(values: &[Value]) -> (result: Result<Evaluation>)
    requires
        values@.len() >= 2,
    ensures
        is_outcome(result, substring_outcome(row::value_views(values@))),
{
    let chars: Vec<char> = match text_arg(&values[0]) {
        Ok(string) => text::chars_of(string),
        Err(error) => return Err(error),
    };
    if chars.len() as u128 > i64::MAX as u128 {
        return Err(DbError::internal("string length exceeds i64 range"));
    }
    let start: i64 = match integer_arg(&values[1]) {
        Ok(start) => start,
        Err(error) => return Err(error),
    };
    if values.len() == 2 {
        return done(Value::Text(strings::substring_of(&chars, start, None)));
    }
    let count: i64 = match integer_arg(&values[2]) {
        Ok(count) => count,
        Err(error) => return Err(error),
    };
    if count < 0 {
        return Err(type_mismatch("substring length must not be negative"));
    }
    done(Value::Text(strings::substring_of(&chars, start, Some(start as i128 + count as i128))))
}

/// A calendar or clock component, as a whole number and millionths, of a day and the
/// microseconds since its midnight.
pub open spec fn component_of(field: ExtractField, days: int, micros: int) -> (int, int) {
    let civil = datetime::civil_of(days);
    let seconds = micros / 1_000_000;
    match field {
        ExtractField::Year => (civil.0, 0),
        ExtractField::Month => (civil.1, 0),
        ExtractField::Day => (civil.2, 0),
        ExtractField::Hour => (seconds / 3_600, 0),
        ExtractField::Minute => ((seconds % 3_600) / 60, 0),
        ExtractField::Second => (seconds % 60, micros % 1_000_000),
    }
}

/// The day of a source of `EXTRACT` and the microseconds since its midnight.
pub open spec fn moment_in(source: ValueView) -> Option<(int, int)> {
    match source {
        ValueView::Date(days) => Some((days as int, 0)),
        ValueView::Timestamp(micros) => Some(
            (micros as int / 86_400_000_000, micros as int % 86_400_000_000),
        ),
        _ => None,
    }
}

/// The outcome of `EXTRACT`.
pub open spec fn extract_outcome(field: ValueView, source: ValueView) -> Outcome {
    match text_in(field) {
        Ok(field) => match (moment_in(source), ExtractField::named(field)) {
            (None, _) => Err(mismatch("extract requires a date or timestamp argument"@)),
            (Some(_), None) => Err(
                error::execute_error(
                    SqlState::FeatureNotSupported,
                    "EXTRACT field "@ + field + " is not supported"@,
                ),
            ),
            (Some((days, micros)), Some(component)) => {
                let (whole, millionths) = component_of(component, days, micros);
                Ok(
                    EvaluationView::Float(
                        FloatCall::Component { whole: whole as i64, micros: millionths as i64 },
                    ),
                )
            },
        },
        Err(error) => Err(error),
    }
}

/// The day of a timestamp and the microseconds since its midnight.
fn split_timestamp(micros: i64) -> (moment: (i64, i64))
    ensures
        moment.0 == micros as int / 86_400_000_000,
        moment.1 == micros as int % 86_400_000_000,
{
    let wide: i128 = micros as i128 + 9_223_372_108_800_000_000;
    assert(wide % 86_400_000_000 == micros as int % 86_400_000_000);
    assert(wide / 86_400_000_000 - 106_751_992 == micros as int / 86_400_000_000);
    ((wide / 86_400_000_000 - 106_751_992) as i64, (wide % 86_400_000_000) as i64)
}

fn extract_component(field: ExtractField, days: i64, micros: i64) -> (component: (i64, i64))
    requires
        0 <= micros < 86_400_000_000,
    ensures
        component.0 == component_of(field, days as int, micros as int).0,
        component.1 == component_of(field, days as int, micros as int).1,
{
    let (year, month, day): (i64, u32, u32) = datetime::civil_from_days(days);
    proof {
        datetime::every_number_has_a_day(days as int);
        datetime::day_numbers_are_distinct(
            (year as int, month as int, day as int),
            datetime::civil_of(days as int),
        );
    }
    let seconds: i64 = micros / 1_000_000;
    match field {
        ExtractField::Year => (year, 0),
        ExtractField::Month => (month as i64, 0),
        ExtractField::Day => (day as i64, 0),
        ExtractField::Hour => (seconds / 3_600, 0),
        ExtractField::Minute => ((seconds % 3_600) / 60, 0),
        ExtractField::Second => (seconds % 60, micros % 1_000_000),
    }
}

/// `EXTRACT(field FROM source)`: the requested calendar/clock component of a DATE
/// or TIMESTAMP, a double (seconds include the fractional part). DATE sources have
/// zero-valued time components.
fn eval_extract(field: &Value, source: &Value) -> (result: Result<Evaluation>)
    ensures
        is_outcome(result, extract_outcome(field@, source@)),
{
    let field: &str = match text_arg(field) {
        Ok(field) => field,
        Err(error) => return Err(error),
    };
    let (days, micros): (i64, i64) = match source {
        Value::Date(days) => (*days, 0),
        Value::Timestamp(micros) => {
            split_timestamp(*micros)
        },
        _ => return Err(type_mismatch("extract requires a date or timestamp argument")),
    };
    let component: ExtractField = match ExtractField::parse(field) {
        Some(component) => component,
        None => {
            return Err(
                DbError::execute(
                    SqlState::FeatureNotSupported,
                    &text::joined_text("EXTRACT field ", field, " is not supported"),
                ),
            );
        },
    };
    let (whole, millionths): (i64, i64) = extract_component(component, days, micros);
    Ok(Evaluation::Float(FloatCall::Component { whole, micros: millionths }))
}

/// The result of `current_setting(name)`, given the setting.
pub open spec fn is_setting_result(
    name: Seq<char>,
    setting: Option<String>,
    result: Result<Value>,
) -> bool {
    match result {
        Ok(value) => setting is Some && value@ == ValueView::Text(setting->0@),
        Err(error) => setting is None && error@ == error::execute_error(
            SqlState::UndefinedObject,
            "unrecognized configuration parameter \""@ + name + "\""@,
        ),
    }
}

/// `current_setting(name)`, given the setting. A name without a setting is rejected.
pub fn finish_setting(name: &str, setting: Option<String>) -> (result: Result<Value>)
    ensures
        is_setting_result(name@, setting, result),
{
    match setting {
        Some(setting) => Ok(Value::Text(setting)),
        None => Err(
            DbError::execute(
                SqlState::UndefinedObject,
                &text::joined_text("unrecognized configuration parameter \"", name, "\""),
            ),
        ),
    }
}

/// The text, or NULL where there is none.
pub fn text_or_null(text: Option<String>) -> (value: Value)
    ensures
        value@ == match text {
            Some(text) => ValueView::Text(text@),
            None => ValueView::Null,
        },
{
    match text {
        Some(text) => Value::Text(text),
        None => Value::Null,
    }
}

/// The integer, or NULL where there is none.
pub fn integer_or_null(n: Option<i64>) -> (value: Value)
    ensures
        value@ == match n {
            Some(n) => ValueView::Integer(n),
            None => ValueView::Null,
        },
{
    match n {
        Some(n) => Value::Integer(n),
        None => Value::Null,
    }
}

/// The outcome of `format_type`.
pub open spec fn format_type_outcome(oid: ValueView, typmod: ValueView) -> Outcome {
    let typmod = match typmod {
        ValueView::Null => Ok(-1i64),
        other => integer_in(other),
    };
    match (oid, integer_in(oid), typmod) {
        (ValueView::Null, _, _) => finished(ValueView::Null),
        (_, Err(error), _) => Err(error),
        (_, _, Err(error)) => Err(error),
        (_, Ok(oid), Ok(typmod)) => finished(
            ValueView::Text(
                match pg_type::wire_type_of_oid(oid as int, typmod as int) {
                    Some(wire_type) => wire_type.spec_type_name(),
                    None => "???"@,
                },
            ),
        ),
    }
}

fn eval_format_type(oid: &Value, typmod: &Value) -> (result: Result<Evaluation>)
    ensures
        is_outcome(result, format_type_outcome(oid@, typmod@)),
{
    let oid: i64 = match oid {
        Value::Null => return done(Value::Null),
        oid => match integer_arg(oid) {
            Ok(oid) => oid,
            Err(error) => return Err(error),
        },
    };
    let typmod: i64 = match typmod {
        Value::Null => -1,
        typmod => match integer_arg(typmod) {
            Ok(typmod) => typmod,
            Err(error) => return Err(error),
        },
    };
    let name: String = match PgType::from_oid_typmod(oid, typmod) {
        Some(wire_type) => wire_type.format_type_name(),
        None => "???".to_owned(),
    };
    done(Value::Text(name))
}

/// The outcome of `pg_get_indexdef`.
pub open spec fn indexdef_outcome(values: Seq<ValueView>) -> Outcome {
    match integer_in(values[0]) {
        Err(error) => Err(error),
        Ok(index_oid) => if values.len() == 1 {
            Ok(
                EvaluationView::Catalog(
                    CatalogQueryView::IndexDef { index_oid, column: None, pretty: false },
                ),
            )
        } else if values.len() == 3 {
            match (integer_in(values[1]), boolean_in(values[2])) {
                (Ok(column), Ok(pretty)) => Ok(
                    EvaluationView::Catalog(
                        CatalogQueryView::IndexDef { index_oid, column: Some(column), pretty },
                    ),
                ),
                (Err(error), _) => Err(error),
                (_, Err(error)) => Err(error),
            }
        } else {
            Err(mismatch("pg_get_indexdef expects 1 or 3 arguments"@))
        },
    }
}

fn eval_pg_get_indexdef(values: &[Value]) -> (result: Result<Evaluation>)
    requires
        values@.len() >= 1,
    ensures
        is_outcome(result, indexdef_outcome(row::value_views(values@))),
{
    let index_oid: i64 = match integer_arg(&values[0]) {
        Ok(index_oid) => index_oid,
        Err(error) => return Err(error),
    };
    if values.len() == 1 {
        return Ok(
            Evaluation::Catalog(
                CatalogQuery::IndexDef { index_oid, column: None, pretty: false },
            ),
        );
    }
    if values.len() != 3 {
        return Err(type_mismatch("pg_get_indexdef expects 1 or 3 arguments"));
    }
    let column: i64 = match integer_arg(&values[1]) {
        Ok(column) => column,
        Err(error) => return Err(error),
    };
    let pretty: bool = match boolean_arg(&values[2]) {
        Ok(pretty) => pretty,
        Err(error) => return Err(error),
    };
    Ok(Evaluation::Catalog(CatalogQuery::IndexDef { index_oid, column: Some(column), pretty }))
}

/// The boolean in an argument that may be missing, which counts as false.
pub open spec fn optional_boolean(values: Seq<ValueView>, index: int) -> core::result::Result<
    bool,
    ErrorView,
> {
    if values.len() <= index {
        Ok(false)
    } else {
        boolean_in(values[index])
    }
}

fn optional_boolean_arg(values: &[Value], index: usize) -> (result: Result<bool>)
    ensures
        match result {
            Ok(b) => optional_boolean(row::value_views(values@), index as int) == Ok::<
                bool,
                ErrorView,
            >(b),
            Err(error) => optional_boolean(row::value_views(values@), index as int) == Err::<
                bool,
                ErrorView,
            >(error@),
        },
{
    if values.len() <= index {
        Ok(false)
    } else {
        boolean_arg(&values[index])
    }
}

/// The outcome of `pg_get_expr`.
pub open spec fn expr_outcome(values: Seq<ValueView>) -> Outcome {
    match (text_in(values[0]), integer_in(values[1]), optional_boolean(values, 2)) {
        (Ok(expr), Ok(relation_oid), Ok(pretty)) => Ok(
            EvaluationView::Catalog(CatalogQueryView::Expr { expr, relation_oid, pretty }),
        ),
        (Err(error), _, _) => Err(error),
        (_, Err(error), _) => Err(error),
        (_, _, Err(error)) => Err(error),
    }
}

fn owned(text: &str) -> (copy: String)
    ensures
        copy@ == text@,
{
    text.to_owned()
}

fn eval_pg_get_expr(values: &[Value]) -> (result: Result<Evaluation>)
    requires
        values@.len() >= 2,
    ensures
        is_outcome(result, expr_outcome(row::value_views(values@))),
{
    let expr: String = match text_arg(&values[0]) {
        Ok(expr) => owned(expr),
        Err(error) => return Err(error),
    };
    let relation_oid: i64 = match integer_arg(&values[1]) {
        Ok(relation_oid) => relation_oid,
        Err(error) => return Err(error),
    };
    let pretty: bool = match optional_boolean_arg(values, 2) {
        Ok(pretty) => pretty,
        Err(error) => return Err(error),
    };
    Ok(Evaluation::Catalog(CatalogQuery::Expr { expr, relation_oid, pretty }))
}

/// The outcome of `pg_get_constraintdef`.
pub open spec fn constraintdef_outcome(values: Seq<ValueView>) -> Outcome {
    match (integer_in(values[0]), optional_boolean(values, 1)) {
        (Ok(constraint_oid), Ok(pretty)) => Ok(
            EvaluationView::Catalog(CatalogQueryView::ConstraintDef { constraint_oid, pretty }),
        ),
        (Err(error), _) => Err(error),
        (_, Err(error)) => Err(error),
    }
}

fn eval_pg_get_constraintdef(values: &[Value]) -> (result: Result<Evaluation>)
    requires
        values@.len() >= 1,
    ensures
        is_outcome(result, constraintdef_outcome(row::value_views(values@))),
{
    let constraint_oid: i64 = match integer_arg(&values[0]) {
        Ok(constraint_oid) => constraint_oid,
        Err(error) => return Err(error),
    };
    let pretty: bool = match optional_boolean_arg(values, 1) {
        Ok(pretty) => pretty,
        Err(error) => return Err(error),
    };
    Ok(Evaluation::Catalog(CatalogQuery::ConstraintDef { constraint_oid, pretty }))
}

/// The outcome of a question to the catalog about one OID.
pub open spec fn oid_outcome(value: ValueView, query: spec_fn(i64) -> EvaluationView) -> Outcome {
    match integer_in(value) {
        Ok(oid) => Ok(query(oid)),
        Err(error) => Err(error),
    }
}

/// The outcome of `pg_get_serial_sequence`.
pub open spec fn serial_outcome(table: ValueView, column: ValueView) -> Outcome {
    match (text_in(table), text_in(column)) {
        (Ok(table), Ok(column)) => Ok(
            EvaluationView::Catalog(CatalogQueryView::SerialSequence { table, column }),
        ),
        (Err(error), _) => Err(error),
        (_, Err(error)) => Err(error),
    }
}

fn eval_pg_get_serial_sequence(table: &Value, column: &Value) -> (result: Result<Evaluation>)
    ensures
        is_outcome(result, serial_outcome(table@, column@)),
{
    let table: String = match text_arg(table) {
        Ok(table) => owned(table),
        Err(error) => return Err(error),
    };
    let column: String = match text_arg(column) {
        Ok(column) => owned(column),
        Err(error) => return Err(error),
    };
    Ok(Evaluation::Catalog(CatalogQuery::SerialSequence { table, column }))
}

/// The outcome of `to_regtype`.
pub open spec fn regtype_outcome(name: ValueView) -> Outcome {
    match text_in(name) {
        Ok(name) => finished(
            match pg_type::spelling_oid(pg_type::bare_spelling(name)) {
                Some(oid) => ValueView::Integer(oid),
                None => ValueView::Null,
            },
        ),
        Err(error) => Err(error),
    }
}

fn eval_to_regtype(name: &Value) -> (result: Result<Evaluation>)
    ensures
        is_outcome(result, regtype_outcome(name@)),
{
    match text_arg(name) {
        Ok(name) => done(integer_or_null(PgType::oid_for_name(name))),
        Err(error) => Err(error),
    }
}

/// The display names of the argument types of a function, a repeating one marked.
pub open spec fn argument_names(entry: PgProcView) -> Seq<Seq<char>> {
    Seq::new(
        entry.arg_oids.len(),
        |i: int|
            if i == entry.arg_oids.len() - 1 && entry.variadic_oid() != 0 {
                "VARIADIC "@ + catalog::type_display(entry.arg_oids[i] as int)
            } else {
                catalog::type_display(entry.arg_oids[i] as int)
            },
    )
}

/// The argument list of a function as text.
pub open spec fn arguments_text(entry: PgProcView) -> Seq<char> {
    text::joined(argument_names(entry), ", "@)
}

pub fn format_function_arguments(entry: &PgProcCatalogEntry) -> (text: String)
    ensures
        text@ == arguments_text(entry@),
{
    let mut names: Vec<String> = Vec::new();
    let variadic: bool = entry.variadic_oid() != 0;
    let mut i: usize = 0;
    while i < entry.arg_oids.len()
        invariant
            i <= entry.arg_oids@.len(),
            variadic == (entry@.variadic_oid() != 0),
            text::string_views(names@) == argument_names(entry@).take(i as int),
        decreases entry.arg_oids@.len() - i,
    {
        let ghost before = names@;
        let mut name: String = String::new();
        if variadic && i == entry.arg_oids.len() - 1 {
            name.append("VARIADIC ");
        }
        name.append(&catalog::format_type_oid(entry.arg_oids[i]));
        assert(name@ =~= argument_names(entry@)[i as int]);
        names.push(name);
        i += 1;
        assert(text::string_views(names@) =~= text::string_views(before).push(name@));
        assert(text::string_views(names@) =~= argument_names(entry@).take(i as int));
    }
    assert(argument_names(entry@).take(i as int) =~= argument_names(entry@));
    text::join(&names, ", ")
}

/// The definition of a function as text.
pub open spec fn definition_text(entry: PgProcView) -> Seq<char> {
    "CREATE FUNCTION pg_catalog."@ + entry.name + "("@ + arguments_text(entry) + ") RETURNS "@
        + catalog::type_display(entry.ret_oid as int) + " LANGUAGE sql"@
}

/// The outcome of a function that looks up a built-in function by OID.
pub open spec fn proc_outcome(oid: ValueView, f: spec_fn(PgProcView) -> Seq<char>) -> Outcome {
    match integer_in(oid) {
        Ok(oid) => finished(
            match catalog::entry_with_oid(oid) {
                Some(entry) => ValueView::Text(f(entry)),
                None => ValueView::Null,
            },
        ),
        Err(error) => Err(error),
    }
}

fn eval_pg_get_functiondef(oid: &Value) -> (result: Result<Evaluation>)
    ensures
        is_outcome(result, proc_outcome(oid@, |entry: PgProcView| definition_text(entry))),
{
    let oid: i64 = match integer_arg(oid) {
        Ok(oid) => oid,
        Err(error) => return Err(error),
    };
    match catalog::pg_proc_catalog_entry(oid) {
        Some(entry) => {
            let mut out: String = String::new();
            out.append("CREATE FUNCTION pg_catalog.");
            out.append(entry.name);
            out.append("(");
            out.append(&format_function_arguments(&entry));
            out.append(") RETURNS ");
            out.append(&catalog::format_type_oid(entry.ret_oid));
            out.append(" LANGUAGE sql");
            assert(out@ =~= definition_text(entry@));
            done(Value::Text(out))
        },
        None => done(Value::Null),
    }
}

fn eval_pg_get_function_arguments(oid: &Value) -> (result: Result<Evaluation>)
    ensures
        is_outcome(result, proc_outcome(oid@, |entry: PgProcView| arguments_text(entry))),
{
    let oid: i64 = match integer_arg(oid) {
        Ok(oid) => oid,
        Err(error) => return Err(error),
    };
    match catalog::pg_proc_catalog_entry(oid) {
        Some(entry) => done(Value::Text(format_function_arguments(&entry))),
        None => done(Value::Null),
    }
}

fn eval_pg_get_function_result(oid: &Value) -> (result: Result<Evaluation>)
    ensures
        is_outcome(
            result,
            proc_outcome(oid@, |entry: PgProcView| catalog::type_display(entry.ret_oid as int)),
        ),
{
    let oid: i64 = match integer_arg(oid) {
        Ok(oid) => oid,
        Err(error) => return Err(error),
    };
    match catalog::pg_proc_catalog_entry(oid) {
        Some(entry) => done(Value::Text(catalog::format_type_oid(entry.ret_oid))),
        None => done(Value::Null),
    }
}

/// The outcome of `pg_function_is_visible`.
pub open spec fn function_visible_outcome(oid: ValueView) -> Outcome {
    match integer_in(oid) {
        Ok(oid) => finished(ValueView::Boolean(catalog::entry_with_oid(oid) is Some)),
        Err(error) => Err(error),
    }
}

/// The display name of the type whose OID a word spells.
pub open spec fn type_of_word(word: Seq<char>) -> Seq<char> {
    match text::integer_of(word) {
        Some(oid) if i64::MIN <= oid <= i64::MAX => catalog::type_display(oid),
        _ => "???"@,
    }
}

/// The display names of the types whose OIDs the words of a text spell.
pub open spec fn type_list(text: Seq<char>) -> Seq<char> {
    text::joined(
        text::words(text).map_values(|word: Seq<char>| type_of_word(word)),
        ", "@,
    )
}

fn eval_oidvectortypes(value: &Value) -> (result: Result<Evaluation>)
    ensures
        is_outcome(result, text_outcome(value@, |text: Seq<char>| type_list(text))),
{
    let list: &str = match text_arg(value) {
        Ok(list) => list,
        Err(error) => return Err(error),
    };
    let chars: Vec<char> = text::chars_of(list);
    let words: Vec<Vec<char>> = text::split_words(&chars);
    let ghost names_of = text::words(list@).map_values(|word: Seq<char>| type_of_word(word));
    let mut names: Vec<String> = Vec::new();
    let mut i: usize = 0;
    while i < words.len()
        invariant
            i <= words@.len(),
            text::word_views(words@) == text::words(list@),
            names_of == text::words(list@).map_values(|word: Seq<char>| type_of_word(word)),
            text::string_views(names@) == names_of.take(i as int),
        decreases words@.len() - i,
    {
        let ghost before = names@;
        let word: &Vec<char> = &words[i];
        assert(text::word_views(words@)[i as int] == word@);
        assert(word@.subrange(0, word@.len() as int) == word@);
        let name: String = match text::parse_signed(word, 0, word.len()) {
            Some(oid) => catalog::format_type_oid(oid),
            None => "???".to_owned(),
        };
        assert(name@ == names_of[i as int]);
        names.push(name);
        i += 1;
        assert(text::string_views(names@) =~= text::string_views(before).push(name@));
        assert(text::string_views(names@) =~= names_of.take(i as int));
    }
    assert(text::word_views(words@).len() == words@.len());
    assert(names_of.take(i as int) =~= names_of);
    done(Value::Text(text::join(&names, ", ")))
}

/// The product and its version as `version()` reports it.
pub open spec fn version_text(product_version: Seq<char>) -> Seq<char> {
    "PostgreSQL 16.0 (SaguaroDB "@ + product_version + ")"@
}

impl Evaluator {
    /// The least number of arguments that a call has.
    pub open spec fn least_arguments(self) -> nat {
        match self {
            Evaluator::Replace => 3,
            Evaluator::Power
            | Evaluator::Mod
            | Evaluator::Position
            | Evaluator::Left
            | Evaluator::Right
            | Evaluator::Substring
            | Evaluator::Extract
            | Evaluator::FormatType
            | Evaluator::PgGetExpr
            | Evaluator::PgGetSerialSequence => 2,
            Evaluator::Concat
            | Evaluator::StatementTimestamp
            | Evaluator::Version
            | Evaluator::CurrentDatabase
            | Evaluator::CurrentSchema
            | Evaluator::CurrentUser
            | Evaluator::PgBackendPid
            | Evaluator::True
            | Evaluator::Null
            | Evaluator::Zero
            | Evaluator::False => 0,
            _ => 1,
        }
    }

    /// What a call comes to.
    pub open spec fn outcome(
        self,
        values: Seq<ValueView>,
        context: StatementContext,
        product_version: Seq<char>,
    ) -> Outcome {
        match self {
            Evaluator::Upper => text_outcome(
                values[0],
                |text: Seq<char>| strings::uppercase(text),
            ),
            Evaluator::Lower => text_outcome(
                values[0],
                |text: Seq<char>| strings::lowercase(text),
            ),
            Evaluator::Trim => text_outcome(values[0], |text: Seq<char>| text::trimmed(text)),
            Evaluator::Length => length_outcome(values[0]),
            Evaluator::Abs => abs_outcome(values[0]),
            Evaluator::Floor => rounding_outcome(values[0], Rounding::Floor),
            Evaluator::Ceil => rounding_outcome(values[0], Rounding::Ceil),
            Evaluator::Round => rounding_outcome(values[0], Rounding::Round),
            Evaluator::Sqrt => sqrt_outcome(values[0]),
            Evaluator::Power => power_outcome(values[0], values[1]),
            Evaluator::Mod => mod_outcome(values[0], values[1]),
            Evaluator::Replace => replace_outcome(values[0], values[1], values[2]),
            Evaluator::Position => position_outcome(values[0], values[1]),
            Evaluator::Left => end_outcome(values[0], values[1], true),
            Evaluator::Right => end_outcome(values[0], values[1], false),
            Evaluator::Concat => concat_outcome(values, 0, Seq::empty()),
            Evaluator::Substring => substring_outcome(values),
            Evaluator::Extract => extract_outcome(values[0], values[1]),
            Evaluator::StatementTimestamp => finished(
                ValueView::TimestampTz(context.statement_timestamp_micros),
            ),
            Evaluator::Version => finished(ValueView::Text(version_text(product_version))),
            Evaluator::CurrentDatabase => finished(
                ValueView::Text(context.session_info@.database),
            ),
            Evaluator::CurrentSchema => finished(ValueView::Text("public"@)),
            Evaluator::CurrentUser => finished(ValueView::Text(context.session_info@.user)),
            Evaluator::PgBackendPid => finished(
                ValueView::Integer(context.session_info@.backend_pid as i64),
            ),
            Evaluator::CurrentSetting => match text_in(values[0]) {
                Ok(name) => Ok(EvaluationView::Setting(name)),
                Err(error) => Err(error),
            },
            Evaluator::FormatType => format_type_outcome(values[0], values[1]),
            Evaluator::PgGetIndexdef => indexdef_outcome(values),
            Evaluator::PgTableIsVisible => oid_outcome(
                values[0],
                |oid: i64| EvaluationView::Catalog(CatalogQueryView::TableIsVisible(oid)),
            ),
            Evaluator::PgGetExpr => expr_outcome(values),
            Evaluator::PgGetConstraintdef => constraintdef_outcome(values),
            Evaluator::PgGetUserbyid => oid_outcome(
                values[0],
                |oid: i64| EvaluationView::Catalog(CatalogQueryView::UserById(oid)),
            ),
            Evaluator::True => finished(ValueView::Boolean(true)),
            Evaluator::Null => finished(ValueView::Null),
            Evaluator::PgGetSerialSequence => serial_outcome(values[0], values[1]),
            Evaluator::Zero => finished(ValueView::Integer(0)),
            Evaluator::False => finished(ValueView::Boolean(false)),
            Evaluator::ToRegclass => match text_in(values[0]) {
                Ok(name) => Ok(EvaluationView::Catalog(CatalogQueryView::RegClass(name))),
                Err(error) => Err(error),
            },
            Evaluator::ToRegtype => regtype_outcome(values[0]),
            Evaluator::PgGetFunctiondef => proc_outcome(
                values[0],
                |entry: PgProcView| definition_text(entry),
            ),
            Evaluator::PgGetFunctionArguments => proc_outcome(
                values[0],
                |entry: PgProcView| arguments_text(entry),
            ),
            Evaluator::PgGetFunctionResult => proc_outcome(
                values[0],
                |entry: PgProcView| catalog::type_display(entry.ret_oid as int),
            ),
            Evaluator::PgFunctionIsVisible => function_visible_outcome(values[0]),
            Evaluator::Oidvectortypes => text_outcome(
                values[0],
                |text: Seq<char>| type_list(text),
            ),
        }
    }

    /// The least number of arguments that a call has.
    pub fn arguments_needed(self) -> (count: usize)
        ensures
            count == self.least_arguments(),
    {
        match self {
            Evaluator::Replace => 3,
            Evaluator::Power
            | Evaluator::Mod
            | Evaluator::Position
            | Evaluator::Left
            | Evaluator::Right
            | Evaluator::Substring
            | Evaluator::Extract
            | Evaluator::FormatType
            | Evaluator::PgGetExpr
            | Evaluator::PgGetSerialSequence => 2,
            Evaluator::Concat
            | Evaluator::StatementTimestamp
            | Evaluator::Version
            | Evaluator::CurrentDatabase
            | Evaluator::CurrentSchema
            | Evaluator::CurrentUser
            | Evaluator::PgBackendPid
            | Evaluator::True
            | Evaluator::Null
            | Evaluator::Zero
            | Evaluator::False => 0,
            _ => 1,
        }
    }

    /// Evaluates a call on arguments whose number has been checked. `product_version`
    /// is the version that `version()` reports.
    pub fn evaluate(
        self,
        values: &[Value],
        context: &StatementContext,
        product_version: &str,
    ) -> (result: Result<Evaluation>)
        requires
            values@.len() >= self.least_arguments(),
        ensures
            is_outcome(
                result,
                self.outcome(row::value_views(values@), *context, product_version@),
            ),
            self == Evaluator::Upper && values@[0]@ is Text && strings::all_ascii(
                values@[0]@->Text_0,
            ) ==> is_outcome(
                result,
                finished(ValueView::Text(strings::ascii_raised(values@[0]@->Text_0))),
            ),
            self == Evaluator::Lower && values@[0]@ is Text && strings::all_ascii(
                values@[0]@->Text_0,
            ) ==> is_outcome(
                result,
                finished(ValueView::Text(text::ascii_lowered(values@[0]@->Text_0))),
            ),
    {
        let ghost views = row::value_views(values@);
        proof {
            assert(views.len() == values@.len());
            assert(views.len() > 0 ==> views[0] == values@[0]@);
            assert(views.len() > 1 ==> views[1] == values@[1]@);
            assert(views.len() > 2 ==> views[2] == values@[2]@);
        }
        match self {
            Evaluator::Upper => eval_upper(&values[0]),
            Evaluator::Lower => eval_lower(&values[0]),
            Evaluator::Trim => eval_trim(&values[0]),
            Evaluator::Length => eval_length(&values[0]),
            Evaluator::Abs => eval_abs(&values[0]),
            Evaluator::Floor => numeric_round(&values[0], Rounding::Floor),
            Evaluator::Ceil => numeric_round(&values[0], Rounding::Ceil),
            Evaluator::Round => numeric_round(&values[0], Rounding::Round),
            Evaluator::Sqrt => eval_sqrt(&values[0]),
            Evaluator::Power => eval_power(&values[0], &values[1]),
            Evaluator::Mod => eval_mod(&values[0], &values[1]),
            Evaluator::Replace => eval_replace(&values[0], &values[1], &values[2]),
            Evaluator::Position => eval_position(&values[0], &values[1]),
            Evaluator::Left => eval_left_right(&values[0], &values[1], true),
            Evaluator::Right => eval_left_right(&values[0], &values[1], false),
            Evaluator::Concat => eval_concat(values),
            Evaluator::Substring => eval_substring(values),
            Evaluator::Extract => eval_extract(&values[0], &values[1]),
            Evaluator::StatementTimestamp => done(
                Value::TimestampTz(context.statement_timestamp_micros),
            ),
            Evaluator::Version => done(
                Value::Text(text::joined_text("PostgreSQL 16.0 (SaguaroDB ", product_version, ")")),
            ),
            Evaluator::CurrentDatabase => done(Value::Text(owned(&context.session_info.database))),
            Evaluator::CurrentSchema => done(Value::Text(owned("public"))),
            Evaluator::CurrentUser => done(Value::Text(owned(&context.session_info.user))),
            Evaluator::PgBackendPid => done(
                Value::Integer(context.session_info.backend_pid as i64),
            ),
            Evaluator::CurrentSetting => match text_arg(&values[0]) {
                Ok(name) => Ok(Evaluation::Setting(owned(name))),
                Err(error) => Err(error),
            },
            Evaluator::FormatType => eval_format_type(&values[0], &values[1]),
            Evaluator::PgGetIndexdef => eval_pg_get_indexdef(values),
            Evaluator::PgTableIsVisible => match integer_arg(&values[0]) {
                Ok(oid) => Ok(Evaluation::Catalog(CatalogQuery::TableIsVisible(oid))),
                Err(error) => Err(error),
            },
            Evaluator::PgGetExpr => eval_pg_get_expr(values),
            Evaluator::PgGetConstraintdef => eval_pg_get_constraintdef(values),
            Evaluator::PgGetUserbyid => match integer_arg(&values[0]) {
                Ok(oid) => Ok(Evaluation::Catalog(CatalogQuery::UserById(oid))),
                Err(error) => Err(error),
            },
            Evaluator::True => done(Value::Boolean(true)),
            Evaluator::Null => done(Value::Null),
            Evaluator::PgGetSerialSequence => eval_pg_get_serial_sequence(&values[0], &values[1]),
            Evaluator::Zero => done(Value::Integer(0)),
            Evaluator::False => done(Value::Boolean(false)),
            Evaluator::ToRegclass => match text_arg(&values[0]) {
                Ok(name) => Ok(Evaluation::Catalog(CatalogQuery::RegClass(owned(name)))),
                Err(error) => Err(error),
            },
            Evaluator::ToRegtype => eval_to_regtype(&values[0]),
            Evaluator::PgGetFunctiondef => eval_pg_get_functiondef(&values[0]),
            Evaluator::PgGetFunctionArguments => eval_pg_get_function_arguments(&values[0]),
            Evaluator::PgGetFunctionResult => eval_pg_get_function_result(&values[0]),
            Evaluator::PgFunctionIsVisible => match integer_arg(&values[0]) {
                Ok(oid) => done(Value::Boolean(catalog::pg_proc_catalog_entry(oid).is_some())),
                Err(error) => Err(error),
            },
            Evaluator::Oidvectortypes => eval_oidvectortypes(&values[0]),
        }
    }
}

} // verus!
