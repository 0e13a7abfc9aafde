//! Calls whose result the server knows: settings and rendered catalog facts.

use vstd::prelude::*;

use crate::context::{CatalogIntrospectionProvider, SystemStateProvider};
use crate::error::{DbError, Result};
use crate::functions::evaluate::{self, CatalogQuery};
use crate::value::{Value, ValueView};

verus! {

/// The result of a call, given an answer that is a text.
pub open spec fn is_text_answer(answer: Result<Option<String>>, result: Result<Value>) -> bool {
    match answer {
        Ok(text) => result is Ok && result->Ok_0@ == match text {
            Some(text) => ValueView::Text(text@),
            None => ValueView::Null,
        },
        Err(error) => result == Err::<Value, DbError>(error),
    }
}

/// The result of a call, given an answer that is an integer.
pub open spec fn is_integer_answer(answer: Result<Option<i64>>, result: Result<Value>) -> bool {
    match answer {
        Ok(n) => result is Ok && result->Ok_0@ == match n {
            Some(n) => ValueView::Integer(n),
            None => ValueView::Null,
        },
        Err(error) => result == Err::<Value, DbError>(error),
    }
}

/// The result of a call, given an answer that is a truth value.
pub open spec fn is_boolean_answer(answer: Result<bool>, result: Result<Value>) -> bool {
    match answer {
        Ok(truth) => result is Ok && result->Ok_0@ == ValueView::Boolean(truth),
        Err(error) => result == Err::<Value, DbError>(error),
    }
}

/// The provider was asked exactly this, and the result is its answer.
pub open spec fn is_answered<P: CatalogIntrospectionProvider>(
    query: CatalogQuery,
    provider: &P,
    result: Result<Value>,
) -> bool {
    match query {
        CatalogQuery::IndexDef { index_oid, column, pretty } => exists|
            answer: Result<Option<String>>,
        | #[trigger]
            call_ensures(P::pg_get_indexdef, (provider, index_oid, column, pretty), answer)
                && is_text_answer(answer, result),
        CatalogQuery::ConstraintDef { constraint_oid, pretty } => exists|
            answer: Result<Option<String>>,
        | #[trigger]
            call_ensures(P::pg_get_constraintdef, (provider, constraint_oid, pretty), answer)
                && is_text_answer(answer, result),
        CatalogQuery::Expr { expr, relation_oid, pretty } => exists|
            text: &str,
            answer: Result<Option<String>>,
        | #[trigger]
            call_ensures(P::pg_get_expr, (provider, text, relation_oid, pretty), answer) && text@
                == expr@ && is_text_answer(answer, result),
        CatalogQuery::UserById(oid) => exists|answer: Result<Option<String>>| #[trigger]
            call_ensures(P::pg_get_userbyid, (provider, oid), answer) && is_text_answer(
                answer,
                result,
            ),
        CatalogQuery::TableIsVisible(oid) => exists|answer: Result<bool>| #[trigger]
            call_ensures(P::pg_table_is_visible, (provider, oid), answer) && is_boolean_answer(
                answer,
                result,
            ),
        CatalogQuery::RegClass(name) => exists|text: &str, answer: Result<Option<i64>>| #[trigger]
            call_ensures(P::to_regclass, (provider, text), answer) && text@ == name@
                && is_integer_answer(answer, result),
        CatalogQuery::SerialSequence { table, column } => exists|
            table_text: &str,
            column_text: &str,
            answer: Result<Option<String>>,
        | #[trigger]
            call_ensures(P::pg_get_serial_sequence, (provider, table_text, column_text), answer)
                && table_text@ == table@ && column_text@ == column@ && is_text_answer(
                answer,
                result,
            ),
    }
}

fn text_answer(answer: Result<Option<String>>) -> (result: Result<Value>)
    ensures
        is_text_answer(answer, result),
{
    match answer {
        Ok(text) => Ok(evaluate::text_or_null(text)),
        Err(error) => Err(error),
    }
}

impl CatalogQuery {
    /// Asks the server, and makes the result of the call from its answer.
    pub fn ask<P: CatalogIntrospectionProvider>(&self, provider: &P) -> (result: Result<Value>)
        ensures
            is_answered(*self, provider, result),
    {
        match self {
            CatalogQuery::IndexDef { index_oid, column, pretty } => {
                text_answer(provider.pg_get_indexdef(*index_oid, *column, *pretty))
            },
            CatalogQuery::ConstraintDef { constraint_oid, pretty } => {
                text_answer(provider.pg_get_constraintdef(*constraint_oid, *pretty))
            },
            CatalogQuery::Expr { expr, relation_oid, pretty } => {
                text_answer(provider.pg_get_expr(expr.as_str(), *relation_oid, *pretty))
            },
            CatalogQuery::UserById(oid) => text_answer(provider.pg_get_userbyid(*oid)),
            CatalogQuery::TableIsVisible(oid) => match provider.pg_table_is_visible(*oid) {
                Ok(visible) => Ok(Value::Boolean(visible)),
                Err(error) => Err(error),
            },
            CatalogQuery::RegClass(name) => match provider.to_regclass(name.as_str()) {
                Ok(oid) => Ok(evaluate::integer_or_null(oid)),
                Err(error) => Err(error),
            },
            CatalogQuery::SerialSequence { table, column } => {
                text_answer(provider.pg_get_serial_sequence(table.as_str(), column.as_str()))
            },
        }
    }
}

/// `current_setting(name)`: asks the server for the setting.
pub fn ask_setting<S: SystemStateProvider>(name: &str, provider: &S) -> (result: Result<Value>)
    ensures
        exists|setting: Option<String>| #[trigger]
            call_ensures(S::setting, (provider, name), setting) && evaluate::is_setting_result(
                name@,
                setting,
                result,
            ),
{
    let setting: Option<String> = provider.setting(name);
    evaluate::finish_setting(name, setting)
}

/// An answer of the catalog is the result of the call: a text, a number or a truth value as
/// it is, NULL where there is nothing, and an error as it is.
pub proof fn answers_are_results(
    text: Result<Option<String>>,
    number: Result<Option<i64>>,
    truth: Result<bool>,
    a: Result<Value>,
    b: Result<Value>,
    c: Result<Value>,
)
    requires
        is_text_answer(text, a),
        is_integer_answer(number, b),
        is_boolean_answer(truth, c),
    ensures
        a is Ok <==> text is Ok,
        text matches Ok(Some(found)) ==> a->Ok_0@ == ValueView::Text(found@),
        text matches Ok(None) ==> a->Ok_0@ is Null,
        text matches Err(error) ==> a->Err_0 == error,
        b is Ok <==> number is Ok,
        number matches Ok(Some(found)) ==> b->Ok_0@ == ValueView::Integer(found),
        number matches Ok(None) ==> b->Ok_0@ is Null,
        number matches Err(error) ==> b->Err_0 == error,
        c is Ok <==> truth is Ok,
        truth matches Ok(found) ==> c->Ok_0@ == ValueView::Boolean(found),
        truth matches Err(error) ==> c->Err_0 == error,
{
}

} // verus!
