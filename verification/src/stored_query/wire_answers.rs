//! What a check of wire types can find, given the answers that a resolver may give.

use vstd::prelude::*;

use crate::error::{self, ErrorView, Result};
use crate::ids::{ColumnObjectId, TableId};
use crate::pg_type::PgType;
use crate::stored_query::ranges::{self, RangeTarget, Ranges};
use crate::stored_query::wire_types::{self, WireType};
use crate::stored_query::{
    self, StoredColumnReference, StoredFrom, StoredQueryBody, StoredQueryExpr, StoredQueryV1,
};

verus! {

/// A resolver, in some state that it can be in, answers that for a column.
pub open spec fn may_answer<F: FnMut(TableId, ColumnObjectId) -> Result<PgType>>(
    table: TableId,
    column: ColumnObjectId,
    answer: WireType,
) -> bool {
    exists|resolver: F, found: Result<PgType>| #[trigger]
        call_ensures(resolver, (table, column), found) && match found {
            Ok(wire_type) => answer == WireType::Ok(wire_type),
            Err(error) => answer == WireType::Err(error@),
        }
}

/// The catalog column that an output expression is, for which a resolver is asked.
pub open spec fn asked_column(expr: StoredQueryExpr, ranges: Ranges) -> Option<
    (TableId, ColumnObjectId),
> {
    match expr {
        StoredQueryExpr::InputRef { range, column, .. } => if ranges.contains_key(range) {
            match (ranges[range], column) {
                (
                    RangeTarget::Catalog { table, .. },
                    StoredColumnReference::Catalog(column),
                ) => Some((table, column)),
                _ => None,
            }
        } else {
            None
        },
        _ => None,
    }
}

/// An output expression can turn out to have that wire type: it is what the resolver may
/// answer for a catalog column, and what the expression itself says otherwise.
pub open spec fn can_have_type<F: FnMut(TableId, ColumnObjectId) -> Result<PgType>>(
    expr: StoredQueryExpr,
    ranges: Ranges,
    found: WireType,
) -> bool {
    match asked_column(expr, ranges) {
        Some((table, column)) => may_answer::<F>(table, column, found),
        None => found == wire_types::output_type(
            expr,
            ranges,
            |table: TableId, column: ColumnObjectId| found,
        ),
    }
}

/// What can be found in the subqueries of an expression.
pub open spec fn can_find_in_expr<F: FnMut(TableId, ColumnObjectId) -> Result<PgType>>(
    expr: StoredQueryExpr,
    problem: Option<ErrorView>,
) -> bool
    decreases expr, 2nat, 0nat,
{
    ||| problem is Some && can_find_in_operands::<F>(expr, 0, problem)
    ||| can_find_in_operands::<F>(expr, 0, None) && match expr.subquery() {
        Some(query) => can_find_in_query::<F>(query, problem),
        None => problem is None,
    }
}

/// What can be found in the operands from `start` on.
pub open spec fn can_find_in_operands<F: FnMut(TableId, ColumnObjectId) -> Result<PgType>>(
    expr: StoredQueryExpr,
    start: nat,
    problem: Option<ErrorView>,
) -> bool
    decreases expr, 1nat, expr.operands().len() - start,
{
    if start >= expr.operands().len() {
        problem is None
    } else {
        proof {
            expr.lemma_operand_is_smaller(start as int);
        }
        let here = expr.operands()[start as int];
        ||| problem is Some && can_find_in_expr::<F>(here, problem)
        ||| can_find_in_expr::<F>(here, None) && can_find_in_operands::<F>(expr, start + 1, problem)
    }
}

/// What can be found in the inputs of a query.
pub open spec fn can_find_in_from<F: FnMut(TableId, ColumnObjectId) -> Result<PgType>>(
    from: StoredFrom,
    problem: Option<ErrorView>,
) -> bool
    decreases from, 2nat, 0nat,
{
    match from {
        StoredFrom::Table { .. } | StoredFrom::System { .. } => problem is None,
        StoredFrom::Derived { query, .. } => can_find_in_query::<F>(*query, problem),
        StoredFrom::TableFunction { .. } => can_find_in_args::<F>(from, 0, problem),
        StoredFrom::Join { left, right, condition, .. } => {
            ||| problem is Some && can_find_in_from::<F>(*left, problem)
            ||| can_find_in_from::<F>(*left, None) && problem is Some && can_find_in_from::<F>(
                *right,
                problem,
            )
            ||| can_find_in_from::<F>(*left, None) && can_find_in_from::<F>(*right, None)
                && match condition {
                Some(condition) => can_find_in_expr::<F>(condition, problem),
                None => problem is None,
            }
        },
    }
}

/// What can be found in the arguments of a table function from `start` on.
pub open spec fn can_find_in_args<F: FnMut(TableId, ColumnObjectId) -> Result<PgType>>(
    from: StoredFrom,
    start: nat,
    problem: Option<ErrorView>,
) -> bool
    decreases from, 1nat, from.function_args().len() - start,
{
    if start >= from.function_args().len() {
        problem is None
    } else {
        proof {
            from.lemma_arg_is_smaller(start as int);
        }
        let here = from.function_args()[start as int];
        ||| problem is Some && can_find_in_expr::<F>(here, problem)
        ||| can_find_in_expr::<F>(here, None) && can_find_in_args::<F>(from, start + 1, problem)
    }
}

/// What can be found in the expressions of a query from `start` up to `end`.
pub open spec fn can_find_in_direct<F: FnMut(TableId, ColumnObjectId) -> Result<PgType>>(
    query: StoredQueryV1,
    start: nat,
    end: nat,
    problem: Option<ErrorView>,
) -> bool
    decreases query, 1nat, end - start,
{
    if start >= end || start >= query.direct_exprs().len() {
        problem is None
    } else {
        proof {
            query.lemma_direct_expr_is_smaller(start as int);
        }
        let here = query.direct_exprs()[start as int];
        ||| problem is Some && can_find_in_expr::<F>(here, problem)
        ||| can_find_in_expr::<F>(here, None) && can_find_in_direct::<F>(
            query,
            start + 1,
            end,
            problem,
        )
    }
}

/// What can be found in the outer columns that a query uses, from `start` on.
pub open spec fn can_find_in_outer<F: FnMut(TableId, ColumnObjectId) -> Result<PgType>>(
    query: StoredQueryV1,
    start: nat,
    problem: Option<ErrorView>,
) -> bool
    decreases query, 1nat, query.correlations@.len() - start,
{
    if start >= query.correlations@.len() {
        problem is None
    } else {
        proof {
            query.lemma_outer_expr_is_smaller(start as int);
        }
        let here = query.correlations@[start as int].outer;
        ||| problem is Some && can_find_in_expr::<F>(here, problem)
        ||| can_find_in_expr::<F>(here, None) && can_find_in_outer::<F>(query, start + 1, problem)
    }
}

/// What can be found in the items of a select list from `start` on: that one has no wire
/// type, that it does not have the declared one, or something in it.
pub open spec fn can_find_in_items<F: FnMut(TableId, ColumnObjectId) -> Result<PgType>>(
    query: StoredQueryV1,
    start: nat,
    ranges: Ranges,
    problem: Option<ErrorView>,
) -> bool
    decreases query, 1nat, wire_types::paired_items(query) - start,
{
    if start >= wire_types::paired_items(query) {
        problem is None
    } else {
        let select = query.body->Select_0;
        let expr = select.columns@[start as int].expr;
        proof {
            wire_types::lemma_item_is_smaller(query, start as int);
        }
        exists|found: WireType| #[trigger]
            can_have_type::<F>(expr, ranges, found) && match found {
                Err(error) => problem == Some(error),
                Ok(expected) => if select.output_schema@[start as int].pg_type != expected {
                    problem == Some(
                        error::internal_error(
                            "stored SELECT output has inconsistent PostgreSQL type metadata"@,
                        ),
                    )
                } else {
                    ||| problem is Some && can_find_in_expr::<F>(expr, problem)
                    ||| can_find_in_expr::<F>(expr, None) && can_find_in_items::<F>(
                        query,
                        start + 1,
                        ranges,
                        problem,
                    )
                },
            }
    }
}

/// What can be found in the body of a query.
pub open spec fn can_find_in_body<F: FnMut(TableId, ColumnObjectId) -> Result<PgType>>(
    query: StoredQueryV1,
    problem: Option<ErrorView>,
) -> bool
    decreases query, 2nat, 0nat,
{
    let body = query.body_exprs().len();
    match query.body {
        StoredQueryBody::Select(select) => {
            let keys = stored_query::distinct_keys(select.distinct).len();
            let ranges = match select.from {
                Some(from) => ranges::with_ranges(from, false, Map::empty(), 0),
                None => Ok(Map::empty()),
            };
            match ranges {
                Err(error) => problem == Some(error),
                Ok(ranges) => {
                    let fine_from = match select.from {
                        Some(from) => can_find_in_from::<F>(from, None),
                        None => true,
                    };
                    let fine_items = fine_from && can_find_in_items::<F>(query, 0, ranges, None);
                    let fine_keys = fine_items && can_find_in_direct::<F>(query, 0, keys, None);
                    ||| problem is Some && match select.from {
                        Some(from) => can_find_in_from::<F>(from, problem),
                        None => false,
                    }
                    ||| problem is Some && fine_from && can_find_in_items::<F>(
                        query,
                        0,
                        ranges,
                        problem,
                    )
                    ||| problem is Some && fine_items && can_find_in_direct::<F>(
                        query,
                        0,
                        keys,
                        problem,
                    )
                    ||| fine_keys && can_find_in_direct::<F>(
                        query,
                        keys + select.columns@.len(),
                        body,
                        problem,
                    )
                },
            }
        },
        StoredQueryBody::Values(values) => {
            if !wire_types::has_default_types(values.output_schema@) {
                problem == Some(
                    error::internal_error(
                        "stored VALUES output has inconsistent PostgreSQL type metadata"@,
                    ),
                )
            } else {
                can_find_in_direct::<F>(query, 0, body, problem)
            }
        },
        StoredQueryBody::SetOp(set_op) => {
            if !wire_types::has_default_types(set_op.output_schema@) {
                problem == Some(
                    error::internal_error(
                        "stored set-operation output has inconsistent PostgreSQL type metadata"@,
                    ),
                )
            } else {
                ||| problem is Some && can_find_in_query::<F>(*set_op.left, problem)
                ||| can_find_in_query::<F>(*set_op.left, None) && can_find_in_query::<F>(
                    *set_op.right,
                    problem,
                )
            }
        },
    }
}

/// What can be found in a query: its first wrong wire type, as the resolver may answer.
pub open spec fn can_find_in_query<F: FnMut(TableId, ColumnObjectId) -> Result<PgType>>(
    query: StoredQueryV1,
    problem: Option<ErrorView>,
) -> bool
    decreases query, 3nat, 0nat,
{
    let body = query.body_exprs().len();
    let end = query.direct_exprs().len();
    ||| problem is Some && can_find_in_body::<F>(query, problem)
    ||| can_find_in_body::<F>(query, None) && problem is Some && can_find_in_direct::<F>(
        query,
        body,
        end,
        problem,
    )
    ||| can_find_in_body::<F>(query, None) && can_find_in_direct::<F>(query, body, end, None)
        && can_find_in_outer::<F>(query, 0, problem)
}

} // verus!
