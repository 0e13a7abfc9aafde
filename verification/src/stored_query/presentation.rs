//! The wire types of a query's output: how a client sees its columns.

use vstd::prelude::*;

use crate::pg_type::PgType;
use crate::stored_query::ranges::{self, RangeTarget, Ranges};
use crate::stored_query::wire_types::{self, ColumnTypes};
use crate::stored_query::{StoredFrom, StoredQueryBody, StoredQueryExpr, StoredQueryV1};

verus! {

/// A column of a catalog table is shown as the catalog declares it, a column of another
/// input as the input declares it, a cast as what it casts to, and a function as it
/// declares. Anything else is shown in the default way of its type.
pub proof fn expressions_are_shown_as_declared(
    expr: StoredQueryExpr,
    known: Ranges,
    types: ColumnTypes,
    wire_type: PgType,
)
    requires
        wire_types::output_type(expr, known, types) matches Ok(found) && found == wire_type,
    ensures
        expr is InputRef ==> known.contains_key(expr->range) && match known[expr->range] {
            RangeTarget::Catalog { table, .. } => expr->column is Catalog && (types(
                table,
                expr->column->Catalog_0,
            ) matches Ok(declared) && declared == wire_type),
            RangeTarget::Position { columns, .. } => {
                &&& expr->column is Position
                &&& expr->column->Position_0 < columns.len()
                &&& wire_type == columns[expr->column->Position_0 as int].pg_type
            },
        },
        expr is Cast ==> wire_type == expr->Cast_pg_type,
        expr is Function && expr->Function_pg_type is Some ==> wire_type
            == expr->Function_pg_type->0,
        expr is Function && expr->Function_pg_type is None ==> wire_type == PgType::of_data_type(
            expr.spec_data_type(),
        ),
        !(expr is InputRef) && !(expr is Cast) && !(expr is Function) ==> wire_type
            == PgType::of_data_type(expr.spec_data_type()),
{
}

proof fn lemma_items(query: StoredQueryV1, start: nat, known: Ranges, types: ColumnTypes, i: int)
    requires
        wire_types::items_problem(query, start, known, types) is None,
        start <= i < wire_types::paired_items(query),
    ensures
        ({
            let select = query.body->Select_0;
            let expr = select.columns@[i].expr;
            &&& wire_types::output_type(expr, known, types) matches Ok(found) && found
                == select.output_schema@[i].pg_type
            &&& wire_types::expr_problem(expr, types) is None
        }),
    decreases i - start,
{
    if start < i {
        lemma_items(query, start + 1, known, types, i);
    }
}

/// The output of an accepted `SELECT` shows each column as its expression is shown; the
/// output of a `VALUES` list or a set operation shows every column in the default way of
/// its type, and the arms of the set operation are accepted too.
pub proof fn outputs_are_shown_as_their_expressions(
    query: StoredQueryV1,
    types: ColumnTypes,
    i: int,
)
    requires
        wire_types::query_problem(query, types) is None,
        0 <= i < query.outputs().len(),
    ensures
        match query.body {
            StoredQueryBody::Select(select) => {
                let known = match select.from {
                    Some(from) => ranges::with_ranges(from, false, Map::empty(), 0),
                    None => Ok(Map::empty()),
                };
                &&& known is Ok
                &&& i < select.columns@.len() ==> (wire_types::output_type(
                    select.columns@[i].expr,
                    known->Ok_0,
                    types,
                ) matches Ok(found) && found == select.output_schema@[i].pg_type)
            },
            StoredQueryBody::Values(values) => values.output_schema@[i].pg_type
                == PgType::of_data_type(values.output_schema@[i].data_type),
            StoredQueryBody::SetOp(set_op) => {
                &&& set_op.output_schema@[i].pg_type == PgType::of_data_type(
                    set_op.output_schema@[i].data_type,
                )
                &&& wire_types::query_problem(*set_op.left, types) is None
                &&& wire_types::query_problem(*set_op.right, types) is None
            },
        },
{
    if let StoredQueryBody::Select(select) = query.body {
        let known = match select.from {
            Some(from) => ranges::with_ranges(from, false, Map::empty(), 0),
            None => Ok(Map::empty()),
        };
        if i < select.columns@.len() {
            lemma_items(query, 0, known->Ok_0, types, i);
        }
    }
}

proof fn lemma_operands(expr: StoredQueryExpr, start: nat, types: ColumnTypes, i: int)
    requires
        wire_types::operands_problem(expr, start, types) is None,
        start <= i < expr.operands().len(),
    ensures
        wire_types::expr_problem(expr.operands()[i], types) is None,
    decreases i - start,
{
    if start < i {
        lemma_operands(expr, start + 1, types, i);
    }
}

/// Where an expression is accepted, so are its operands and the query that stands in it;
/// where the inputs of a query are accepted, so are the derived tables among them.
pub proof fn parts_are_shown_rightly_too(
    expr: StoredQueryExpr,
    from: StoredFrom,
    types: ColumnTypes,
    i: int,
)
    ensures
        wire_types::expr_problem(expr, types) is None ==> {
            &&& 0 <= i < expr.operands().len() ==> wire_types::expr_problem(
                expr.operands()[i],
                types,
            ) is None
            &&& expr.subquery() is Some ==> wire_types::query_problem(expr.subquery()->0, types)
                is None
        },
        wire_types::from_problem(from, types) is None ==> match from {
            StoredFrom::Derived { query, .. } => wire_types::query_problem(*query, types) is None,
            StoredFrom::Join { left, right, condition, .. } => {
                &&& wire_types::from_problem(*left, types) is None
                &&& wire_types::from_problem(*right, types) is None
                &&& condition is Some ==> wire_types::expr_problem(condition->0, types) is None
            },
            _ => true,
        },
{
    if wire_types::expr_problem(expr, types) is None && 0 <= i < expr.operands().len() {
        lemma_operands(expr, 0, types, i);
    }
}

} // verus!
