//! The wire types of query outputs.

use vstd::prelude::*;

use crate::error::{self, DbError, ErrorView, Result};
use crate::ids::{ColumnObjectId, TableId};
use crate::pg_type::PgType;
use crate::stored_query::ranges::{
    self, collect_ranges, RangeTable, RangeTarget, Ranges, StoredRangeTarget,
};
use crate::stored_query::wire_answers;
use crate::stored_query::{
    self, StoredColumnReference, StoredFrom, StoredQueryBody, StoredQueryColumn, StoredQueryExpr,
    StoredQueryV1,
};

verus! {

/// A wire type or the reason why there is none.
pub type WireType = core::result::Result<PgType, ErrorView>;

/// The wire types of catalog columns.
pub type ColumnTypes = spec_fn(TableId, ColumnObjectId) -> WireType;

/// A resolver gives the wire types that `types` describes, whatever it was asked
/// before.
pub open spec fn resolves_as<F: FnMut(TableId, ColumnObjectId) -> Result<PgType>>(
    types: ColumnTypes,
) -> bool {
    forall|resolver: F, table: TableId, column: ColumnObjectId, found: Result<PgType>| #[trigger]
        call_ensures(resolver, (table, column), found) ==> match found {
            Ok(wire_type) => types(table, column) == WireType::Ok(wire_type),
            Err(error) => types(table, column) == WireType::Err(error@),
        }
}

/// A resolver can be asked for any column.
pub open spec fn is_total<F: FnMut(TableId, ColumnObjectId) -> Result<PgType>>() -> bool {
    forall|resolver: F, table: TableId, column: ColumnObjectId| #[trigger]
        call_requires(resolver, (table, column))
}

/// The outcome of a check that finds the given problem.
pub open spec fn reports(result: Result<()>, problem: Option<ErrorView>) -> bool {
    match result {
        Ok(_) => problem is None,
        Err(error) => problem == Some(error@),
    }
}

/// The problem that a check reported, if any.
pub open spec fn problem_of(result: Result<()>) -> Option<ErrorView> {
    match result {
        Ok(_) => None,
        Err(error) => Some(error@),
    }
}

/// A wire type that was found, or the reason why there is none.
pub open spec fn wire_type_view(found: Result<PgType>) -> WireType {
    match found {
        Ok(wire_type) => WireType::Ok(wire_type),
        Err(error) => WireType::Err(error@),
    }
}

/// The exact wire type of an output expression. Columns and casts carry their own;
/// anything else has the default one of its type.
pub open spec fn output_type(
    expr: StoredQueryExpr,
    ranges: Ranges,
    types: ColumnTypes,
) -> WireType {
    match expr {
        StoredQueryExpr::InputRef { range, column, .. } => {
            if !ranges.contains_key(range) {
                Err(error::internal_error("stored query output references unknown range"@))
            } else {
                match (ranges[range], column) {
                    (
                        RangeTarget::Catalog { table, .. },
                        StoredColumnReference::Catalog(column),
                    ) => types(table, column),
                    (
                        RangeTarget::Position { columns, .. },
                        StoredColumnReference::Position(position),
                    ) => {
                        if position < columns.len() {
                            Ok(columns[position as int].pg_type)
                        } else {
                            Err(
                                error::internal_error(
                                    "stored query output column position is out of range"@,
                                ),
                            )
                        }
                    },
                    _ => Err(
                        error::internal_error(
                            "stored query output column reference kind does not match range"@,
                        ),
                    ),
                }
            }
        },
        StoredQueryExpr::Cast { pg_type, .. } => Ok(pg_type),
        StoredQueryExpr::Function { pg_type: Some(pg_type), .. } => Ok(pg_type),
        _ => Ok(PgType::of_data_type(expr.spec_data_type())),
    }
}

/// The first wrong wire type in the subqueries of an expression.
pub open spec fn expr_problem(expr: StoredQueryExpr, types: ColumnTypes) -> Option<ErrorView>
    decreases expr, 2nat, 0nat,
{
    let inner = operands_problem(expr, 0, types);
    if inner is Some {
        inner
    } else {
        match expr.subquery() {
            Some(query) => query_problem(query, types),
            None => None,
        }
    }
}

/// The first wrong wire type in the operands from `start` on.
pub open spec fn operands_problem(
    expr: StoredQueryExpr,
    start: nat,
    types: ColumnTypes,
) -> Option<ErrorView>
    decreases expr, 1nat, expr.operands().len() - start,
{
    if start >= expr.operands().len() {
        None
    } else {
        proof {
            expr.lemma_operand_is_smaller(start as int);
        }
        let here = expr_problem(expr.operands()[start as int], types);
        if here is Some {
            here
        } else {
            operands_problem(expr, start + 1, types)
        }
    }
}

/// The first wrong wire type in the inputs of a query.
pub open spec fn from_problem(from: StoredFrom, types: ColumnTypes) -> Option<ErrorView>
    decreases from, 2nat, 0nat,
{
    match from {
        StoredFrom::Table { .. } | StoredFrom::System { .. } => None,
        StoredFrom::Derived { query, .. } => query_problem(*query, types),
        StoredFrom::TableFunction { .. } => args_problem(from, 0, types),
        StoredFrom::Join { left, right, condition, .. } => {
            let on_left = from_problem(*left, types);
            let on_right = from_problem(*right, types);
            if on_left is Some {
                on_left
            } else if on_right is Some {
                on_right
            } else {
                match condition {
                    Some(condition) => expr_problem(condition, types),
                    None => None,
                }
            }
        },
    }
}

/// The first wrong wire type in the arguments of a table function from `start` on.
pub open spec fn args_problem(from: StoredFrom, start: nat, types: ColumnTypes) -> Option<ErrorView>
    decreases from, 1nat, from.function_args().len() - start,
{
    if start >= from.function_args().len() {
        None
    } else {
        proof {
            from.lemma_arg_is_smaller(start as int);
        }
        let here = expr_problem(from.function_args()[start as int], types);
        if here is Some {
            here
        } else {
            args_problem(from, start + 1, types)
        }
    }
}

/// The first wrong wire type in the expressions of a query from `start` up to `end`.
pub open spec fn direct_problem(
    query: StoredQueryV1,
    start: nat,
    end: nat,
    types: ColumnTypes,
) -> Option<ErrorView>
    decreases query, 1nat, end - start,
{
    if start >= end || start >= query.direct_exprs().len() {
        None
    } else {
        proof {
            query.lemma_direct_expr_is_smaller(start as int);
        }
        let here = expr_problem(query.direct_exprs()[start as int], types);
        if here is Some {
            here
        } else {
            direct_problem(query, start + 1, end, types)
        }
    }
}

/// The first wrong wire type in the outer columns that a query uses, from `start`
/// on.
pub open spec fn outer_problem(
    query: StoredQueryV1,
    start: nat,
    types: ColumnTypes,
) -> Option<ErrorView>
    decreases query, 1nat, query.correlations@.len() - start,
{
    if start >= query.correlations@.len() {
        None
    } else {
        proof {
            query.lemma_outer_expr_is_smaller(start as int);
        }
        let here = expr_problem(query.correlations@[start as int].outer, types);
        if here is Some {
            here
        } else {
            outer_problem(query, start + 1, types)
        }
    }
}

/// The items of a select list that have an output column beside them.
pub open spec fn paired_items(query: StoredQueryV1) -> nat {
    match query.body {
        StoredQueryBody::Select(select) => {
            if select.columns@.len() < select.output_schema@.len() {
                select.columns@.len()
            } else {
                select.output_schema@.len()
            }
        },
        _ => 0,
    }
}

/// The first item of a select list from `start` on that does not have the declared
/// wire type, or that has a wrong one in it.
pub open spec fn items_problem(
    query: StoredQueryV1,
    start: nat,
    ranges: Ranges,
    types: ColumnTypes,
) -> Option<ErrorView>
    decreases query, 1nat, paired_items(query) - start,
{
    if start >= paired_items(query) {
        None
    } else {
        let select = query.body->Select_0;
        let expr = select.columns@[start as int].expr;
        proof {
            lemma_item_is_smaller(query, start as int);
        }
        match output_type(expr, ranges, types) {
            Err(error) => Some(error),
            Ok(expected) => {
                if select.output_schema@[start as int].pg_type != expected {
                    Some(
                        error::internal_error(
                            "stored SELECT output has inconsistent PostgreSQL type metadata"@,
                        ),
                    )
                } else {
                    let here = expr_problem(expr, types);
                    if here is Some {
                        here
                    } else {
                        items_problem(query, start + 1, ranges, types)
                    }
                }
            },
        }
    }
}

/// The items of a select list are smaller than the query.
pub proof fn lemma_item_is_smaller(query: StoredQueryV1, index: int)
    requires
        query.body is Select,
        0 <= index < query.body->Select_0.columns@.len(),
    ensures
        decreases_to!(query => query.body->Select_0.columns@[index].expr),
{
    let select = query.body->Select_0;
    let keys = stored_query::distinct_keys(select.distinct).len() as int;
    query.lemma_direct_expr_is_smaller(keys + index);
    assert(query.direct_exprs()[keys + index] == select.columns@[index].expr);
}

/// Every output has the default wire type of its type.
pub open spec fn has_default_types(output: Seq<StoredQueryColumn>) -> bool {
    forall|i: int|
        0 <= i < output.len() ==> (#[trigger] output[i]).pg_type == PgType::of_data_type(
            output[i].data_type,
        )
}

/// The first wrong wire type in the body of a query.
pub open spec fn body_problem(query: StoredQueryV1, types: ColumnTypes) -> Option<ErrorView>
    decreases query, 2nat, 0nat,
{
    let body = query.body_exprs().len();
    match query.body {
        StoredQueryBody::Select(select) => {
            let keys = stored_query::distinct_keys(select.distinct).len();
            let ranges = match select.from {
                Some(from) => ranges::with_ranges(from, false, Map::empty(), 0),
                None => Ok(Map::empty()),
            };
            match ranges {
                Err(error) => Some(error),
                Ok(ranges) => {
                    let in_from = match select.from {
                        Some(from) => from_problem(from, types),
                        None => None,
                    };
                    let in_items = items_problem(query, 0, ranges, types);
                    let in_keys = direct_problem(query, 0, keys, types);
                    if in_from is Some {
                        in_from
                    } else if in_items is Some {
                        in_items
                    } else if in_keys is Some {
                        in_keys
                    } else {
                        direct_problem(query, keys + select.columns@.len(), body, types)
                    }
                },
            }
        },
        StoredQueryBody::Values(values) => {
            if !has_default_types(values.output_schema@) {
                Some(
                    error::internal_error(
                        "stored VALUES output has inconsistent PostgreSQL type metadata"@,
                    ),
                )
            } else {
                direct_problem(query, 0, body, types)
            }
        },
        StoredQueryBody::SetOp(set_op) => {
            let on_left = query_problem(*set_op.left, types);
            if !has_default_types(set_op.output_schema@) {
                Some(
                    error::internal_error(
                        "stored set-operation output has inconsistent PostgreSQL type metadata"@,
                    ),
                )
            } else if on_left is Some {
                on_left
            } else {
                query_problem(*set_op.right, types)
            }
        },
    }
}

/// The first wrong wire type in a query.
pub open spec fn query_problem(query: StoredQueryV1, types: ColumnTypes) -> Option<ErrorView>
    decreases query, 3nat, 0nat,
{
    let in_body = body_problem(query, types);
    let in_order = direct_problem(
        query,
        query.body_exprs().len(),
        query.direct_exprs().len(),
        types,
    );
    if in_body is Some {
        in_body
    } else if in_order is Some {
        in_order
    } else {
        outer_problem(query, 0, types)
    }
}

fn expression_output_pg_type<'a, F: FnMut(TableId, ColumnObjectId) -> Result<PgType>>(
    expr: &StoredQueryExpr,
    ranges: &RangeTable<'a>,
    resolver: &mut F,
) -> (found: Result<PgType>)
    requires
        ranges.well_formed(),
        is_total::<F>(),
    ensures
        forall|types: ColumnTypes| #[trigger]
            resolves_as::<F>(types) ==> match found {
                Ok(wire_type) => output_type(*expr, ranges@, types) == WireType::Ok(wire_type),
                Err(error) => output_type(*expr, ranges@, types) == WireType::Err(error@),
            },
        wire_answers::can_have_type::<F>(*expr, ranges@, wire_type_view(found)),
{
    match expr {
        StoredQueryExpr::InputRef { range, column, .. } => match ranges.get(*range) {
            None => Err(DbError::internal("stored query output references unknown range")),
            Some(target) => match (target, column) {
                (
                    StoredRangeTarget::Catalog { table, .. },
                    StoredColumnReference::Catalog(column),
                ) => resolver(table, *column),
                (
                    StoredRangeTarget::Position { columns, .. },
                    StoredColumnReference::Position(position),
                ) => {
                    let position: usize = *position as usize;
                    if position < columns.len() {
                        Ok(columns[position].pg_type.clone())
                    } else {
                        Err(
                            DbError::internal("stored query output column position is out of range"),
                        )
                    }
                },
                _ => Err(
                    DbError::internal(
                        "stored query output column reference kind does not match range",
                    ),
                ),
            },
        },
        StoredQueryExpr::Cast { pg_type, .. } => Ok(pg_type.clone()),
        StoredQueryExpr::Function { pg_type: Some(pg_type), .. } => Ok(pg_type.clone()),
        _ => Ok(PgType::from(expr.data_type())),
    }
}

fn do_have_default_types(output: &Vec<StoredQueryColumn>) -> (default: bool)
    ensures
        default == has_default_types(output@),
{
    let mut i: usize = 0;
    while i < output.len()
        invariant
            i <= output@.len(),
            forall|j: int|
                0 <= j < i ==> (#[trigger] output@[j]).pg_type == PgType::of_data_type(
                    output@[j].data_type,
                ),
        decreases output@.len() - i,
    {
        if output[i].pg_type != PgType::from(&output[i].data_type) {
            assert(output@[i as int] == output@[i as int]);
            return false;
        }
        i += 1;
    }
    true
}

fn validate_expr_output_pg_types<F: FnMut(TableId, ColumnObjectId) -> Result<PgType>>(
    expr: &StoredQueryExpr,
    resolver: &mut F,
) -> (result: Result<()>)
    requires
        is_total::<F>(),
    ensures
        forall|types: ColumnTypes| #[trigger]
            resolves_as::<F>(types) ==> reports(result, expr_problem(*expr, types)),
        wire_answers::can_find_in_expr::<F>(*expr, problem_of(result)),
    decreases *expr, 2nat, 0nat,
{
    let list: Vec<&StoredQueryExpr> = expr.operand_list();
    let mut i: usize = 0;
    while i < list.len()
        invariant
            i <= list@.len(),
            stored_query::refers_to(list@, expr.operands()),
            is_total::<F>(),
            forall|types: ColumnTypes| #[trigger]
                resolves_as::<F>(types) ==> operands_problem(*expr, 0, types) == operands_problem(
                    *expr,
                    i as nat,
                    types,
                ),
            forall|problem: Option<ErrorView>| #[trigger]
                wire_answers::can_find_in_operands::<F>(*expr, i as nat, problem)
                    ==> wire_answers::can_find_in_operands::<F>(*expr, 0, problem),
        decreases list@.len() - i,
    {
        proof {
            expr.lemma_operand_is_smaller(i as int);
        }
        if let Err(error) = validate_expr_output_pg_types(list[i], resolver) {
            assert(wire_answers::can_find_in_operands::<F>(*expr, i as nat, Some(error@)));
            return Err(error);
        }
        i += 1;
        assert forall|problem: Option<ErrorView>| #[trigger]
            wire_answers::can_find_in_operands::<F>(
                *expr,
                i as nat,
                problem,
            ) implies wire_answers::can_find_in_operands::<F>(*expr, 0, problem) by {
            assert(wire_answers::can_find_in_operands::<F>(*expr, (i - 1) as nat, problem));
        }
    }
    assert(wire_answers::can_find_in_operands::<F>(*expr, i as nat, None));
    match expr.subquery_in() {
        Some(query) => validate_query_output_pg_types(query, resolver),
        None => Ok(()),
    }
}

fn validate_from_output_pg_types<F: FnMut(TableId, ColumnObjectId) -> Result<PgType>>(
    from: &StoredFrom,
    resolver: &mut F,
) -> (result: Result<()>)
    requires
        is_total::<F>(),
    ensures
        forall|types: ColumnTypes| #[trigger]
            resolves_as::<F>(types) ==> reports(result, from_problem(*from, types)),
        wire_answers::can_find_in_from::<F>(*from, problem_of(result)),
    decreases *from, 2nat, 0nat,
{
    match from {
        StoredFrom::Table { .. } | StoredFrom::System { .. } => Ok(()),
        StoredFrom::Derived { query, .. } => validate_query_output_pg_types(query, resolver),
        StoredFrom::TableFunction { args, .. } => {
            let mut i: usize = 0;
            while i < args.len()
                invariant
                    i <= args@.len(),
                    from.function_args() == args@,
                    *from is TableFunction,
                    is_total::<F>(),
                    forall|types: ColumnTypes| #[trigger]
                        resolves_as::<F>(types) ==> args_problem(*from, 0, types) == args_problem(
                            *from,
                            i as nat,
                            types,
                        ),
                    forall|problem: Option<ErrorView>| #[trigger]
                        wire_answers::can_find_in_args::<F>(*from, i as nat, problem)
                            ==> wire_answers::can_find_in_args::<F>(*from, 0, problem),
                decreases args@.len() - i,
            {
                proof {
                    from.lemma_arg_is_smaller(i as int);
                }
                if let Err(error) = validate_expr_output_pg_types(&args[i], resolver) {
                    assert(wire_answers::can_find_in_args::<F>(*from, i as nat, Some(error@)));
                    return Err(error);
                }
                i += 1;
                assert forall|problem: Option<ErrorView>| #[trigger]
                    wire_answers::can_find_in_args::<F>(
                        *from,
                        i as nat,
                        problem,
                    ) implies wire_answers::can_find_in_args::<F>(*from, 0, problem) by {
                    assert(wire_answers::can_find_in_args::<F>(*from, (i - 1) as nat, problem));
                }
            }
            assert(wire_answers::can_find_in_args::<F>(*from, i as nat, None));
            Ok(())
        },
        StoredFrom::Join { left, right, condition, .. } => {
            if let Err(error) = validate_from_output_pg_types(left, resolver) {
                return Err(error);
            }
            if let Err(error) = validate_from_output_pg_types(right, resolver) {
                return Err(error);
            }
            match condition {
                Some(condition) => validate_expr_output_pg_types(condition, resolver),
                None => Ok(()),
            }
        },
    }
}

fn validate_direct<F: FnMut(TableId, ColumnObjectId) -> Result<PgType>>(
    query: &StoredQueryV1,
    list: &Vec<&StoredQueryExpr>,
    start: usize,
    end: usize,
    resolver: &mut F,
) -> (result: Result<()>)
    requires
        is_total::<F>(),
        stored_query::refers_to(list@, query.direct_exprs()),
        start <= end <= list@.len(),
    ensures
        forall|types: ColumnTypes| #[trigger]
            resolves_as::<F>(types) ==> reports(
                result,
                direct_problem(*query, start as nat, end as nat, types),
            ),
        wire_answers::can_find_in_direct::<F>(
            *query,
            start as nat,
            end as nat,
            problem_of(result),
        ),
    decreases *query, 1nat, end - start,
{
    let mut i: usize = start;
    while i < end
        invariant
            start <= i <= end <= list@.len(),
            stored_query::refers_to(list@, query.direct_exprs()),
            is_total::<F>(),
            forall|types: ColumnTypes| #[trigger]
                resolves_as::<F>(types) ==> direct_problem(
                    *query,
                    start as nat,
                    end as nat,
                    types,
                ) == direct_problem(*query, i as nat, end as nat, types),
            forall|problem: Option<ErrorView>| #[trigger]
                wire_answers::can_find_in_direct::<F>(*query, i as nat, end as nat, problem)
                    ==> wire_answers::can_find_in_direct::<F>(
                    *query,
                    start as nat,
                    end as nat,
                    problem,
                ),
        decreases end - i,
    {
        proof {
            query.lemma_direct_expr_is_smaller(i as int);
        }
        if let Err(error) = validate_expr_output_pg_types(list[i], resolver) {
            assert(wire_answers::can_find_in_direct::<F>(
                *query,
                i as nat,
                end as nat,
                Some(error@),
            ));
            return Err(error);
        }
        i += 1;
        assert forall|problem: Option<ErrorView>| #[trigger]
            wire_answers::can_find_in_direct::<F>(
                *query,
                i as nat,
                end as nat,
                problem,
            ) implies wire_answers::can_find_in_direct::<F>(
            *query,
            start as nat,
            end as nat,
            problem,
        ) by {
            assert(wire_answers::can_find_in_direct::<F>(
                *query,
                (i - 1) as nat,
                end as nat,
                problem,
            ));
        }
    }
    assert(wire_answers::can_find_in_direct::<F>(*query, i as nat, end as nat, None));
    Ok(())
}

fn validate_items<'a, F: FnMut(TableId, ColumnObjectId) -> Result<PgType>>(
    query: &StoredQueryV1,
    ranges: &RangeTable<'a>,
    resolver: &mut F,
) -> (result: Result<()>)
    requires
        is_total::<F>(),
        query.body is Select,
        ranges.well_formed(),
    ensures
        forall|types: ColumnTypes| #[trigger]
            resolves_as::<F>(types) ==> reports(result, items_problem(*query, 0, ranges@, types)),
        wire_answers::can_find_in_items::<F>(*query, 0, ranges@, problem_of(result)),
    decreases *query, 1nat, paired_items(*query),
{
    if let StoredQueryBody::Select(select) = &query.body {
        let mut i: usize = 0;
        while i < select.columns.len() && i < select.output_schema.len()
            invariant
                i <= paired_items(*query),
                query.body is Select,
                *select == query.body->Select_0,
                ranges.well_formed(),
                is_total::<F>(),
                forall|types: ColumnTypes| #[trigger]
                    resolves_as::<F>(types) ==> items_problem(*query, 0, ranges@, types)
                        == items_problem(*query, i as nat, ranges@, types),
                forall|problem: Option<ErrorView>| #[trigger]
                    wire_answers::can_find_in_items::<F>(*query, i as nat, ranges@, problem)
                        ==> wire_answers::can_find_in_items::<F>(*query, 0, ranges@, problem),
            decreases select.columns@.len() - i,
        {
            let expr: &StoredQueryExpr = &select.columns[i].expr;
            let found: Result<PgType> = expression_output_pg_type(expr, ranges, resolver);
            let ghost shown: WireType = wire_type_view(found);
            assert(wire_answers::can_have_type::<F>(
                query.body->Select_0.columns@[i as int].expr,
                ranges@,
                shown,
            ));
            let expected: PgType = match found {
                Ok(expected) => expected,
                Err(error) => {
                    assert(wire_answers::can_find_in_items::<F>(
                        *query,
                        i as nat,
                        ranges@,
                        Some(error@),
                    ));
                    return Err(error);
                },
            };
            if select.output_schema[i].pg_type != expected {
                let error: DbError = DbError::internal(
                    "stored SELECT output has inconsistent PostgreSQL type metadata",
                );
                assert(wire_answers::can_find_in_items::<F>(
                    *query,
                    i as nat,
                    ranges@,
                    Some(error@),
                ));
                return Err(error);
            }
            proof {
                lemma_item_is_smaller(*query, i as int);
            }
            if let Err(error) = validate_expr_output_pg_types(expr, resolver) {
                assert(wire_answers::can_find_in_items::<F>(
                    *query,
                    i as nat,
                    ranges@,
                    Some(error@),
                ));
                return Err(error);
            }
            i += 1;
            assert forall|problem: Option<ErrorView>| #[trigger]
                wire_answers::can_find_in_items::<F>(
                    *query,
                    i as nat,
                    ranges@,
                    problem,
                ) implies wire_answers::can_find_in_items::<F>(*query, 0, ranges@, problem) by {
                assert(wire_answers::can_find_in_items::<F>(
                    *query,
                    (i - 1) as nat,
                    ranges@,
                    problem,
                ));
            }
        }
        assert(wire_answers::can_find_in_items::<F>(*query, i as nat, ranges@, None));
    }
    Ok(())
}

fn validate_body_output_pg_types<F: FnMut(TableId, ColumnObjectId) -> Result<PgType>>(
    query: &StoredQueryV1,
    list: &Vec<&StoredQueryExpr>,
    body: usize,
    resolver: &mut F,
) -> (result: Result<()>)
    requires
        is_total::<F>(),
        stored_query::refers_to(list@, query.direct_exprs()),
        body == query.body_exprs().len(),
    ensures
        forall|types: ColumnTypes| #[trigger]
            resolves_as::<F>(types) ==> reports(result, body_problem(*query, types)),
        wire_answers::can_find_in_body::<F>(*query, problem_of(result)),
    decreases *query, 2nat, 0nat,
{
    match &query.body {
        StoredQueryBody::Select(select) => {
            let mut own: RangeTable<'_> = RangeTable::new();
            if let Some(from) = &select.from {
                if let Err(error) = collect_ranges(from, false, &mut own, 0) {
                    return Err(error);
                }
                proof {
                    query.lemma_from_is_smaller();
                }
                if let Err(error) = validate_from_output_pg_types(from, resolver) {
                    return Err(error);
                }
            }
            if let Err(error) = validate_items(query, &own, resolver) {
                return Err(error);
            }
            let keys: usize = match &select.distinct {
                Some(stored_query::StoredDistinct::On(keys)) => keys.len(),
                _ => 0,
            };
            assert(keys == stored_query::distinct_keys(select.distinct).len());
            if let Err(error) = validate_direct(query, list, 0, keys, resolver) {
                return Err(error);
            }
            validate_direct(query, list, keys + select.columns.len(), body, resolver)
        },
        StoredQueryBody::Values(values) => {
            if !do_have_default_types(&values.output_schema) {
                return Err(
                    DbError::internal(
                        "stored VALUES output has inconsistent PostgreSQL type metadata",
                    ),
                );
            }
            validate_direct(query, list, 0, body, resolver)
        },
        StoredQueryBody::SetOp(set_op) => {
            if !do_have_default_types(&set_op.output_schema) {
                return Err(
                    DbError::internal(
                        "stored set-operation output has inconsistent PostgreSQL type metadata",
                    ),
                );
            }
            if let Err(error) = validate_query_output_pg_types(&set_op.left, resolver) {
                return Err(error);
            }
            validate_query_output_pg_types(&set_op.right, resolver)
        },
    }
}

fn validate_query_output_pg_types<F: FnMut(TableId, ColumnObjectId) -> Result<PgType>>(
    query: &StoredQueryV1,
    resolver: &mut F,
) -> (result: Result<()>)
    requires
        is_total::<F>(),
    ensures
        forall|types: ColumnTypes| #[trigger]
            resolves_as::<F>(types) ==> reports(result, query_problem(*query, types)),
        wire_answers::can_find_in_query::<F>(*query, problem_of(result)),
    decreases *query, 3nat, 0nat,
{
    let list: Vec<&StoredQueryExpr> = query.direct_expr_list();
    let body: usize = list.len() - query.order_by.len();
    if let Err(error) = validate_body_output_pg_types(query, &list, body, resolver) {
        return Err(error);
    }
    if let Err(error) = validate_direct(query, &list, body, list.len(), resolver) {
        return Err(error);
    }
    let mut i: usize = 0;
    while i < query.correlations.len()
        invariant
            i <= query.correlations@.len(),
            is_total::<F>(),
            forall|types: ColumnTypes| #[trigger]
                resolves_as::<F>(types) ==> query_problem(*query, types) == outer_problem(
                    *query,
                    i as nat,
                    types,
                ),
            forall|problem: Option<ErrorView>| #[trigger]
                wire_answers::can_find_in_outer::<F>(*query, i as nat, problem)
                    ==> wire_answers::can_find_in_query::<F>(*query, problem),
        decreases query.correlations@.len() - i,
    {
        proof {
            query.lemma_outer_expr_is_smaller(i as int);
        }
        if let Err(error) = validate_expr_output_pg_types(
            &query.correlations[i].outer,
            resolver,
        ) {
            assert(wire_answers::can_find_in_outer::<F>(*query, i as nat, Some(error@)));
            return Err(error);
        }
        i += 1;
        assert forall|problem: Option<ErrorView>| #[trigger]
            wire_answers::can_find_in_outer::<F>(
                *query,
                i as nat,
                problem,
            ) implies wire_answers::can_find_in_query::<F>(*query, problem) by {
            assert(wire_answers::can_find_in_outer::<F>(*query, (i - 1) as nat, problem));
        }
    }
    assert(wire_answers::can_find_in_outer::<F>(*query, i as nat, None));
    Ok(())
}

impl StoredQueryV1 {
    /// Validates every query output's exact PostgreSQL wire type. Catalog
    /// columns are resolved by stable identity; positional ranges carry their
    /// wire types in the stored query itself.
    pub fn validate_output_pg_types<F: FnMut(TableId, ColumnObjectId) -> Result<PgType>>(
        &self,
        resolver: &mut F,
    ) -> (result: Result<()>)
        requires
            is_total::<F>(),
        ensures
            forall|types: ColumnTypes| #[trigger]
                resolves_as::<F>(types) ==> reports(result, query_problem(*self, types)),
            wire_answers::can_find_in_query::<F>(*self, problem_of(result)),
    {
        validate_query_output_pg_types(self, resolver)
    }
}

} // verus!
