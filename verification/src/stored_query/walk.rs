//! The walk that validates a stored query and gathers the catalog objects it uses.

use vstd::prelude::*;

use crate::catalog_change::{CatalogObjectId, CatalogObjectSet};
use crate::error::{self, DbError, ErrorView, Result};
use crate::ids::{BindingId, FunctionId};
use crate::pg_type::PgType;
use crate::schema::DataType;
use crate::stored_query::node::{
    self, check_columns, check_list, limit_exceeded, require_boolean_expression, ScopeView,
    StoredExprScope,
};
use crate::stored_query::placement::{
    self, expr_contains_aggregate, expr_contains_subquery, validate_expr_placement,
    validate_select_semantics, ExprPlacement,
};
use crate::stored_query::ranges::{self, collect_ranges, RangeTable, Ranges};
use crate::stored_query::{
    self, StoredCorrelatedColumn, StoredDistinct, StoredFrom, StoredJoinType, StoredQueryBody,
    StoredQueryColumn, StoredQueryExpr, StoredQueryV1, StoredRangeColumn, StoredRowLock,
    StoredSelect, StoredSetOp, GENERATE_SERIES_FUNCTION_ID, MAX_STORED_QUERY_DEPTH,
    MAX_STORED_QUERY_NODES, STORED_QUERY_VERSION, UNNEST_FUNCTION_ID,
};
use crate::text;

verus! {

/// How far a walk has come: the nodes that it has counted and the catalog objects
/// that it has met.
pub ghost struct WalkState {
    pub nodes: nat,
    pub objects: Set<CatalogObjectId>,
}

/// What a walk gives: how far it has come, or the first problem that it has met.
pub type Walk = core::result::Result<WalkState, ErrorView>;

/// What a walk over a `FROM` clause gives: also the ranges that it has passed.
pub type FromWalk = core::result::Result<(WalkState, Ranges), ErrorView>;

impl WalkState {
    /// A walk that has not begun.
    pub open spec fn start() -> WalkState {
        WalkState { nodes: 0, objects: Set::empty() }
    }

    /// One more node, if the limit allows it.
    pub open spec fn counted(self) -> Walk {
        if self.nodes + 1 > MAX_STORED_QUERY_NODES {
            Err(node::limit_error("stored query exceeds node limit"@))
        } else {
            Ok(WalkState { nodes: self.nodes + 1, ..self })
        }
    }

    /// More catalog objects.
    pub open spec fn having_met(self, objects: Set<CatalogObjectId>) -> WalkState {
        WalkState { objects: self.objects.union(objects), ..self }
    }

    /// One more catalog object.
    pub open spec fn having_met_one(self, object: CatalogObjectId) -> WalkState {
        WalkState { objects: self.objects.insert(object), ..self }
    }
}

/// The first of two problems.
pub open spec fn first(a: Option<ErrorView>, b: Option<ErrorView>) -> Option<ErrorView> {
    if a is Some {
        a
    } else {
        b
    }
}

/// What a list of expressions is, which decides what else holds of its items.
#[derive(Clone, Copy)]
pub enum ItemRule<'a> {
    /// Nothing else holds.
    Free,
    /// The items belong to one clause.
    Placed(ExprPlacement),
    /// The items are a row of a `VALUES` list with the given columns.
    Values(&'a Vec<StoredQueryColumn>),
    /// The items are the outer columns that a query uses.
    Correlated(&'a Vec<StoredCorrelatedColumn>),
    /// The items are the operands of an expression.
    Operand(&'a StoredQueryExpr),
}

impl<'a> ItemRule<'a> {
    /// What is wrong with an item before it is walked.
    pub open spec fn problem_before(self, index: int, item: StoredQueryExpr) -> Option<ErrorView> {
        match self {
            ItemRule::Free | ItemRule::Operand(_) => None,
            ItemRule::Placed(placement) => item.placement_problem(placement),
            ItemRule::Values(columns) => {
                if item.spec_data_type() != columns@[index].data_type {
                    Some(
                        error::internal_error(
                            "stored VALUES expression type does not match output schema"@,
                        ),
                    )
                } else {
                    item.placement_problem(ExprPlacement::spec_non_aggregate())
                }
            },
            ItemRule::Correlated(_) => {
                if item is InputRef || item is OuterRef {
                    None
                } else {
                    Some(
                        error::internal_error(
                            "stored query correlation source is not an outer column reference"@,
                        ),
                    )
                }
            },
        }
    }

    /// What is wrong with an item once it has been walked.
    pub open spec fn problem_after(self, index: int, item: StoredQueryExpr) -> Option<ErrorView> {
        match self {
            ItemRule::Free | ItemRule::Placed(_) | ItemRule::Values(_) => None,
            ItemRule::Operand(expr) => expr.problem_between(index),
            ItemRule::Correlated(correlations) => {
                if item.spec_data_type() == correlations@[index].data_type && item.spec_nullable()
                    == correlations@[index].nullable {
                    None
                } else {
                    Some(
                        error::internal_error(
                            "stored query correlation has inconsistent metadata"@,
                        ),
                    )
                }
            },
        }
    }

    /// The rule speaks of a list of the given length.
    pub open spec fn covers(self, len: nat) -> bool {
        match self {
            ItemRule::Free | ItemRule::Placed(_) => true,
            ItemRule::Values(columns) => len == columns@.len(),
            ItemRule::Correlated(correlations) => len == correlations@.len(),
            ItemRule::Operand(expr) => len == expr.operands().len(),
        }
    }

    fn check_before(&self, index: usize, item: &StoredQueryExpr) -> (result: Result<()>)
        requires
            exists|len: nat| index < len && #[trigger] self.covers(len),
        ensures
            match result {
                Ok(_) => self.problem_before(index as int, *item) is None,
                Err(error) => self.problem_before(index as int, *item) == Some(error@),
            },
    {
        match self {
            ItemRule::Free | ItemRule::Operand(_) => Ok(()),
            ItemRule::Placed(placement) => validate_expr_placement(item, *placement),
            ItemRule::Values(columns) => {
                if *item.data_type() != columns[index].data_type {
                    return Err(
                        DbError::internal(
                            "stored VALUES expression type does not match output schema",
                        ),
                    );
                }
                validate_expr_placement(item, ExprPlacement::non_aggregate())
            },
            ItemRule::Correlated(_) => {
                if !matches!(
                    item,
                    StoredQueryExpr::InputRef { .. } | StoredQueryExpr::OuterRef { .. }
                ) {
                    return Err(
                        DbError::internal(
                            "stored query correlation source is not an outer column reference",
                        ),
                    );
                }
                Ok(())
            },
        }
    }

    fn check_after(&self, index: usize, item: &StoredQueryExpr) -> (result: Result<()>)
        requires
            exists|len: nat| index < len && #[trigger] self.covers(len),
        ensures
            match result {
                Ok(_) => self.problem_after(index as int, *item) is None,
                Err(error) => self.problem_after(index as int, *item) == Some(error@),
            },
    {
        match self {
            ItemRule::Free | ItemRule::Placed(_) | ItemRule::Values(_) => Ok(()),
            ItemRule::Operand(expr) => expr.check_between(index),
            ItemRule::Correlated(correlations) => {
                if *item.data_type() != correlations[index].data_type || item.nullable()
                    != correlations[index].nullable {
                    return Err(
                        DbError::internal("stored query correlation has inconsistent metadata"),
                    );
                }
                Ok(())
            },
        }
    }
}

/// Whether each output column of a query can be NULL, or the error for rows or arms
/// of the wrong width.
pub open spec fn nullability_of(query: StoredQueryV1) -> core::result::Result<
    Seq<bool>,
    ErrorView,
>
    decreases query,
{
    match query.body {
        StoredQueryBody::Select(select) => Ok(
            Seq::new(select.columns@.len(), |i: int| select.columns@[i].expr.spec_nullable()),
        ),
        StoredQueryBody::Values(values) => {
            let width = values.output_schema@.len();
            if exists|r: int|
                0 <= r < values.rows@.len() && (#[trigger] values.rows@[r])@.len() != width {
                Err(
                    error::internal_error(
                        "stored VALUES row width does not match output schema"@,
                    ),
                )
            } else {
                Ok(Seq::new(width, |c: int| column_nullable(values.rows@, c)))
            }
        },
        StoredQueryBody::SetOp(set_op) => match nullability_of(*set_op.left) {
            Err(error) => Err(error),
            Ok(left) => match nullability_of(*set_op.right) {
                Err(error) => Err(error),
                Ok(right) => {
                    if left.len() != right.len() || left.len() != set_op.output_schema@.len() {
                        Err(error::internal_error("stored set operation output width mismatch"@))
                    } else {
                        Ok(Seq::new(left.len(), |c: int| left[c] || right[c]))
                    }
                },
            },
        },
    }
}

/// Some row can be NULL in the given column.
pub open spec fn column_nullable(rows: Seq<Vec<StoredQueryExpr>>, column: int) -> bool {
    exists|r: int| 0 <= r < rows.len() && (#[trigger] rows[r])@[column].spec_nullable()
}

impl StoredQueryV1 {
    pub fn output_nullability(&self) -> (result: Result<Vec<bool>>)
        ensures
            match result {
                Ok(nullable) => nullability_of(*self) == Ok::<Seq<bool>, ErrorView>(nullable@),
                Err(error) => nullability_of(*self) == Err::<Seq<bool>, ErrorView>(error@),
            },
        decreases *self,
    {
        match &self.body {
            StoredQueryBody::Select(select) => {
                let mut nullable: Vec<bool> = Vec::new();
                let ghost all = Seq::new(
                    select.columns@.len(),
                    |i: int| select.columns@[i].expr.spec_nullable(),
                );
                let mut i: usize = 0;
                while i < select.columns.len()
                    invariant
                        i <= select.columns@.len(),
                        all == Seq::new(
                            select.columns@.len(),
                            |i: int| select.columns@[i].expr.spec_nullable(),
                        ),
                        nullable@ == all.take(i as int),
                    decreases select.columns@.len() - i,
                {
                    nullable.push(select.columns[i].expr.nullable());
                    i += 1;
                }
                assert(nullable@ == all);
                Ok(nullable)
            },
            StoredQueryBody::Values(values) => {
                let width: usize = values.output_schema.len();
                let mut nullable: Vec<bool> = Vec::new();
                let mut c: usize = 0;
                while c < width
                    invariant
                        c <= width,
                        nullable@.len() == c,
                        forall|k: int| 0 <= k < c ==> !#[trigger] nullable@[k],
                    decreases width - c,
                {
                    nullable.push(false);
                    c += 1;
                }
                let mut r: usize = 0;
                while r < values.rows.len()
                    invariant
                        r <= values.rows@.len(),
                        self.body == StoredQueryBody::Values(*values),
                        width == values.output_schema@.len(),
                        nullable@.len() == width,
                        forall|k: int|
                            0 <= k < r ==> (#[trigger] values.rows@[k])@.len() == width,
                        forall|k: int|
                            0 <= k < width ==> #[trigger] nullable@[k] == column_nullable(
                                values.rows@.take(r as int),
                                k,
                            ),
                    decreases values.rows@.len() - r,
                {
                    let row: &Vec<StoredQueryExpr> = &values.rows[r];
                    if row.len() != width {
                        assert(values.rows@[r as int]@.len() != width);
                        return Err(
                            DbError::internal("stored VALUES row width does not match output schema"),
                        );
                    }
                    let ghost before = nullable@;
                    let mut k: usize = 0;
                    while k < width
                        invariant
                            k <= width,
                            nullable@.len() == width,
                            row@.len() == width,
                            before.len() == width,
                            forall|j: int|
                                0 <= j < k ==> #[trigger] nullable@[j] == (before[j]
                                    || row@[j].spec_nullable()),
                            forall|j: int| k <= j < width ==> #[trigger] nullable@[j] == before[j],
                        decreases width - k,
                    {
                        let either: bool = nullable[k] || row[k].nullable();
                        nullable.set(k, either);
                        k += 1;
                    }
                    r += 1;
                    proof {
                        let now = values.rows@.take(r as int);
                        let earlier = values.rows@.take(r - 1);
                        assert forall|j: int| 0 <= j < width implies #[trigger] nullable@[j]
                            == column_nullable(now, j) by {
                            assert(now[r - 1] == *row);
                            if column_nullable(earlier, j) {
                                let i = choose|i: int|
                                    0 <= i < earlier.len() && (
                                    #[trigger] earlier[i])@[j].spec_nullable();
                                assert(now[i] == earlier[i]);
                            }
                            if column_nullable(now, j) {
                                let i = choose|i: int|
                                    0 <= i < now.len() && (
                                    #[trigger] now[i])@[j].spec_nullable();
                                if i < r - 1 {
                                    assert(earlier[i] == now[i]);
                                }
                            }
                            assert(before[j] == column_nullable(earlier, j));
                        }
                    }
                }
                proof {
                    assert(values.rows@.take(r as int) == values.rows@);
                    assert(nullable@ == Seq::new(
                        width as nat,
                        |c: int| column_nullable(values.rows@, c),
                    ));
                }
                Ok(nullable)
            },
            StoredQueryBody::SetOp(set_op) => {
                let left: Vec<bool> = match set_op.left.output_nullability() {
                    Ok(left) => left,
                    Err(error) => return Err(error),
                };
                let right: Vec<bool> = match set_op.right.output_nullability() {
                    Ok(right) => right,
                    Err(error) => return Err(error),
                };
                if left.len() != right.len() || left.len() != set_op.output_schema.len() {
                    return Err(DbError::internal("stored set operation output width mismatch"));
                }
                let ghost all = Seq::new(left@.len(), |c: int| left@[c] || right@[c]);
                let mut nullable: Vec<bool> = Vec::new();
                let mut c: usize = 0;
                while c < left.len()
                    invariant
                        c <= left@.len(),
                        left@.len() == right@.len(),
                        all == Seq::new(left@.len(), |c: int| left@[c] || right@[c]),
                        nullable@ == all.take(c as int),
                    decreases left@.len() - c,
                {
                    nullable.push(left[c] || right[c]);
                    c += 1;
                }
                assert(nullable@ == all);
                Ok(nullable)
            },
        }
    }
}

/// Where a walk stands, as the program holds it.
pub open spec fn state_of(nodes: usize, objects: CatalogObjectSet) -> WalkState {
    WalkState { nodes: nodes as nat, objects: objects@ }
}

/// A result and the counters beside it are what a walk gives.
pub open spec fn agrees(
    result: Result<()>,
    nodes: usize,
    objects: CatalogObjectSet,
    walk: Walk,
) -> bool {
    match result {
        Ok(_) => walk == Walk::Ok(state_of(nodes, objects)) && nodes <= MAX_STORED_QUERY_NODES,
        Err(error) => walk == Walk::Err(error@),
    }
}

/// Walks an expression.
pub open spec fn walk_expr(
    expr: StoredQueryExpr,
    scope: ScopeView,
    depth: nat,
    state: WalkState,
) -> Walk
    decreases MAX_STORED_QUERY_DEPTH - depth, 0nat, 0nat,
{
    match state.counted() {
        Err(error) => Err(error),
        Ok(state) => {
            if depth >= MAX_STORED_QUERY_DEPTH {
                Err(node::limit_error("stored query expression exceeds nesting limit"@))
            } else if expr.problem_before(scope) is Some {
                Err(expr.problem_before(scope)->0)
            } else {
                match walk_items(
                    expr.operands(),
                    ItemRule::Operand(&expr),
                    0,
                    scope,
                    depth + 1,
                    state.having_met(node::own_objects(expr, scope.ranges)),
                ) {
                    Err(error) => Err(error),
                    Ok(state) => {
                        if expr.problem_after() is Some {
                            Err(expr.problem_after()->0)
                        } else {
                            match expr.subquery() {
                                Some(query) => walk_query(query, Some(scope), depth + 1, state),
                                None => Ok(state),
                            }
                        }
                    },
                }
            }
        },
    }
}

/// Walks the items of a list, from `start` on.
pub open spec fn walk_items(
    items: Seq<StoredQueryExpr>,
    rule: ItemRule<'_>,
    start: nat,
    scope: ScopeView,
    depth: nat,
    state: WalkState,
) -> Walk
    decreases MAX_STORED_QUERY_DEPTH - depth, 1nat, items.len() - start,
{
    if start >= items.len() {
        Ok(state)
    } else {
        let item = items[start as int];
        if rule.problem_before(start as int, item) is Some {
            Err(rule.problem_before(start as int, item)->0)
        } else {
            match walk_expr(item, scope, depth, state) {
                Err(error) => Err(error),
                Ok(state) => {
                    if rule.problem_after(start as int, item) is Some {
                        Err(rule.problem_after(start as int, item)->0)
                    } else {
                        walk_items(items, rule, start + 1, scope, depth, state)
                    }
                },
            }
        }
    }
}

/// What is wrong with the width of a row of a `VALUES` list.
pub open spec fn row_problem(row: Seq<StoredQueryExpr>, width: nat) -> Option<ErrorView> {
    first(
        node::columns_problem(row.len()),
        if row.len() != width {
            Some(error::internal_error("stored VALUES row width does not match output schema"@))
        } else {
            None
        },
    )
}

/// Walks the rows of a `VALUES` list, from `start` on.
pub open spec fn walk_rows(
    rows: Seq<Vec<StoredQueryExpr>>,
    columns: &Vec<StoredQueryColumn>,
    start: nat,
    scope: ScopeView,
    depth: nat,
    state: WalkState,
) -> Walk
    decreases MAX_STORED_QUERY_DEPTH - depth, 2nat, rows.len() - start,
{
    if start >= rows.len() {
        Ok(state)
    } else if row_problem(rows[start as int]@, columns@.len()) is Some {
        Err(row_problem(rows[start as int]@, columns@.len())->0)
    } else {
        match walk_items(
            rows[start as int]@,
            ItemRule::Values(columns),
            0,
            scope,
            depth,
            state,
        ) {
            Err(error) => Err(error),
            Ok(state) => walk_rows(rows, columns, start + 1, scope, depth, state),
        }
    }
}

/// What is wrong with the items of a select list, from `start` on.
pub open spec fn items_problem(select: StoredSelect, start: nat) -> Option<ErrorView>
    decreases select.columns@.len() - start,
{
    if start >= select.columns@.len() {
        None
    } else {
        let item = select.columns@[start as int];
        let output = select.output_schema@[start as int];
        if item.alias@ != output.name@ || item.expr.spec_data_type() != output.data_type {
            Some(error::internal_error("stored SELECT item does not match output schema"@))
        } else {
            first(
                item.expr.placement_problem(ExprPlacement::spec_select_item()),
                items_problem(select, start + 1),
            )
        }
    }
}

/// What is wrong with the lists of a `SELECT`.
pub open spec fn select_list_problem(select: StoredSelect) -> Option<ErrorView> {
    first(
        node::columns_problem(select.columns@.len()),
        first(
            node::list_problem(select.group_by@.len()),
            first(
                node::columns_problem(select.output_schema@.len()),
                if select.columns@.len() == 0 || select.columns@.len()
                    != select.output_schema@.len() {
                    Some(error::internal_error("stored SELECT list does not match output schema"@))
                } else {
                    first(
                        items_problem(select, 0),
                        node::list_problem(stored_query::distinct_keys(select.distinct).len()),
                    )
                },
            ),
        ),
    )
}

/// Walks an optional condition.
pub open spec fn walk_condition(
    condition: Option<StoredQueryExpr>,
    context: Seq<char>,
    placement: ExprPlacement,
    scope: ScopeView,
    depth: nat,
    state: WalkState,
) -> Walk
    decreases MAX_STORED_QUERY_DEPTH - depth, 2nat, 0nat,
{
    match condition {
        None => Ok(state),
        Some(condition) => {
            if node::condition_problem(condition, context) is Some {
                Err(node::condition_problem(condition, context)->0)
            } else if condition.placement_problem(placement) is Some {
                Err(condition.placement_problem(placement)->0)
            } else {
                walk_expr(condition, scope, depth, state)
            }
        },
    }
}

/// Walks the input of a `SELECT`.
pub open spec fn walk_input(
    from: Option<StoredFrom>,
    scope: ScopeView,
    depth: nat,
    state: WalkState,
) -> Walk
    decreases MAX_STORED_QUERY_DEPTH - depth, 3nat, 0nat,
{
    match from {
        None => Ok(state),
        Some(from) => match walk_from(from, scope, Map::empty(), depth, state) {
            Err(error) => Err(error),
            Ok((state, available)) => {
                if available.len() != scope.ranges.len() {
                    Err(
                        error::internal_error(
                            "stored query FROM validation did not visit every range"@,
                        ),
                    )
                } else {
                    Ok(state)
                }
            },
        },
    }
}

/// Walks a `SELECT`.
pub open spec fn walk_select(
    select: StoredSelect,
    scope: ScopeView,
    depth: nat,
    state: WalkState,
) -> Walk
    decreases MAX_STORED_QUERY_DEPTH - depth, 4nat, 0nat,
{
    let row_rule = ItemRule::Placed(ExprPlacement::spec_non_aggregate());
    if depth >= MAX_STORED_QUERY_DEPTH {
        Err(node::limit_error("stored query exceeds nesting limit"@))
    } else if select_list_problem(select) is Some {
        Err(select_list_problem(select)->0)
    } else {
        match walk_items(
            stored_query::distinct_keys(select.distinct),
            row_rule,
            0,
            scope,
            depth,
            state,
        ) {
            Err(error) => Err(error),
            Ok(state) => match walk_input(select.from, scope, depth + 1, state) {
                Err(error) => Err(error),
                Ok(state) => match walk_items(
                    stored_query::item_exprs(select.columns@),
                    ItemRule::Free,
                    0,
                    scope,
                    depth,
                    state,
                ) {
                    Err(error) => Err(error),
                    Ok(state) => match walk_condition(
                        select.filter,
                        "WHERE"@,
                        ExprPlacement::spec_non_aggregate(),
                        scope,
                        depth,
                        state,
                    ) {
                        Err(error) => Err(error),
                        Ok(state) => match walk_items(
                            select.group_by@,
                            row_rule,
                            0,
                            scope,
                            depth,
                            state,
                        ) {
                            Err(error) => Err(error),
                            Ok(state) => walk_condition(
                                select.having,
                                "HAVING"@,
                                ExprPlacement::spec_select_item(),
                                scope,
                                depth,
                                state,
                            ),
                        },
                    },
                },
            },
        }
    }
}

/// A range's columns are those that a query gives.
pub open spec fn schema_matches_output(
    schema: Seq<StoredRangeColumn>,
    output: Seq<StoredQueryColumn>,
    nullable: Seq<bool>,
) -> bool {
    &&& schema.len() == output.len()
    &&& schema.len() == nullable.len()
    &&& forall|i: int|
        0 <= i < schema.len() ==> {
            &&& (#[trigger] schema[i]).data_type == output[i].data_type
            &&& schema[i].pg_type == output[i].pg_type
            &&& schema[i].nullable == nullable[i]
        }
}

/// What is wrong with the columns of a derived table.
pub open spec fn derived_problem(
    query: StoredQueryV1,
    schema: Seq<StoredRangeColumn>,
    lateral: bool,
) -> Option<ErrorView> {
    if node::columns_problem(schema.len()) is Some {
        node::columns_problem(schema.len())
    } else {
        match nullability_of(query) {
            Err(error) => Some(error),
            Ok(nullable) => {
                if !schema_matches_output(schema, query.outputs(), nullable) {
                    Some(
                        error::internal_error(
                            "stored derived range schema does not match query output"@,
                        ),
                    )
                } else if !lateral && query.correlations@.len() > 0 {
                    Some(
                        error::internal_error(
                            "stored non-LATERAL derived query contains correlations"@,
                        ),
                    )
                } else {
                    None
                }
            },
        }
    }
}

/// A table function takes its arguments and gives its columns.
pub open spec fn table_function_fits(
    function: FunctionId,
    args: Seq<StoredQueryExpr>,
    schema: Seq<StoredRangeColumn>,
) -> bool {
    if function == UNNEST_FUNCTION_ID {
        &&& args.len() == 1
        &&& schema.len() == 1
        &&& schema[0].nullable
        &&& match args[0].spec_data_type() {
            DataType::Array(array) => schema[0].data_type == array.element() && schema[0].pg_type
                == PgType::of_data_type(array.element()),
            _ => false,
        }
    } else if function == GENERATE_SERIES_FUNCTION_ID {
        &&& 2 <= args.len() <= 3
        &&& forall|i: int|
            0 <= i < args.len() ==> (#[trigger] args[i]).spec_data_type() is Integer
        &&& schema.len() == 1
        &&& schema[0].data_type is Integer
        &&& schema[0].pg_type == PgType::of_data_type(DataType::Integer)
        &&& !schema[0].nullable
    } else {
        false
    }
}

/// What is wrong with a table function.
pub open spec fn table_function_problem(
    function: FunctionId,
    args: Seq<StoredQueryExpr>,
    schema: Seq<StoredRangeColumn>,
) -> Option<ErrorView> {
    if !table_function_fits(function, args, schema) {
        Some(
            error::internal_error(
                "stored query table function "@ + text::decimal_text(function as nat)
                    + " has invalid arguments or result schema"@,
            ),
        )
    } else {
        first(node::list_problem(args.len()), node::columns_problem(schema.len()))
    }
}

/// Passes a range of the complete scope.
pub open spec fn with_available(
    range: BindingId,
    complete: Ranges,
    available: Ranges,
) -> core::result::Result<Ranges, ErrorView> {
    if !complete.contains_key(range) {
        Err(error::internal_error("stored query FROM range is missing from complete scope"@))
    } else if available.contains_key(range) {
        Err(error::internal_error("stored query FROM range was visited more than once"@))
    } else {
        Ok(available.insert(range, complete[range]))
    }
}

/// Ends the walk over an input by passing its range.
pub open spec fn passing(
    range: BindingId,
    complete: Ranges,
    available: Ranges,
    state: WalkState,
) -> FromWalk {
    match with_available(range, complete, available) {
        Err(error) => Err(error),
        Ok(available) => Ok((state, available)),
    }
}

/// The ranges of the two inputs of a join, as its condition sees them.
pub open spec fn joined_ranges(
    left: StoredFrom,
    right: StoredFrom,
    depth: nat,
) -> core::result::Result<Ranges, ErrorView> {
    match ranges::with_ranges(left, false, Map::empty(), depth) {
        Err(error) => Err(error),
        Ok(joined) => ranges::with_ranges(right, false, joined, depth),
    }
}

/// Walks a `FROM` clause. The ranges before an input are those that a lateral query
/// or a table function may use.
pub open spec fn walk_from(
    from: StoredFrom,
    scope: ScopeView,
    available: Ranges,
    depth: nat,
    state: WalkState,
) -> FromWalk
    decreases MAX_STORED_QUERY_DEPTH - depth, 2nat, 0nat,
{
    match state.counted() {
        Err(error) => Err(error),
        Ok(state) => {
            if depth >= MAX_STORED_QUERY_DEPTH {
                Err(node::limit_error("stored query FROM clause exceeds nesting limit"@))
            } else {
                let preceding = ScopeView { ranges: available, ..scope };
                match from {
                    StoredFrom::Table { table, range, .. } => passing(
                        range,
                        scope.ranges,
                        available,
                        state.having_met_one(CatalogObjectId::Table(table)),
                    ),
                    StoredFrom::System { relation_oid, range, .. } => passing(
                        range,
                        scope.ranges,
                        available,
                        state.having_met_one(CatalogObjectId::SystemRelation(relation_oid)),
                    ),
                    StoredFrom::Derived { query, range, schema, lateral, .. } => {
                        if derived_problem(*query, schema@, lateral) is Some {
                            Err(derived_problem(*query, schema@, lateral)->0)
                        } else {
                            match walk_query(
                                *query,
                                if lateral {
                                    Some(preceding)
                                } else {
                                    None
                                },
                                depth + 1,
                                state,
                            ) {
                                Err(error) => Err(error),
                                Ok(state) => passing(range, scope.ranges, available, state),
                            }
                        }
                    },
                    StoredFrom::TableFunction { function, args, range, schema, .. } => {
                        if table_function_problem(function, args@, schema@) is Some {
                            Err(table_function_problem(function, args@, schema@)->0)
                        } else {
                            match walk_items(
                                args@,
                                ItemRule::Placed(ExprPlacement::spec_table_function()),
                                0,
                                preceding,
                                depth + 1,
                                state.having_met_one(CatalogObjectId::Function(function)),
                            ) {
                                Err(error) => Err(error),
                                Ok(state) => passing(range, scope.ranges, available, state),
                            }
                        }
                    },
                    StoredFrom::Join { left, right, join_type, condition } => {
                        if (join_type is Cross) == (condition is Some) {
                            Err(
                                error::internal_error(
                                    "stored query join condition does not match join type"@,
                                ),
                            )
                        } else {
                            match walk_from(*left, scope, available, depth + 1, state) {
                                Err(error) => Err(error),
                                Ok((state, available)) => match walk_from(
                                    *right,
                                    scope,
                                    available,
                                    depth + 1,
                                    state,
                                ) {
                                    Err(error) => Err(error),
                                    Ok((state, available)) => match walk_join_condition(
                                        *left,
                                        *right,
                                        condition,
                                        ScopeView { ranges: available, ..scope },
                                        depth + 1,
                                        state,
                                    ) {
                                        Err(error) => Err(error),
                                        Ok(state) => Ok((state, available)),
                                    },
                                },
                            }
                        }
                    },
                }
            }
        },
    }
}

/// Walks the condition of a join, which sees the rows of both inputs before either
/// is extended with NULLs.
pub open spec fn walk_join_condition(
    left: StoredFrom,
    right: StoredFrom,
    condition: Option<StoredQueryExpr>,
    scope: ScopeView,
    depth: nat,
    state: WalkState,
) -> Walk
    decreases MAX_STORED_QUERY_DEPTH - depth, 2nat, 0nat,
{
    let placement = ExprPlacement::spec_non_aggregate();
    match condition {
        None => Ok(state),
        Some(condition) => {
            if node::condition_problem(condition, "JOIN"@) is Some {
                Err(node::condition_problem(condition, "JOIN"@)->0)
            } else if condition.placement_problem(placement) is Some {
                Err(condition.placement_problem(placement)->0)
            } else {
                match joined_ranges(left, right, depth) {
                    Err(error) => Err(error),
                    Ok(joined) => walk_expr(
                        condition,
                        ScopeView { ranges: scope.ranges.union_prefer_right(joined), ..scope },
                        depth,
                        state,
                    ),
                }
            }
        },
    }
}

/// What is wrong with a query before its parts are walked.
pub open spec fn query_problem(
    query: StoredQueryV1,
    has_parent: bool,
    depth: nat,
) -> Option<ErrorView> {
    if query.version != STORED_QUERY_VERSION {
        Some(
            error::internal_error(
                "unsupported stored query version "@ + text::decimal_text(query.version as nat),
            ),
        )
    } else if depth >= MAX_STORED_QUERY_DEPTH {
        Some(node::limit_error("stored query exceeds nesting limit"@))
    } else if node::list_problem(query.order_by@.len()) is Some {
        node::list_problem(query.order_by@.len())
    } else if node::list_problem(query.correlations@.len()) is Some {
        node::list_problem(query.correlations@.len())
    } else if !has_parent && query.correlations@.len() > 0 {
        Some(
            error::internal_error("stored query has correlations without an enclosing scope"@),
        )
    } else {
        None
    }
}

/// The ranges of a query's own `FROM` clause.
pub open spec fn own_ranges(query: StoredQueryV1, depth: nat) -> core::result::Result<
    Ranges,
    ErrorView,
> {
    match query.body {
        StoredQueryBody::Select(select) => match select.from {
            Some(from) => ranges::with_ranges(from, false, Map::empty(), depth),
            None => Ok(Map::empty()),
        },
        _ => Ok(Map::empty()),
    }
}

/// Every wire type of an output refines the semantic type beside it.
pub open spec fn output_refines(output: Seq<StoredQueryColumn>) -> bool {
    forall|i: int|
        0 <= i < output.len() ==> (#[trigger] output[i]).pg_type.refines(output[i].data_type)
}

/// An arm of a set operation gives columns of the types of the whole.
pub open spec fn arm_matches(arm: StoredQueryV1, output: Seq<StoredQueryColumn>) -> bool {
    &&& arm.outputs().len() == output.len()
    &&& forall|i: int|
        0 <= i < output.len() ==> (#[trigger] arm.outputs()[i]).data_type == output[i].data_type
}

/// What is wrong with the schema of a set operation.
pub open spec fn set_op_problem(set_op: StoredSetOp) -> Option<ErrorView> {
    first(
        node::columns_problem(set_op.output_schema@.len()),
        if set_op.output_schema@.len() == 0 || !arm_matches(*set_op.left, set_op.output_schema@)
            || !arm_matches(*set_op.right, set_op.output_schema@) {
            Some(error::internal_error("stored set-operation schema does not match its arms"@))
        } else {
            None
        },
    )
}

/// What is wrong with the size of a `VALUES` list.
pub open spec fn values_problem(rows: nat, columns: nat) -> Option<ErrorView> {
    first(
        node::list_problem(rows),
        first(
            node::columns_problem(columns),
            if rows == 0 || columns == 0 {
                Some(error::internal_error("stored VALUES query must contain rows and columns"@))
            } else {
                None
            },
        ),
    )
}

/// Walks the body of a query.
pub open spec fn walk_body(
    query: StoredQueryV1,
    scope: ScopeView,
    depth: nat,
    state: WalkState,
) -> Walk
    decreases MAX_STORED_QUERY_DEPTH - depth, 5nat, 0nat,
{
    match query.body {
        StoredQueryBody::Select(select) => walk_select(*select, scope, depth, state),
        StoredQueryBody::Values(values) => {
            let problem = values_problem(values.rows@.len(), values.output_schema@.len());
            if problem is Some {
                Err(problem->0)
            } else {
                walk_rows(values.rows@, &values.output_schema, 0, scope, depth, state)
            }
        },
        StoredQueryBody::SetOp(set_op) => {
            if depth >= MAX_STORED_QUERY_DEPTH {
                Err(node::limit_error("stored query exceeds nesting limit"@))
            } else if set_op_problem(set_op) is Some {
                Err(set_op_problem(set_op)->0)
            } else {
                match walk_query(*set_op.left, None, depth + 1, state) {
                    Err(error) => Err(error),
                    Ok(state) => walk_query(*set_op.right, None, depth + 1, state),
                }
            }
        },
    }
}

/// Where the sort keys of a query stand.
pub open spec fn order_placement(query: StoredQueryV1) -> ExprPlacement {
    if query.body is Select {
        ExprPlacement::spec_select_item()
    } else {
        ExprPlacement::spec_order_by_output()
    }
}

/// What is wrong with the grouping and the duplicate elimination of a query.
pub open spec fn semantic_problem(query: StoredQueryV1) -> Option<ErrorView> {
    match query.body {
        StoredQueryBody::Select(select) => placement::select_problem(*select, query.order_by@),
        _ => None,
    }
}

/// Neither an aggregate nor a subquery stands in any of the expressions.
pub open spec fn all_plain(list: Seq<StoredQueryExpr>) -> bool {
    forall|i: int|
        0 <= i < list.len() ==> !(#[trigger] list[i]).contains_aggregate()
            && !list[i].contains_subquery()
}

/// A query that locks rows reads one table and gives its rows one by one.
pub open spec fn may_lock(
    select: StoredSelect,
    order_by: Seq<StoredQueryExpr>,
    lock: StoredRowLock,
) -> bool {
    &&& match select.from {
        Some(StoredFrom::Table { table, .. }) => table == lock.table,
        _ => false,
    }
    &&& select.distinct is None
    &&& select.group_by@.len() == 0
    &&& select.having is None
    &&& all_plain(stored_query::item_exprs(select.columns@))
    &&& select.filter is Some ==> !select.filter->0.contains_subquery()
    &&& all_plain(order_by)
}

/// What is wrong with the row lock of a query.
pub open spec fn lock_problem(query: StoredQueryV1, lock: StoredRowLock) -> Option<ErrorView> {
    match query.body {
        StoredQueryBody::Select(select) => {
            if may_lock(*select, stored_query::key_exprs(query.order_by@), lock) {
                None
            } else {
                Some(
                    error::internal_error(
                        "stored query row lock violates locking-query restrictions"@,
                    ),
                )
            }
        },
        _ => Some(error::internal_error("stored query row lock requires a SELECT body"@)),
    }
}

/// Ends the walk over a query by checking its row lock.
pub open spec fn locking(query: StoredQueryV1, state: WalkState) -> Walk {
    match query.row_lock {
        None => Ok(state),
        Some(lock) => {
            if lock_problem(query, lock) is Some {
                Err(lock_problem(query, lock)->0)
            } else {
                Ok(state.having_met_one(CatalogObjectId::Table(lock.table)))
            }
        },
    }
}

/// The scope of a query's own expressions.
pub open spec fn own_scope(query: StoredQueryV1, ranges: Ranges) -> ScopeView {
    ScopeView { ranges, output: query.outputs(), correlations: query.correlations@ }
}

/// Walks a query that stands in the given scope, or in none.
pub open spec fn walk_query(
    query: StoredQueryV1,
    parent: Option<ScopeView>,
    depth: nat,
    state: WalkState,
) -> Walk
    decreases MAX_STORED_QUERY_DEPTH - depth, 6nat, 0nat,
{
    match state.counted() {
        Err(error) => Err(error),
        Ok(state) => {
            if query_problem(query, parent is Some, depth) is Some {
                Err(query_problem(query, parent is Some, depth)->0)
            } else {
                match own_ranges(query, depth + 1) {
                    Err(error) => Err(error),
                    Ok(ranges) => {
                        let scope = own_scope(query, ranges);
                        let outer = match parent {
                            Some(parent) => parent,
                            None => scope,
                        };
                        if !output_refines(query.outputs()) {
                            Err(
                                error::internal_error(
                                    "stored query output has inconsistent PostgreSQL type metadata"@,
                                ),
                            )
                        } else {
                            match walk_body(query, scope, depth, state) {
                                Err(error) => Err(error),
                                Ok(state) => match walk_items(
                                    stored_query::key_exprs(query.order_by@),
                                    ItemRule::Placed(order_placement(query)),
                                    0,
                                    scope,
                                    depth,
                                    state,
                                ) {
                                    Err(error) => Err(error),
                                    Ok(state) => {
                                        if semantic_problem(query) is Some {
                                            Err(semantic_problem(query)->0)
                                        } else {
                                            match walk_items(
                                                stored_query::outer_exprs(query.correlations@),
                                                ItemRule::Correlated(&query.correlations),
                                                0,
                                                outer,
                                                depth,
                                                state,
                                            ) {
                                                Err(error) => Err(error),
                                                Ok(state) => locking(query, state),
                                            }
                                        }
                                    },
                                },
                            }
                        }
                    },
                }
            }
        },
    }
}

fn count_node(nodes: &mut usize) -> (result: Result<()>)
    requires
        *old(nodes) <= MAX_STORED_QUERY_NODES,
    ensures
        match result {
            Ok(_) => *final(nodes) == *old(nodes) + 1 && *final(nodes) <= MAX_STORED_QUERY_NODES,
            Err(error) => *old(nodes) + 1 > MAX_STORED_QUERY_NODES && error@ == node::limit_error(
                "stored query exceeds node limit"@,
            ),
        },
{
    *nodes = *nodes + 1;
    if *nodes > MAX_STORED_QUERY_NODES {
        return Err(limit_exceeded("stored query exceeds node limit"));
    }
    Ok(())
}

fn visit_expr<'s, 'a>(
    expr: &'a StoredQueryExpr,
    scope: &StoredExprScope<'s, 'a>,
    depth: usize,
    nodes: &mut usize,
    objects: &mut CatalogObjectSet,
) -> (result: Result<()>)
    requires
        scope.ranges.well_formed(),
        depth <= MAX_STORED_QUERY_DEPTH,
        *old(nodes) <= MAX_STORED_QUERY_NODES,
    ensures
        agrees(
            result,
            *final(nodes),
            *final(objects),
            walk_expr(*expr, scope@, depth as nat, state_of(*old(nodes), *old(objects))),
        ),
    decreases MAX_STORED_QUERY_DEPTH - depth, 0nat, 0nat,
{
    if let Err(error) = count_node(nodes) {
        return Err(error);
    }
    if depth >= MAX_STORED_QUERY_DEPTH {
        return Err(limit_exceeded("stored query expression exceeds nesting limit"));
    }
    if let Err(error) = expr.check_before(scope) {
        return Err(error);
    }
    expr.note_objects(scope.ranges, objects);
    let operands: Vec<&'a StoredQueryExpr> = expr.operand_list();
    if let Err(error) = visit_items(
        &operands,
        Ghost(expr.operands()),
        ItemRule::Operand(expr),
        scope,
        depth + 1,
        nodes,
        objects,
    ) {
        return Err(error);
    }
    if let Err(error) = expr.check_after() {
        return Err(error);
    }
    match expr.subquery_in() {
        Some(query) => visit_query(query, Some(scope), depth + 1, nodes, objects),
        None => Ok(()),
    }
}

fn visit_items<'s, 'a>(
    items: &Vec<&'a StoredQueryExpr>,
    Ghost(exprs): Ghost<Seq<StoredQueryExpr>>,
    rule: ItemRule<'a>,
    scope: &StoredExprScope<'s, 'a>,
    depth: usize,
    nodes: &mut usize,
    objects: &mut CatalogObjectSet,
) -> (result: Result<()>)
    requires
        stored_query::refers_to(items@, exprs),
        rule.covers(exprs.len()),
        scope.ranges.well_formed(),
        depth <= MAX_STORED_QUERY_DEPTH,
        *old(nodes) <= MAX_STORED_QUERY_NODES,
    ensures
        agrees(
            result,
            *final(nodes),
            *final(objects),
            walk_items(exprs, rule, 0, scope@, depth as nat, state_of(*old(nodes), *old(objects))),
        ),
    decreases MAX_STORED_QUERY_DEPTH - depth, 1nat, exprs.len() + 1,
{
    let ghost whole = walk_items(
        exprs,
        rule,
        0,
        scope@,
        depth as nat,
        state_of(*nodes, *objects),
    );
    let mut i: usize = 0;
    while i < items.len()
        invariant
            i <= items@.len(),
            stored_query::refers_to(items@, exprs),
            rule.covers(exprs.len()),
            scope.ranges.well_formed(),
            depth <= MAX_STORED_QUERY_DEPTH,
            *nodes <= MAX_STORED_QUERY_NODES,
            whole == walk_items(
                exprs,
                rule,
                0,
                scope@,
                depth as nat,
                state_of(*old(nodes), *old(objects)),
            ),
            whole == walk_items(
                exprs,
                rule,
                i as nat,
                scope@,
                depth as nat,
                state_of(*nodes, *objects),
            ),
        decreases items@.len() - i,
    {
        if let Err(error) = rule.check_before(i, items[i]) {
            return Err(error);
        }
        if let Err(error) = visit_expr(items[i], scope, depth, nodes, objects) {
            return Err(error);
        }
        if let Err(error) = rule.check_after(i, items[i]) {
            return Err(error);
        }
        i += 1;
    }
    Ok(())
}

fn visit_rows<'s, 'a>(
    rows: &'a Vec<Vec<StoredQueryExpr>>,
    columns: &'a Vec<StoredQueryColumn>,
    scope: &StoredExprScope<'s, 'a>,
    depth: usize,
    nodes: &mut usize,
    objects: &mut CatalogObjectSet,
) -> (result: Result<()>)
    requires
        scope.ranges.well_formed(),
        depth <= MAX_STORED_QUERY_DEPTH,
        *old(nodes) <= MAX_STORED_QUERY_NODES,
    ensures
        agrees(
            result,
            *final(nodes),
            *final(objects),
            walk_rows(
                rows@,
                columns,
                0,
                scope@,
                depth as nat,
                state_of(*old(nodes), *old(objects)),
            ),
        ),
    decreases MAX_STORED_QUERY_DEPTH - depth, 2nat, rows@.len() + 1,
{
    let ghost whole = walk_rows(
        rows@,
        columns,
        0,
        scope@,
        depth as nat,
        state_of(*nodes, *objects),
    );
    let mut i: usize = 0;
    while i < rows.len()
        invariant
            i <= rows@.len(),
            scope.ranges.well_formed(),
            depth <= MAX_STORED_QUERY_DEPTH,
            *nodes <= MAX_STORED_QUERY_NODES,
            whole == walk_rows(
                rows@,
                columns,
                0,
                scope@,
                depth as nat,
                state_of(*old(nodes), *old(objects)),
            ),
            whole == walk_rows(
                rows@,
                columns,
                i as nat,
                scope@,
                depth as nat,
                state_of(*nodes, *objects),
            ),
        decreases rows@.len() - i,
    {
        let row: &'a Vec<StoredQueryExpr> = &rows[i];
        if let Err(error) = check_columns(row.len()) {
            return Err(error);
        }
        if row.len() != columns.len() {
            return Err(DbError::internal("stored VALUES row width does not match output schema"));
        }
        let mut items: Vec<&'a StoredQueryExpr> = Vec::new();
        stored_query::push_all(&mut items, row);
        assert(stored_query::refers_to(items@, row@)) by {
            assert forall|j: int| 0 <= j < items@.len() implies *(#[trigger] items@[j])
                == row@[j] by {
                assert(*items@[0 + j] == row@[j]);
            }
        }
        if let Err(error) = visit_items(
            &items,
            Ghost(row@),
            ItemRule::Values(columns),
            scope,
            depth,
            nodes,
            objects,
        ) {
            return Err(error);
        }
        i += 1;
    }
    Ok(())
}

fn check_select_lists(select: &StoredSelect) -> (result: Result<()>)
    ensures
        match result {
            Ok(_) => select_list_problem(*select) is None,
            Err(error) => select_list_problem(*select) == Some(error@),
        },
{
    if let Err(error) = check_columns(select.columns.len()) {
        return Err(error);
    }
    if let Err(error) = check_list(select.group_by.len()) {
        return Err(error);
    }
    if let Err(error) = check_columns(select.output_schema.len()) {
        return Err(error);
    }
    if select.columns.len() == 0 || select.columns.len() != select.output_schema.len() {
        return Err(DbError::internal("stored SELECT list does not match output schema"));
    }
    let mut i: usize = 0;
    while i < select.columns.len()
        invariant
            i <= select.columns@.len(),
            select.columns@.len() == select.output_schema@.len(),
            select_list_problem(*select) == first(
                items_problem(*select, i as nat),
                node::list_problem(stored_query::distinct_keys(select.distinct).len()),
            ),
        decreases select.columns@.len() - i,
    {
        if !text::same_text(&select.columns[i].alias, &select.output_schema[i].name)
            || *select.columns[i].expr.data_type() != select.output_schema[i].data_type {
            return Err(DbError::internal("stored SELECT item does not match output schema"));
        }
        if let Err(error) = validate_expr_placement(
            &select.columns[i].expr,
            ExprPlacement::select_item(),
        ) {
            return Err(error);
        }
        i += 1;
    }
    match &select.distinct {
        Some(StoredDistinct::On(keys)) => check_list(keys.len()),
        _ => Ok(()),
    }
}

fn visit_condition<'s, 'a>(
    condition: &'a Option<StoredQueryExpr>,
    context: &str,
    placement: ExprPlacement,
    scope: &StoredExprScope<'s, 'a>,
    depth: usize,
    nodes: &mut usize,
    objects: &mut CatalogObjectSet,
) -> (result: Result<()>)
    requires
        scope.ranges.well_formed(),
        depth <= MAX_STORED_QUERY_DEPTH,
        *old(nodes) <= MAX_STORED_QUERY_NODES,
    ensures
        agrees(
            result,
            *final(nodes),
            *final(objects),
            walk_condition(
                *condition,
                context@,
                placement,
                scope@,
                depth as nat,
                state_of(*old(nodes), *old(objects)),
            ),
        ),
    decreases MAX_STORED_QUERY_DEPTH - depth, 2nat, 0nat,
{
    match condition {
        None => Ok(()),
        Some(condition) => {
            if let Err(error) = require_boolean_expression(condition, context) {
                return Err(error);
            }
            if let Err(error) = validate_expr_placement(condition, placement) {
                return Err(error);
            }
            visit_expr(condition, scope, depth, nodes, objects)
        },
    }
}

fn visit_input<'s, 'a>(
    from: &'a Option<StoredFrom>,
    scope: &StoredExprScope<'s, 'a>,
    depth: usize,
    nodes: &mut usize,
    objects: &mut CatalogObjectSet,
) -> (result: Result<()>)
    requires
        scope.ranges.well_formed(),
        depth <= MAX_STORED_QUERY_DEPTH,
        *old(nodes) <= MAX_STORED_QUERY_NODES,
    ensures
        agrees(
            result,
            *final(nodes),
            *final(objects),
            walk_input(*from, scope@, depth as nat, state_of(*old(nodes), *old(objects))),
        ),
    decreases MAX_STORED_QUERY_DEPTH - depth, 3nat, 0nat,
{
    match from {
        None => Ok(()),
        Some(from) => {
            let mut available: RangeTable<'a> = RangeTable::new();
            if let Err(error) = visit_from(from, scope, &mut available, depth, nodes, objects) {
                return Err(error);
            }
            if available.len() != scope.ranges.len() {
                return Err(
                    DbError::internal("stored query FROM validation did not visit every range"),
                );
            }
            Ok(())
        },
    }
}

fn visit_select<'s, 'a>(
    select: &'a StoredSelect,
    scope: &StoredExprScope<'s, 'a>,
    depth: usize,
    nodes: &mut usize,
    objects: &mut CatalogObjectSet,
) -> (result: Result<()>)
    requires
        scope.ranges.well_formed(),
        depth < MAX_STORED_QUERY_DEPTH,
        *old(nodes) <= MAX_STORED_QUERY_NODES,
    ensures
        agrees(
            result,
            *final(nodes),
            *final(objects),
            walk_select(*select, scope@, depth as nat, state_of(*old(nodes), *old(objects))),
        ),
    decreases MAX_STORED_QUERY_DEPTH - depth, 4nat, 0nat,
{
    if let Err(error) = check_select_lists(select) {
        return Err(error);
    }
    let row_rule: ItemRule<'a> = ItemRule::Placed(ExprPlacement::non_aggregate());
    let mut keys: Vec<&'a StoredQueryExpr> = Vec::new();
    if let Some(StoredDistinct::On(on)) = &select.distinct {
        stored_query::push_all(&mut keys, on);
        assert forall|j: int| 0 <= j < keys@.len() implies *(#[trigger] keys@[j]) == on@[j] by {
            assert(*keys@[0 + j] == on@[j]);
        }
    }
    if let Err(error) = visit_items(
        &keys,
        Ghost(stored_query::distinct_keys(select.distinct)),
        row_rule,
        scope,
        depth,
        nodes,
        objects,
    ) {
        return Err(error);
    }
    if let Err(error) = visit_input(&select.from, scope, depth + 1, nodes, objects) {
        return Err(error);
    }
    let ghost exprs = stored_query::item_exprs(select.columns@);
    let mut columns: Vec<&'a StoredQueryExpr> = Vec::new();
    stored_query::push_items(&mut columns, &select.columns);
    assert forall|j: int| 0 <= j < columns@.len() implies *(#[trigger] columns@[j]) == exprs[j] by {
        assert(*columns@[0 + j] == select.columns@[j].expr);
    }
    if let Err(error) = visit_items(
        &columns,
        Ghost(exprs),
        ItemRule::Free,
        scope,
        depth,
        nodes,
        objects,
    ) {
        return Err(error);
    }
    if let Err(error) = visit_condition(
        &select.filter,
        "WHERE",
        ExprPlacement::non_aggregate(),
        scope,
        depth,
        nodes,
        objects,
    ) {
        return Err(error);
    }
    let mut groups: Vec<&'a StoredQueryExpr> = Vec::new();
    stored_query::push_all(&mut groups, &select.group_by);
    assert forall|j: int| 0 <= j < groups@.len() implies *(#[trigger] groups@[j])
        == select.group_by@[j] by {
        assert(*groups@[0 + j] == select.group_by@[j]);
    }
    if let Err(error) = visit_items(
        &groups,
        Ghost(select.group_by@),
        row_rule,
        scope,
        depth,
        nodes,
        objects,
    ) {
        return Err(error);
    }
    visit_condition(
        &select.having,
        "HAVING",
        ExprPlacement::select_item(),
        scope,
        depth,
        nodes,
        objects,
    )
}

fn does_schema_match_output(
    schema: &Vec<StoredRangeColumn>,
    output: &[StoredQueryColumn],
    nullable: &Vec<bool>,
) -> (fits: bool)
    ensures
        fits == schema_matches_output(schema@, output@, nullable@),
{
    if schema.len() != output.len() || schema.len() != nullable.len() {
        return false;
    }
    let mut i: usize = 0;
    while i < schema.len()
        invariant
            i <= schema@.len(),
            schema@.len() == output@.len(),
            schema@.len() == nullable@.len(),
            forall|j: int|
                0 <= j < i ==> {
                    &&& (#[trigger] schema@[j]).data_type == output@[j].data_type
                    &&& schema@[j].pg_type == output@[j].pg_type
                    &&& schema@[j].nullable == nullable@[j]
                },
        decreases schema@.len() - i,
    {
        if schema[i].data_type != output[i].data_type || schema[i].pg_type != output[i].pg_type
            || schema[i].nullable != nullable[i] {
            assert(schema@[i as int] == schema@[i as int]);
            return false;
        }
        i += 1;
    }
    true
}

fn check_derived(query: &StoredQueryV1, schema: &Vec<StoredRangeColumn>, lateral: bool) -> (result:
    Result<()>)
    ensures
        match result {
            Ok(_) => derived_problem(*query, schema@, lateral) is None,
            Err(error) => derived_problem(*query, schema@, lateral) == Some(error@),
        },
{
    if let Err(error) = check_columns(schema.len()) {
        return Err(error);
    }
    let nullable: Vec<bool> = match query.output_nullability() {
        Ok(nullable) => nullable,
        Err(error) => return Err(error),
    };
    if !does_schema_match_output(schema, query.output_schema(), &nullable) {
        return Err(DbError::internal("stored derived range schema does not match query output"));
    }
    if !lateral && query.correlations.len() > 0 {
        return Err(DbError::internal("stored non-LATERAL derived query contains correlations"));
    }
    Ok(())
}

fn does_table_function_fit(
    function: FunctionId,
    args: &Vec<StoredQueryExpr>,
    schema: &Vec<StoredRangeColumn>,
) -> (fits: bool)
    ensures
        fits == table_function_fits(function, args@, schema@),
{
    if function == UNNEST_FUNCTION_ID {
        if args.len() != 1 || schema.len() != 1 || !schema[0].nullable {
            return false;
        }
        match args[0].data_type() {
            DataType::Array(array) => schema[0].data_type == *array.element_type()
                && schema[0].pg_type == PgType::from(array.element_type()),
            _ => false,
        }
    } else if function == GENERATE_SERIES_FUNCTION_ID {
        if args.len() < 2 || args.len() > 3 {
            return false;
        }
        let mut i: usize = 0;
        while i < args.len()
            invariant
                i <= args@.len(),
                function == GENERATE_SERIES_FUNCTION_ID,
                forall|j: int| 0 <= j < i ==> (#[trigger] args@[j]).spec_data_type() is Integer,
            decreases args@.len() - i,
        {
            if !matches!(args[i].data_type(), DataType::Integer) {
                assert(!(args@[i as int].spec_data_type() is Integer));
                return false;
            }
            i += 1;
        }
        schema.len() == 1 && matches!(schema[0].data_type, DataType::Integer) && schema[0].pg_type
            == PgType::from(&DataType::Integer) && !schema[0].nullable
    } else {
        false
    }
}

fn check_table_function(
    function: FunctionId,
    args: &Vec<StoredQueryExpr>,
    schema: &Vec<StoredRangeColumn>,
) -> (result: Result<()>)
    ensures
        match result {
            Ok(_) => table_function_problem(function, args@, schema@) is None,
            Err(error) => table_function_problem(function, args@, schema@) == Some(error@),
        },
{
    if !does_table_function_fit(function, args, schema) {
        return Err(
            DbError::internal(
                &text::numbered_text(
                    "stored query table function ",
                    function as u128,
                    " has invalid arguments or result schema",
                ),
            ),
        );
    }
    if let Err(error) = check_list(args.len()) {
        return Err(error);
    }
    check_columns(schema.len())
}

fn add_available_range<'a>(
    range: BindingId,
    complete: &RangeTable<'a>,
    available: &mut RangeTable<'a>,
) -> (result: Result<()>)
    requires
        complete.well_formed(),
        old(available).well_formed(),
    ensures
        final(available).well_formed(),
        match result {
            Ok(_) => with_available(range, complete@, old(available)@) == Ok::<Ranges, ErrorView>(
                final(available)@,
            ),
            Err(error) => with_available(range, complete@, old(available)@) == Err::<
                Ranges,
                ErrorView,
            >(error@),
        },
{
    match complete.get(range) {
        Some(target) => {
            if !available.insert(range, target) {
                return Err(
                    DbError::internal("stored query FROM range was visited more than once"),
                );
            }
            Ok(())
        },
        None => Err(
            DbError::internal("stored query FROM range is missing from complete scope"),
        ),
    }
}

/// A result, the counters and the passed ranges beside it are what a walk gives.
spec fn from_agrees(
    result: Result<()>,
    nodes: usize,
    objects: CatalogObjectSet,
    available: Ranges,
    walk: FromWalk,
) -> bool {
    match result {
        Ok(_) => walk == FromWalk::Ok((state_of(nodes, objects), available)) && nodes
            <= MAX_STORED_QUERY_NODES,
        Err(error) => walk == FromWalk::Err(error@),
    }
}

fn visit_from<'s, 'a>(
    from: &'a StoredFrom,
    scope: &StoredExprScope<'s, 'a>,
    available: &mut RangeTable<'a>,
    depth: usize,
    nodes: &mut usize,
    objects: &mut CatalogObjectSet,
) -> (result: Result<()>)
    requires
        scope.ranges.well_formed(),
        old(available).well_formed(),
        depth <= MAX_STORED_QUERY_DEPTH,
        *old(nodes) <= MAX_STORED_QUERY_NODES,
    ensures
        final(available).well_formed(),
        from_agrees(
            result,
            *final(nodes),
            *final(objects),
            final(available)@,
            walk_from(
                *from,
                scope@,
                old(available)@,
                depth as nat,
                state_of(*old(nodes), *old(objects)),
            ),
        ),
    decreases MAX_STORED_QUERY_DEPTH - depth, 2nat, 0nat,
{
    if let Err(error) = count_node(nodes) {
        return Err(error);
    }
    if depth >= MAX_STORED_QUERY_DEPTH {
        return Err(limit_exceeded("stored query FROM clause exceeds nesting limit"));
    }
    match from {
        StoredFrom::Table { table, range, .. } => {
            objects.insert(CatalogObjectId::Table(*table));
            add_available_range(*range, scope.ranges, available)
        },
        StoredFrom::System { relation_oid, range, .. } => {
            objects.insert(CatalogObjectId::SystemRelation(*relation_oid));
            add_available_range(*range, scope.ranges, available)
        },
        StoredFrom::Derived { query, range, schema, lateral, .. } => {
            if let Err(error) = check_derived(query, schema, *lateral) {
                return Err(error);
            }
            let visited: Result<()> = if *lateral {
                let preceding = StoredExprScope {
                    ranges: &*available,
                    output: scope.output,
                    correlations: scope.correlations,
                };
                visit_query(query, Some(&preceding), depth + 1, nodes, objects)
            } else {
                visit_query(query, None, depth + 1, nodes, objects)
            };
            if let Err(error) = visited {
                return Err(error);
            }
            add_available_range(*range, scope.ranges, available)
        },
        StoredFrom::TableFunction { function, args, range, schema, .. } => {
            if let Err(error) = check_table_function(*function, args, schema) {
                return Err(error);
            }
            objects.insert(CatalogObjectId::Function(*function));
            let mut items: Vec<&'a StoredQueryExpr> = Vec::new();
            stored_query::push_all(&mut items, args);
            assert forall|j: int| 0 <= j < items@.len() implies *(#[trigger] items@[j])
                == args@[j] by {
                assert(*items@[0 + j] == args@[j]);
            }
            let preceding = StoredExprScope {
                ranges: &*available,
                output: scope.output,
                correlations: scope.correlations,
            };
            if let Err(error) = visit_items(
                &items,
                Ghost(args@),
                ItemRule::Placed(ExprPlacement::table_function()),
                &preceding,
                depth + 1,
                nodes,
                objects,
            ) {
                return Err(error);
            }
            add_available_range(*range, scope.ranges, available)
        },
        StoredFrom::Join { left, right, join_type, condition } => {
            let crossed: bool = matches!(join_type, StoredJoinType::Cross);
            if crossed == condition.is_some() {
                return Err(
                    DbError::internal("stored query join condition does not match join type"),
                );
            }
            if let Err(error) = visit_from(left, scope, available, depth + 1, nodes, objects) {
                return Err(error);
            }
            if let Err(error) = visit_from(right, scope, available, depth + 1, nodes, objects) {
                return Err(error);
            }
            let passed = StoredExprScope {
                ranges: &*available,
                output: scope.output,
                correlations: scope.correlations,
            };
            visit_join_condition(left, right, condition, &passed, depth + 1, nodes, objects)
        },
    }
}

fn visit_join_condition<'s, 'a>(
    left: &'a StoredFrom,
    right: &'a StoredFrom,
    condition: &'a Option<StoredQueryExpr>,
    scope: &StoredExprScope<'s, 'a>,
    depth: usize,
    nodes: &mut usize,
    objects: &mut CatalogObjectSet,
) -> (result: Result<()>)
    requires
        scope.ranges.well_formed(),
        depth <= MAX_STORED_QUERY_DEPTH,
        *old(nodes) <= MAX_STORED_QUERY_NODES,
    ensures
        agrees(
            result,
            *final(nodes),
            *final(objects),
            walk_join_condition(
                *left,
                *right,
                *condition,
                scope@,
                depth as nat,
                state_of(*old(nodes), *old(objects)),
            ),
        ),
    decreases MAX_STORED_QUERY_DEPTH - depth, 2nat, 0nat,
{
    let condition: &'a StoredQueryExpr = match condition {
        Some(condition) => condition,
        None => return Ok(()),
    };
    if let Err(error) = require_boolean_expression(condition, "JOIN") {
        return Err(error);
    }
    if let Err(error) = validate_expr_placement(condition, ExprPlacement::non_aggregate()) {
        return Err(error);
    }
    let mut joined: RangeTable<'a> = RangeTable::new();
    if let Err(error) = collect_ranges(left, false, &mut joined, depth) {
        return Err(error);
    }
    if let Err(error) = collect_ranges(right, false, &mut joined, depth) {
        return Err(error);
    }
    let condition_ranges: RangeTable<'a> = scope.ranges.overridden_by(&joined);
    let joined_scope = StoredExprScope {
        ranges: &condition_ranges,
        output: scope.output,
        correlations: scope.correlations,
    };
    visit_expr(condition, &joined_scope, depth, nodes, objects)
}

fn check_query(query: &StoredQueryV1, has_parent: bool, depth: usize) -> (result: Result<()>)
    ensures
        match result {
            Ok(_) => query_problem(*query, has_parent, depth as nat) is None,
            Err(error) => query_problem(*query, has_parent, depth as nat) == Some(error@),
        },
{
    if query.version != STORED_QUERY_VERSION {
        return Err(
            DbError::internal(
                &text::numbered("unsupported stored query version ", query.version as u128),
            ),
        );
    }
    if depth >= MAX_STORED_QUERY_DEPTH {
        return Err(limit_exceeded("stored query exceeds nesting limit"));
    }
    if let Err(error) = check_list(query.order_by.len()) {
        return Err(error);
    }
    if let Err(error) = check_list(query.correlations.len()) {
        return Err(error);
    }
    if !has_parent && query.correlations.len() > 0 {
        return Err(DbError::internal("stored query has correlations without an enclosing scope"));
    }
    Ok(())
}

fn does_output_refine(output: &[StoredQueryColumn]) -> (refines: bool)
    ensures
        refines == output_refines(output@),
{
    let mut i: usize = 0;
    while i < output.len()
        invariant
            i <= output@.len(),
            forall|j: int|
                0 <= j < i ==> (#[trigger] output@[j]).pg_type.refines(output@[j].data_type),
        decreases output@.len() - i,
    {
        if !output[i].pg_type.is_refinement_of(&output[i].data_type) {
            assert(!output@[i as int].pg_type.refines(output@[i as int].data_type));
            return false;
        }
        i += 1;
    }
    true
}

fn does_arm_match(arm: &StoredQueryV1, output: &[StoredQueryColumn]) -> (fits: bool)
    ensures
        fits == arm_matches(*arm, output@),
{
    let columns: &[StoredQueryColumn] = arm.output_schema();
    if columns.len() != output.len() {
        return false;
    }
    let mut i: usize = 0;
    while i < output.len()
        invariant
            i <= output@.len(),
            columns@ == arm.outputs(),
            columns@.len() == output@.len(),
            forall|j: int|
                0 <= j < i ==> (#[trigger] arm.outputs()[j]).data_type == output@[j].data_type,
        decreases output@.len() - i,
    {
        if columns[i].data_type != output[i].data_type {
            assert(arm.outputs()[i as int].data_type != output@[i as int].data_type);
            return false;
        }
        i += 1;
    }
    true
}

fn visit_body<'s, 'a>(
    query: &'a StoredQueryV1,
    scope: &StoredExprScope<'s, 'a>,
    depth: usize,
    nodes: &mut usize,
    objects: &mut CatalogObjectSet,
) -> (result: Result<()>)
    requires
        scope.ranges.well_formed(),
        depth < MAX_STORED_QUERY_DEPTH,
        *old(nodes) <= MAX_STORED_QUERY_NODES,
    ensures
        agrees(
            result,
            *final(nodes),
            *final(objects),
            walk_body(*query, scope@, depth as nat, state_of(*old(nodes), *old(objects))),
        ),
    decreases MAX_STORED_QUERY_DEPTH - depth, 5nat, 0nat,
{
    match &query.body {
        StoredQueryBody::Select(select) => visit_select(select, scope, depth, nodes, objects),
        StoredQueryBody::Values(values) => {
            if let Err(error) = check_list(values.rows.len()) {
                return Err(error);
            }
            if let Err(error) = check_columns(values.output_schema.len()) {
                return Err(error);
            }
            if values.rows.len() == 0 || values.output_schema.len() == 0 {
                return Err(DbError::internal("stored VALUES query must contain rows and columns"));
            }
            visit_rows(&values.rows, &values.output_schema, scope, depth, nodes, objects)
        },
        StoredQueryBody::SetOp(set_op) => {
            if let Err(error) = check_columns(set_op.output_schema.len()) {
                return Err(error);
            }
            if set_op.output_schema.len() == 0 || !does_arm_match(
                &set_op.left,
                &set_op.output_schema,
            ) || !does_arm_match(&set_op.right, &set_op.output_schema) {
                return Err(
                    DbError::internal("stored set-operation schema does not match its arms"),
                );
            }
            if let Err(error) = visit_query(&set_op.left, None, depth + 1, nodes, objects) {
                return Err(error);
            }
            visit_query(&set_op.right, None, depth + 1, nodes, objects)
        },
    }
}

fn are_all_plain(
    list: &Vec<&StoredQueryExpr>,
    Ghost(exprs): Ghost<Seq<StoredQueryExpr>>,
) -> (plain: bool)
    requires
        stored_query::refers_to(list@, exprs),
    ensures
        plain == all_plain(exprs),
{
    let mut i: usize = 0;
    while i < list.len()
        invariant
            i <= list@.len(),
            stored_query::refers_to(list@, exprs),
            forall|j: int|
                0 <= j < i ==> !(#[trigger] exprs[j]).contains_aggregate()
                    && !exprs[j].contains_subquery(),
        decreases list@.len() - i,
    {
        if expr_contains_aggregate(list[i]) || expr_contains_subquery(list[i]) {
            assert(exprs[i as int] == *list@[i as int]);
            return false;
        }
        i += 1;
    }
    true
}

fn check_lock(query: &StoredQueryV1, lock: &StoredRowLock) -> (result: Result<()>)
    ensures
        match result {
            Ok(_) => lock_problem(*query, *lock) is None,
            Err(error) => lock_problem(*query, *lock) == Some(error@),
        },
{
    let select: &StoredSelect = match &query.body {
        StoredQueryBody::Select(select) => select,
        _ => return Err(DbError::internal("stored query row lock requires a SELECT body")),
    };
    let locks_input: bool = match &select.from {
        Some(StoredFrom::Table { table, .. }) => *table == lock.table,
        _ => false,
    };
    let filter_has_subquery: bool = match &select.filter {
        Some(filter) => expr_contains_subquery(filter),
        None => false,
    };
    let ghost items = stored_query::item_exprs(select.columns@);
    let ghost keys = stored_query::key_exprs(query.order_by@);
    let mut columns: Vec<&StoredQueryExpr> = Vec::new();
    stored_query::push_items(&mut columns, &select.columns);
    assert forall|j: int| 0 <= j < columns@.len() implies *(#[trigger] columns@[j]) == items[j] by {
        assert(*columns@[0 + j] == select.columns@[j].expr);
    }
    let mut orders: Vec<&StoredQueryExpr> = Vec::new();
    stored_query::push_keys(&mut orders, &query.order_by);
    assert forall|j: int| 0 <= j < orders@.len() implies *(#[trigger] orders@[j]) == keys[j] by {
        assert(*orders@[0 + j] == query.order_by@[j].expr);
    }
    if !locks_input || select.distinct.is_some() || select.group_by.len() > 0
        || select.having.is_some() || !are_all_plain(&columns, Ghost(items)) || filter_has_subquery
        || !are_all_plain(&orders, Ghost(keys)) {
        return Err(
            DbError::internal("stored query row lock violates locking-query restrictions"),
        );
    }
    Ok(())
}

fn visit_query<'s, 'a>(
    query: &'a StoredQueryV1,
    parent: Option<&StoredExprScope<'s, 'a>>,
    depth: usize,
    nodes: &mut usize,
    objects: &mut CatalogObjectSet,
) -> (result: Result<()>)
    requires
        parent is Some ==> parent->0.ranges.well_formed(),
        depth <= MAX_STORED_QUERY_DEPTH,
        *old(nodes) <= MAX_STORED_QUERY_NODES,
    ensures
        agrees(
            result,
            *final(nodes),
            *final(objects),
            walk_query(
                *query,
                match parent {
                    Some(parent) => Some(parent@),
                    None => None,
                },
                depth as nat,
                state_of(*old(nodes), *old(objects)),
            ),
        ),
    decreases MAX_STORED_QUERY_DEPTH - depth, 6nat, 0nat,
{
    if let Err(error) = count_node(nodes) {
        return Err(error);
    }
    if let Err(error) = check_query(query, parent.is_some(), depth) {
        return Err(error);
    }
    let mut own: RangeTable<'a> = RangeTable::new();
    if let StoredQueryBody::Select(select) = &query.body {
        if let Some(from) = &select.from {
            if let Err(error) = collect_ranges(from, false, &mut own, depth + 1) {
                return Err(error);
            }
        }
    }
    assert(own_ranges(*query, (depth + 1) as nat) == Ok::<Ranges, ErrorView>(own@));
    let scope = StoredExprScope {
        ranges: &own,
        output: query.output_schema(),
        correlations: query.correlations.as_slice(),
    };
    assert(scope@ == own_scope(*query, own@));
    if !does_output_refine(scope.output) {
        return Err(
            DbError::internal("stored query output has inconsistent PostgreSQL type metadata"),
        );
    }
    if let Err(error) = visit_body(query, &scope, depth, nodes, objects) {
        return Err(error);
    }
    let placement: ExprPlacement = if matches!(query.body, StoredQueryBody::Select(_)) {
        ExprPlacement::select_item()
    } else {
        ExprPlacement::order_by_output()
    };
    let ghost keys = stored_query::key_exprs(query.order_by@);
    let mut orders: Vec<&'a StoredQueryExpr> = Vec::new();
    stored_query::push_keys(&mut orders, &query.order_by);
    assert forall|j: int| 0 <= j < orders@.len() implies *(#[trigger] orders@[j]) == keys[j] by {
        assert(*orders@[0 + j] == query.order_by@[j].expr);
    }
    if let Err(error) = visit_items(
        &orders,
        Ghost(keys),
        ItemRule::Placed(placement),
        &scope,
        depth,
        nodes,
        objects,
    ) {
        return Err(error);
    }
    if let StoredQueryBody::Select(select) = &query.body {
        if let Err(error) = validate_select_semantics(select, &query.order_by) {
            return Err(error);
        }
    }
    let outer: Vec<&'a StoredQueryExpr> = query.outer_expr_list();
    let rule: ItemRule<'a> = ItemRule::Correlated(&query.correlations);
    let correlated: Result<()> = match parent {
        Some(parent) => visit_items(
            &outer,
            Ghost(stored_query::outer_exprs(query.correlations@)),
            rule,
            parent,
            depth,
            nodes,
            objects,
        ),
        None => visit_items(
            &outer,
            Ghost(stored_query::outer_exprs(query.correlations@)),
            rule,
            &scope,
            depth,
            nodes,
            objects,
        ),
    };
    if let Err(error) = correlated {
        return Err(error);
    }
    if let Some(lock) = &query.row_lock {
        if let Err(error) = check_lock(query, lock) {
            return Err(error);
        }
        objects.insert(CatalogObjectId::Table(lock.table));
    }
    Ok(())
}

impl StoredQueryV1 {
    /// The walk over the whole query.
    pub open spec fn walk(self) -> Walk {
        walk_query(self, None, 0, WalkState::start())
    }

    /// Validates structural limits and returns the exact catalog identities used
    /// by the resolved query. Existence and type checks belong to the catalog.
    pub fn referenced_catalog_objects(&self) -> (result: Result<CatalogObjectSet>)
        ensures
            match result {
                Ok(objects) => self.walk() matches Walk::Ok(state) && state.objects == objects@,
                Err(error) => self.walk() == Walk::Err(error@),
            },
    {
        let mut objects: CatalogObjectSet = CatalogObjectSet::new();
        let mut nodes: usize = 0;
        match visit_query(self, None, 0, &mut nodes, &mut objects) {
            Ok(_) => Ok(objects),
            Err(error) => Err(error),
        }
    }
}

/// Validates the shape of a stored query.
pub fn validate_stored_query_shape(query: &StoredQueryV1) -> (result: Result<()>)
    ensures
        match result {
            Ok(_) => query.walk() is Ok,
            Err(error) => query.walk() == Walk::Err(error@),
        },
{
    match query.referenced_catalog_objects() {
        Ok(_) => Ok(()),
        Err(error) => Err(error),
    }
}

} // verus!
