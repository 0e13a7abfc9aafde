//! What holds of every query that is accepted: laws about its inputs, its expressions,
//! its grouping and its output.

use vstd::prelude::*;

use crate::catalog_change::CatalogObjectId;
use crate::ids::BindingId;
use crate::pg_type::PgType;
use crate::stored_query::node::{self, ScopeView};
use crate::stored_query::placement::{self, ExprPlacement};
use crate::stored_query::ranges::{self, RangeTarget, Ranges};
use crate::stored_query::walk::{self, ItemRule, WalkState};
use crate::stored_query::{
    self, StoredColumnReference, StoredDistinct, StoredFrom, StoredOrderBy, StoredQueryBody,
    StoredQueryExpr, StoredQueryV1, StoredRangeColumn, StoredSelect, GENERATE_SERIES_FUNCTION_ID,
    UNNEST_FUNCTION_ID,
};

verus! {

/// The columns of a range can be NULL where no row of it matches.
pub open spec fn may_be_missing(target: RangeTarget) -> bool {
    match target {
        RangeTarget::Catalog { null_extended, .. } => null_extended,
        RangeTarget::Position { null_extended, .. } => null_extended,
    }
}

proof fn lemma_ranges_are_added(from: StoredFrom, missing: bool, before: Ranges, depth: nat, id: BindingId)
    requires
        ranges::with_ranges(from, missing, before, depth) is Ok,
    ensures
        ({
            let after = ranges::with_ranges(from, missing, before, depth)->Ok_0;
            &&& before.contains_key(id) ==> after.contains_key(id) && after[id] == before[id]
            &&& after.contains_key(id) && !before.contains_key(id) && missing ==> may_be_missing(
                after[id],
            )
        }),
    decreases from,
{
    match from {
        StoredFrom::Join { left, right, join_type, .. } => {
            let left_missing = missing || ranges::extends_left(join_type);
            let right_missing = missing || ranges::extends_right(join_type);
            let middle = ranges::with_ranges(*left, left_missing, before, depth + 1)->Ok_0;
            lemma_ranges_are_added(*left, left_missing, before, depth + 1, id);
            lemma_ranges_are_added(*right, right_missing, middle, depth + 1, id);
        },
        _ => {},
    }
}

/// The rows of the right side of a `LEFT JOIN`, of the left side of a `RIGHT JOIN` and of
/// both sides of a `FULL JOIN` may be missing, whatever stands on that side.
pub proof fn outer_joins_may_miss_rows(
    from: StoredFrom,
    missing: bool,
    before: Ranges,
    depth: nat,
    id: BindingId,
)
    requires
        from is Join,
        ranges::with_ranges(from, missing, before, depth) is Ok,
        !before.contains_key(id),
    ensures
        ({
            let left = *from->left;
            let optional = from->join_type is Right || from->join_type is Full;
            let after = ranges::with_ranges(from, missing, before, depth)->Ok_0;
            &&& ranges::with_ranges(left, missing || optional, before, depth + 1) is Ok
            &&& ({
                let middle = ranges::with_ranges(
                    left,
                    missing || optional,
                    before,
                    depth + 1,
                )->Ok_0;
                &&& middle.contains_key(id) && optional ==> may_be_missing(after[id])
                &&& after.contains_key(id) && !middle.contains_key(id) && (from->join_type is Left
                    || from->join_type is Full) ==> may_be_missing(after[id])
            })
        }),
{
    let (left, right) = (*from->left, *from->right);
    let left_missing = missing || ranges::extends_left(from->join_type);
    let right_missing = missing || ranges::extends_right(from->join_type);
    let middle = ranges::with_ranges(left, left_missing, before, depth + 1)->Ok_0;
    lemma_ranges_are_added(left, left_missing, before, depth + 1, id);
    lemma_ranges_are_added(right, right_missing, middle, depth + 1, id);
}

/// Where two inputs that are no joins are joined, the rows of one may be missing exactly
/// if the join keeps the unmatched rows of the other.
pub proof fn joins_of_two_miss_what_they_keep(from: StoredFrom, depth: nat)
    requires
        from is Join,
        !(*from->left is Join),
        !(*from->right is Join),
        ranges::with_ranges(from, false, Map::empty(), depth) is Ok,
    ensures
        ({
            let after = ranges::with_ranges(from, false, Map::empty(), depth)->Ok_0;
            let left = ranges::range_of(*from->left)->0;
            let right = ranges::range_of(*from->right)->0;
            &&& left != right
            &&& after.dom() =~= set![left, right]
            &&& may_be_missing(after[left]) <==> from->join_type is Right || from->join_type is Full
            &&& may_be_missing(after[right]) <==> from->join_type is Left || from->join_type is Full
            &&& *from->left matches StoredFrom::Table { table, .. } ==> after[left] is Catalog
                && after[left]->table == table
            &&& *from->right matches StoredFrom::Table { table, .. } ==> after[right] is Catalog
                && after[right]->table == table
        }),
{
    let left = ranges::range_of(*from->left)->0;
    let right = ranges::range_of(*from->right)->0;
    let left_missing = ranges::extends_left(from->join_type);
    let right_missing = ranges::extends_right(from->join_type);
    let (first, second) = (*from->left, *from->right);
    let nothing: Ranges = Map::empty();
    reveal_with_fuel(ranges::with_ranges, 3);
    let middle = ranges::with_ranges(first, left_missing, nothing, depth + 1)->Ok_0;
    assert(middle == nothing.insert(left, ranges::target_of(first, left_missing)->0));
    let after = ranges::with_ranges(from, false, nothing, depth)->Ok_0;
    assert(after == middle.insert(right, ranges::target_of(second, right_missing)->0));
}

/// A reference to an input names a range of the scope. A catalog table is referred to by
/// the identity of the column. Any other input is referred to by position: the column is
/// there, and the reference has its type and can be NULL exactly if the column can or
/// the rows of the range may be missing.
pub proof fn references_fit_their_ranges(reference: StoredQueryExpr, scope: ScopeView)
    requires
        reference is InputRef,
    ensures
        reference.problem_before(scope) is None <==> {
            let target = scope.ranges[reference->range];
            &&& scope.ranges.contains_key(reference->range)
            &&& reference->column is Catalog <==> target is Catalog
            &&& reference->column matches StoredColumnReference::Position(position) ==> {
                let columns = target->columns;
                &&& position < columns.len()
                &&& reference.spec_data_type() == columns[position as int].data_type
                &&& reference.spec_nullable() == (columns[position as int].nullable
                    || may_be_missing(target))
            }
        },
{
}

/// A reference to the output names one of its columns and has its type; a reference to
/// an outer query names one of the columns that the query uses of it, and has its type
/// and nullability.
pub proof fn references_fit_outputs_and_correlations(reference: StoredQueryExpr, scope: ScopeView)
    ensures
        reference is LocalRef ==> (reference.problem_before(scope) is None <==> reference->output
            < scope.output.len() && scope.output[reference->output as int].data_type
            == reference.spec_data_type()),
        reference is OuterRef ==> (reference.problem_before(scope) is None <==> {
            let index = reference->correlation as int;
            &&& index < scope.correlations.len()
            &&& scope.correlations[index].data_type == reference.spec_data_type()
            &&& scope.correlations[index].nullable == reference.spec_nullable()
        }),
{
}

/// An expression of an accepted query, and each of its operands in the same scope, passes
/// the rules of its kind.
pub proof fn accepted_expressions_pass_their_rules(
    expr: StoredQueryExpr,
    scope: ScopeView,
    depth: nat,
    state: WalkState,
    i: int,
)
    requires
        walk::walk_expr(expr, scope, depth, state) is Ok,
    ensures
        expr.problem_before(scope) is None,
        expr.problem_after() is None,
        0 <= i < expr.operands().len() ==> expr.operands()[i].problem_before(scope) is None
            && expr.operands()[i].problem_after() is None,
{
    let met = state.counted()->Ok_0.having_met(node::own_objects(expr, scope.ranges));
    lemma_items_pass(expr.operands(), ItemRule::Operand(&expr), 0, scope, depth + 1, met, i);
}

proof fn lemma_items_pass(
    items: Seq<StoredQueryExpr>,
    rule: ItemRule<'_>,
    start: nat,
    scope: ScopeView,
    depth: nat,
    state: WalkState,
    i: int,
)
    requires
        walk::walk_items(items, rule, start, scope, depth, state) is Ok,
    ensures
        start <= i < items.len() ==> items[i].problem_before(scope) is None
            && items[i].problem_after() is None && rule.problem_before(i, items[i]) is None
            && rule.problem_after(i, items[i]) is None,
    decreases items.len() - start,
{
    if start < items.len() {
        let next = walk::walk_expr(items[start as int], scope, depth, state)->Ok_0;
        lemma_items_pass(items, rule, start + 1, scope, depth, next, i);
    }
}

/// The operands of an expression are its parts, in the order in which they are written.
pub proof fn operands_are_the_parts(expr: StoredQueryExpr, i: int)
    ensures
        expr is Binary ==> expr.operands() == seq![*expr->Binary_left, *expr->Binary_right],
        expr is Between ==> expr.operands() == seq![*expr->Between_expr, *expr->low, *expr->high],
        expr is Like ==> expr.operands() == seq![*expr->Like_expr, *expr->pattern],
        expr is Unary ==> expr.operands() == seq![*expr->Unary_expr],
        expr is IsNull ==> expr.operands() == seq![*expr->IsNull_expr],
        expr is IsNotNull ==> expr.operands() == seq![*expr->IsNotNull_expr],
        expr is Cast ==> expr.operands() == seq![*expr->Cast_expr],
        expr is Function ==> expr.operands() == expr->args@,
        expr is Aggregate ==> expr.operands().len() <= 1 && (expr->arg is Some
            <==> expr.operands().len() == 1) && (expr->arg is Some ==> expr.operands()[0]
            == *expr->arg->0),
        expr is InList ==> expr.operands().len() == expr->list@.len() + 1 && expr.operands()[0]
            == *expr->InList_expr && (0 <= i < expr->list@.len() ==> expr.operands()[i + 1]
            == expr->list@[i]),
        expr is InSubquery ==> expr.operands() == seq![*expr->InSubquery_expr] && expr.subquery()
            == Some(*expr->InSubquery_query),
        expr is ScalarSubquery ==> expr.subquery() == Some(*expr->ScalarSubquery_query),
        expr is Exists ==> expr.subquery() == Some(*expr->Exists_query),
        expr is Case ==> ({
            let before = if expr->operand is Some {
                1int
            } else {
                0int
            };
            let branches = expr->when_clauses@;
            &&& expr.operands().len() == before + 2 * branches.len() + (if expr->else_clause is Some {
                1int
            } else {
                0int
            })
            &&& expr->operand is Some ==> expr.operands()[0] == *expr->operand->0
            &&& expr->else_clause is Some ==> expr.operands().last() == *expr->else_clause->0
            &&& 0 <= i < branches.len() ==> expr.operands()[before + 2 * i] == branches[i].0
                && expr.operands()[before + 2 * i + 1] == branches[i].1
        }),
{
}

proof fn lemma_placed(expr: StoredQueryExpr, placement: ExprPlacement, root: bool)
    requires
        expr.placement_problem_at(placement, root) is None,
    ensures
        !placement.allow_aggregate ==> !expr.contains_aggregate(),
        !placement.allow_subquery ==> !expr.contains_subquery(),
    decreases expr, expr.operands().len() + 1,
{
    lemma_operands_placed(expr, placement.for_operands(expr), 0);
    if !placement.allow_aggregate {
        lemma_no_aggregate(expr, expr.operands().len());
    }
    if !placement.allow_subquery {
        lemma_no_subquery(expr, expr.operands().len());
    }
}

proof fn lemma_operands_placed(expr: StoredQueryExpr, placement: ExprPlacement, start: nat)
    requires
        expr.operand_misplacement(placement, start) is None,
    ensures
        forall|i: int|
            start <= i < expr.operands().len() ==> {
                &&& !placement.allow_aggregate ==> !(#[trigger] expr.operands()[i]).contains_aggregate()
                &&& !placement.allow_subquery ==> !expr.operands()[i].contains_subquery()
                &&& !(expr.operands()[i] is LocalRef)
            },
    decreases expr, expr.operands().len() - start,
{
    if start < expr.operands().len() {
        expr.lemma_operand_is_smaller(start as int);
        lemma_placed(expr.operands()[start as int], placement, false);
        lemma_operands_placed(expr, placement, start + 1);
    }
}

proof fn lemma_no_aggregate(expr: StoredQueryExpr, count: nat)
    requires
        count <= expr.operands().len(),
        forall|i: int|
            0 <= i < expr.operands().len() ==> !(
            #[trigger] expr.operands()[i]).contains_aggregate(),
    ensures
        !expr.operands_contain_aggregate(count),
    decreases count,
{
    if count > 0 {
        lemma_no_aggregate(expr, (count - 1) as nat);
    }
}

proof fn lemma_no_subquery(expr: StoredQueryExpr, count: nat)
    requires
        count <= expr.operands().len(),
        forall|i: int|
            0 <= i < expr.operands().len() ==> !(#[trigger] expr.operands()[i]).contains_subquery(),
    ensures
        !expr.operands_contain_subquery(count),
    decreases count,
{
    if count > 0 {
        lemma_no_subquery(expr, (count - 1) as nat);
    }
}

proof fn lemma_aggregate_inside(expr: StoredQueryExpr, count: nat, i: int)
    requires
        0 <= i < count <= expr.operands().len(),
        expr.operands()[i].contains_aggregate(),
    ensures
        expr.operands_contain_aggregate(count),
    decreases count,
{
    if i < count - 1 {
        lemma_aggregate_inside(expr, (count - 1) as nat, i);
    }
}

proof fn lemma_subquery_inside(expr: StoredQueryExpr, count: nat, i: int)
    requires
        0 <= i < count <= expr.operands().len(),
        expr.operands()[i].contains_subquery(),
    ensures
        expr.operands_contain_subquery(count),
    decreases count,
{
    if i < count - 1 {
        lemma_subquery_inside(expr, (count - 1) as nat, i);
    }
}

/// An expression contains what its operands contain, and contains itself.
pub proof fn expressions_contain_their_operands(expr: StoredQueryExpr, i: int)
    requires
        0 <= i < expr.operands().len(),
    ensures
        expr.operands()[i].contains_aggregate() ==> expr.contains_aggregate(),
        expr.operands()[i].contains_subquery() ==> expr.contains_subquery(),
        expr is Aggregate ==> expr.contains_aggregate(),
        expr is ScalarSubquery || expr is Exists || expr is InSubquery ==> expr.contains_subquery(),
{
    if expr.operands()[i].contains_aggregate() {
        lemma_aggregate_inside(expr, expr.operands().len(), i);
    }
    if expr.operands()[i].contains_subquery() {
        lemma_subquery_inside(expr, expr.operands().len(), i);
    }
}

/// An expression that is computed for each row holds no aggregate, and an argument of a
/// table function no subquery either; an aggregate is not taken of aggregates; a
/// reference to the output is not part of another expression; and over the output of a
/// query that is no `SELECT` rows are sorted by its columns alone.
pub proof fn expressions_stand_where_they_may(expr: StoredQueryExpr, i: int)
    ensures
        expr.placement_problem(ExprPlacement::spec_non_aggregate()) is None
            ==> !expr.contains_aggregate() && !(expr is LocalRef),
        expr.placement_problem(ExprPlacement::spec_table_function()) is None
            ==> !expr.contains_aggregate() && !expr.contains_subquery() && !(expr is LocalRef),
        expr.placement_problem(ExprPlacement::spec_select_item()) is None ==> {
            &&& !(expr is LocalRef)
            &&& 0 <= i < expr.operands().len() ==> !(expr.operands()[i] is LocalRef) && (expr
                is Aggregate ==> !expr.operands()[i].contains_aggregate())
        },
        expr.placement_problem(ExprPlacement::spec_order_by_output()) is None ==> expr is LocalRef,
{
    let placement = ExprPlacement::spec_non_aggregate();
    if expr.placement_problem(placement) is None {
        lemma_placed(expr, placement, true);
    }
    let placement = ExprPlacement::spec_table_function();
    if expr.placement_problem(placement) is None {
        lemma_placed(expr, placement, true);
    }
    let placement = ExprPlacement::spec_select_item();
    if expr.placement_problem(placement) is None {
        lemma_operands_placed(expr, placement.for_operands(expr), 0);
    }
}

/// Where a query groups its rows, whether by keys, by a condition on groups or by an
/// aggregate, each column that it gives, sorts by or removes duplicates by is an aggregate
/// or a grouping key or uses no column of the input; a column of the input itself must be
/// a grouping key.
pub proof fn grouped_columns_are_keys(
    select: StoredSelect,
    order_by: Seq<StoredOrderBy>,
    i: int,
    j: int,
)
    requires
        placement::select_problem(select, order_by) is None,
        0 <= i < select.columns@.len(),
        select.group_by@.len() > 0 || select.having is Some || select.columns@[i].expr is Aggregate,
    ensures
        0 <= j < select.columns@.len() && select.columns@[j].expr is InputRef ==> exists|k: int|
            0 <= k < select.group_by@.len() && (#[trigger] select.group_by@[k]).same(
                select.columns@[j].expr,
            ),
        0 <= j < order_by.len() && order_by[j].expr is InputRef ==> exists|k: int|
            0 <= k < select.group_by@.len() && (#[trigger] select.group_by@[k]).same(
                order_by[j].expr,
            ),
        select.having is Some && select.having->0 is InputRef ==> exists|k: int|
            0 <= k < select.group_by@.len() && (#[trigger] select.group_by@[k]).same(
                select.having->0,
            ),
{
    let items = stored_query::item_exprs(select.columns@);
    let keys = stored_query::key_exprs(order_by);
    assert(items[i] == select.columns@[i].expr);
    if select.columns@[i].expr is Aggregate {
        assert(items[i].contains_aggregate());
    }
    if 0 <= j < select.columns@.len() && select.columns@[j].expr is InputRef {
        lemma_no_aggregate(items[j], 0);
        assert(items[j].is_grouped(select.group_by@));
    }
    if 0 <= j < order_by.len() && order_by[j].expr is InputRef {
        lemma_no_aggregate(keys[j], 0);
        assert(keys[j].is_grouped(select.group_by@));
    }
    if select.having is Some && select.having->0 is InputRef {
        lemma_no_aggregate(select.having->0, 0);
        assert(stored_query::clause(select.having)[0].is_grouped(select.group_by@));
    }
}

/// Without grouping, aggregates and duplicate elimination, a `SELECT` may give and sort by
/// whatever it likes.
pub proof fn plain_selects_are_free(select: StoredSelect, order_by: Seq<StoredOrderBy>)
    requires
        select.distinct is None,
        select.group_by@.len() == 0,
        select.having is None,
        forall|i: int|
            0 <= i < select.columns@.len() ==> !(
            #[trigger] select.columns@[i]).expr.contains_aggregate(),
        forall|i: int| 0 <= i < order_by.len() ==> !(#[trigger] order_by[i]).expr.contains_aggregate(),
    ensures
        placement::select_problem(select, order_by) is None,
{
    let items = stored_query::item_exprs(select.columns@);
    let keys = stored_query::key_exprs(order_by);
    assert forall|i: int| 0 <= i < items.len() implies !(
    #[trigger] items[i]).contains_aggregate() by {
        assert(items[i] == select.columns@[i].expr);
    }
    assert forall|i: int| 0 <= i < keys.len() implies !(
    #[trigger] keys[i]).contains_aggregate() by {
        assert(keys[i] == order_by[i].expr);
    }
}

/// A `SELECT DISTINCT` sorts by what it gives: each sort key is one of its columns.
pub proof fn distinct_rows_are_sorted_by_columns(
    select: StoredSelect,
    order_by: Seq<StoredOrderBy>,
    i: int,
)
    requires
        placement::select_problem(select, order_by) is None,
        select.distinct == Some(StoredDistinct::All),
        0 <= i < order_by.len(),
    ensures
        exists|k: int|
            0 <= k < select.columns@.len() && (#[trigger] select.columns@[k]).expr.same(
                order_by[i].expr,
            ),
{
    let items = stored_query::item_exprs(select.columns@);
    assert(placement::key_is_selected(select, order_by[i]));
    let k = choose|k: int| 0 <= k < items.len() && (#[trigger] items[k]).same(order_by[i].expr);
    assert(select.columns@[k].expr == items[k]);
}

proof fn lemma_first_other_key(
    keys: Seq<StoredQueryExpr>,
    order_by: Seq<StoredOrderBy>,
    start: nat,
)
    requires
        start <= order_by.len(),
    ensures
        ({
            let other = placement::first_other_key(keys, order_by, start);
            &&& start <= other <= order_by.len()
            &&& other < order_by.len() ==> !placement::occurs_in(order_by[other as int].expr, keys)
            &&& forall|i: int|
                start <= i < other ==> placement::occurs_in((#[trigger] order_by[i]).expr, keys)
        }),
    decreases order_by.len() - start,
{
    if start < order_by.len() && placement::occurs_in(order_by[start as int].expr, keys) {
        lemma_first_other_key(keys, order_by, start + 1);
    }
}

/// The keys of `DISTINCT ON` come first among the sort keys: where another sort key
/// stands, every one of them stands before it. Nothing else is asked of them.
pub proof fn distinct_keys_are_sorted_by_first(
    keys: Seq<StoredQueryExpr>,
    order_by: Seq<StoredOrderBy>,
)
    ensures
        placement::distinct_keys_lead(keys, order_by) <==> forall|i: int, k: int|
            #![trigger order_by[i], keys[k]]
            0 <= i < order_by.len() && 0 <= k < keys.len() ==> placement::occurs_in(
                order_by[i].expr,
                keys,
            ) || exists|j: int| 0 <= j < i && keys[k].same((#[trigger] order_by[j]).expr),
{
    lemma_first_other_key(keys, order_by, 0);
    let other = placement::first_other_key(keys, order_by, 0);
    if placement::distinct_keys_lead(keys, order_by) {
        assert forall|i: int, k: int|
            #![trigger order_by[i], keys[k]]
            0 <= i < order_by.len() && 0 <= k < keys.len() implies placement::occurs_in(
            order_by[i].expr,
            keys,
        ) || exists|j: int| 0 <= j < i && keys[k].same((#[trigger] order_by[j]).expr) by {
            if !placement::occurs_in(order_by[i].expr, keys) {
                assert(other <= i);
                let j = choose|j: int|
                    0 <= j < other && (#[trigger] keys[k]).same((#[trigger] order_by[j]).expr);
                assert(0 <= j < i && keys[k].same(order_by[j].expr));
            }
        }
    } else {
        let k = choose|k: int|
            0 <= k < keys.len() && !exists|i: int|
                0 <= i < other && (#[trigger] keys[k]).same((#[trigger] order_by[i]).expr);
        let key = order_by[other as int];
        assert(keys[k] == keys[k]);
    }
}

/// A query that locks rows reads the one table that it locks, groups nothing, removes no
/// duplicates, and holds no aggregate and no subquery in what it gives and sorts by.
pub proof fn locked_rows_come_one_by_one(query: StoredQueryV1, state: WalkState, i: int)
    requires
        query.row_lock is Some,
        walk::locking(query, state) is Ok,
    ensures
        query.body is Select,
        ({
            let select = *query.body->Select_0;
            let table = query.row_lock->0.table;
            &&& select.from is Some && select.from->0 is Table && select.from->0->table == table
            &&& select.distinct is None && select.group_by@.len() == 0 && select.having is None
            &&& 0 <= i < select.columns@.len() ==> !select.columns@[i].expr.contains_aggregate()
                && !select.columns@[i].expr.contains_subquery()
            &&& 0 <= i < query.order_by@.len() ==> !query.order_by@[i].expr.contains_aggregate()
                && !query.order_by@[i].expr.contains_subquery()
            &&& select.filter is Some ==> !select.filter->0.contains_subquery()
            &&& walk::locking(query, state)->Ok_0.objects.contains(CatalogObjectId::Table(table))
        }),
{
    let select = *query.body->Select_0;
    let items = stored_query::item_exprs(select.columns@);
    let keys = stored_query::key_exprs(query.order_by@);
    if 0 <= i < select.columns@.len() {
        assert(items[i] == select.columns@[i].expr);
    }
    if 0 <= i < query.order_by@.len() {
        assert(keys[i] == query.order_by@[i].expr);
    }
}

/// `UNNEST` takes one array and gives its elements, which may be NULL;
/// `GENERATE_SERIES` takes two or three integers and gives integers that are not.
pub proof fn table_functions_give_one_column(
    function: u32,
    args: Seq<StoredQueryExpr>,
    schema: Seq<StoredRangeColumn>,
)
    requires
        walk::table_function_problem(function, args, schema) is None,
    ensures
        schema.len() == 1,
        schema[0].pg_type == PgType::of_data_type(schema[0].data_type),
        function == UNNEST_FUNCTION_ID || function == GENERATE_SERIES_FUNCTION_ID,
        function == UNNEST_FUNCTION_ID ==> args.len() == 1 && schema[0].nullable
            && args[0].spec_data_type() is Array && args[0].spec_data_type()->Array_0.element()
            == schema[0].data_type,
        function == GENERATE_SERIES_FUNCTION_ID ==> (args.len() == 2 || args.len() == 3)
            && args[0].spec_data_type() is Integer && args[1].spec_data_type() is Integer && (
        args.len() == 3 ==> args[2].spec_data_type() is Integer) && schema[0].data_type is Integer
            && !schema[0].nullable,
{
    if function == GENERATE_SERIES_FUNCTION_ID && args.len() == 3 {
        assert(args[2].spec_data_type() is Integer);
    }
}

/// A derived table has the columns of its query: as many, with their types and
/// nullability. Only a lateral one uses columns of the inputs beside it.
pub proof fn derived_tables_have_the_columns_of_their_query(
    query: StoredQueryV1,
    schema: Seq<StoredRangeColumn>,
    lateral: bool,
    i: int,
)
    requires
        walk::derived_problem(query, schema, lateral) is None,
    ensures
        walk::nullability_of(query) is Ok,
        schema.len() == query.outputs().len(),
        0 <= i < schema.len() ==> schema[i].data_type == query.outputs()[i].data_type
            && schema[i].pg_type == query.outputs()[i].pg_type && schema[i].nullable
            == walk::nullability_of(query)->Ok_0[i],
        !lateral ==> query.correlations@.len() == 0,
{
}

/// A column of a `SELECT` can be NULL as its expression can, one of a `VALUES` list
/// exactly if it can in some row, and one of a set operation exactly if it can in one of
/// the arms, which have as many columns as the whole.
pub proof fn outputs_are_null_where_a_row_may_be(query: StoredQueryV1, c: int)
    requires
        walk::nullability_of(query) is Ok,
        0 <= c < walk::nullability_of(query)->Ok_0.len(),
    ensures
        ({
            let nullable = walk::nullability_of(query)->Ok_0;
            match query.body {
                StoredQueryBody::Select(select) => nullable.len() == select.columns@.len()
                    && nullable[c] == select.columns@[c].expr.spec_nullable(),
                StoredQueryBody::Values(values) => nullable.len() == values.output_schema@.len() && (
                nullable[c] <==> exists|r: int|
                    0 <= r < values.rows@.len() && (#[trigger] values.rows@[r])@[c].spec_nullable()),
                StoredQueryBody::SetOp(set_op) => {
                    let left = walk::nullability_of(*set_op.left);
                    let right = walk::nullability_of(*set_op.right);
                    &&& left is Ok && left->Ok_0.len() == nullable.len()
                    &&& right is Ok && right->Ok_0.len() == nullable.len()
                    &&& nullable.len() == set_op.output_schema@.len()
                    &&& !nullable[c] <==> !left->Ok_0[c] && !right->Ok_0[c]
                },
            }
        }),
{
}

proof fn lemma_items_match(select: StoredSelect, start: nat, i: int)
    requires
        walk::items_problem(select, start) is None,
        start <= i < select.columns@.len(),
    ensures
        select.columns@[i].alias@ == select.output_schema@[i].name@,
        select.columns@[i].expr.spec_data_type() == select.output_schema@[i].data_type,
        select.columns@[i].expr.placement_problem(ExprPlacement::spec_select_item()) is None,
    decreases i - start,
{
    if start < i {
        lemma_items_match(select, start + 1, i);
    }
}

/// An accepted `SELECT` gives at least one column, each with the name and type that its
/// output declares; its conditions are booleans, and the one on rows holds no aggregate.
pub proof fn accepted_selects_give_what_they_declare(
    select: StoredSelect,
    scope: ScopeView,
    depth: nat,
    state: WalkState,
    i: int,
)
    requires
        walk::walk_select(select, scope, depth, state) is Ok,
    ensures
        select.columns@.len() > 0,
        select.columns@.len() == select.output_schema@.len(),
        0 <= i < select.columns@.len() ==> select.columns@[i].alias@
            == select.output_schema@[i].name@ && select.columns@[i].expr.spec_data_type()
            == select.output_schema@[i].data_type && !(select.columns@[i].expr is LocalRef),
        select.filter is Some ==> select.filter->0.spec_data_type() is Boolean
            && !select.filter->0.contains_aggregate(),
        select.having is Some ==> select.having->0.spec_data_type() is Boolean,
{
    if 0 <= i < select.columns@.len() {
        lemma_items_match(select, 0, i);
    }
    if select.filter is Some {
        expressions_stand_where_they_may(select.filter->0, 0);
    }
}

/// An accepted join has a condition exactly if it is no `CROSS JOIN`, and the condition is
/// a boolean without aggregates.
pub proof fn joins_have_boolean_conditions(
    from: StoredFrom,
    scope: ScopeView,
    available: Ranges,
    depth: nat,
    state: WalkState,
)
    requires
        from is Join,
        walk::walk_from(from, scope, available, depth, state) is Ok,
    ensures
        from->condition is None <==> from->join_type is Cross,
        from->condition is Some ==> from->condition->0.spec_data_type() is Boolean
            && !from->condition->0.contains_aggregate(),
{
    if from->condition is Some {
        reveal_with_fuel(walk::walk_join_condition, 2);
        let (left, right) = (*from->left, *from->right);
        let started = state.counted()->Ok_0;
        let (state, available) = walk::walk_from(left, scope, available, depth + 1, started)->Ok_0;
        let (state, available) = walk::walk_from(right, scope, available, depth + 1, state)->Ok_0;
        let joined = ScopeView { ranges: available, ..scope };
        assert(walk::walk_join_condition(
            left,
            right,
            from->condition,
            joined,
            depth + 1,
            state,
        ) is Ok);
        expressions_stand_where_they_may(from->condition->0, 0);
    }
}

/// The arms of an accepted set operation give columns of the types of the whole, and
/// neither uses columns of an outer query.
pub proof fn arms_give_the_types_of_the_whole(
    query: StoredQueryV1,
    scope: ScopeView,
    depth: nat,
    state: WalkState,
    i: int,
)
    requires
        query.body is SetOp,
        walk::walk_body(query, scope, depth, state) is Ok,
    ensures
        ({
            let set_op = query.body->SetOp_0;
            let (left, right) = (*set_op.left, *set_op.right);
            &&& left.outputs().len() == set_op.output_schema@.len()
            &&& right.outputs().len() == set_op.output_schema@.len()
            &&& set_op.output_schema@.len() > 0
            &&& 0 <= i < set_op.output_schema@.len() ==> left.outputs()[i].data_type
                == set_op.output_schema@[i].data_type && right.outputs()[i].data_type
                == set_op.output_schema@[i].data_type
            &&& left.correlations@.len() == 0
            &&& right.correlations@.len() == 0
        }),
{
}

proof fn lemma_rows_fit(
    query: StoredQueryV1,
    start: nat,
    scope: ScopeView,
    depth: nat,
    state: WalkState,
    r: int,
    c: int,
)
    requires
        query.body is Values,
        walk::walk_rows(
            query.body->Values_0.rows@,
            &query.body->Values_0.output_schema,
            start,
            scope,
            depth,
            state,
        ) is Ok,
        start <= r < query.body->Values_0.rows@.len(),
    ensures
        ({
            let values = query.body->Values_0;
            let row = values.rows@[r]@;
            &&& row.len() == values.output_schema@.len()
            &&& 0 <= c < row.len() ==> row[c].spec_data_type() == values.output_schema@[c].data_type
                && !row[c].contains_aggregate()
        }),
    decreases r - start,
{
    let values = query.body->Values_0;
    let row = values.rows@[start as int]@;
    let rule = ItemRule::Values(&values.output_schema);
    if start < r {
        let next = walk::walk_items(row, rule, 0, scope, depth, state)->Ok_0;
        lemma_rows_fit(query, start + 1, scope, depth, next, r, c);
    } else if 0 <= c < row.len() {
        lemma_items_pass(row, rule, 0, scope, depth, state, c);
        expressions_stand_where_they_may(row[c], 0);
    }
}

/// The rows of an accepted `VALUES` list, of which there is at least one, have as many
/// expressions as there are columns, of their types.
pub proof fn rows_give_the_declared_types(
    query: StoredQueryV1,
    scope: ScopeView,
    depth: nat,
    state: WalkState,
    r: int,
    c: int,
)
    requires
        query.body is Values,
        walk::walk_body(query, scope, depth, state) is Ok,
        0 <= r < query.body->Values_0.rows@.len(),
        0 <= c < query.body->Values_0.output_schema@.len(),
    ensures
        ({
            let values = query.body->Values_0;
            let row = values.rows@[r]@;
            &&& row.len() == values.output_schema@.len()
            &&& row[c].spec_data_type() == values.output_schema@[c].data_type
            &&& !row[c].contains_aggregate()
        }),
{
    lemma_rows_fit(query, 0, scope, depth, state, r, c);
}

/// A column that an accepted query uses of an outer one is a column there, with the
/// declared type and nullability; a query that stands alone uses none.
pub proof fn correlations_are_outer_columns(
    query: StoredQueryV1,
    parent: Option<ScopeView>,
    depth: nat,
    state: WalkState,
    i: int,
)
    requires
        walk::walk_query(query, parent, depth, state) is Ok,
        0 <= i < query.correlations@.len(),
    ensures
        parent is Some,
        ({
            let used = query.correlations@[i];
            &&& used.outer is InputRef || used.outer is OuterRef
            &&& used.outer.spec_data_type() == used.data_type
            &&& used.outer.spec_nullable() == used.nullable
            &&& used.outer.problem_before(parent->0) is None
        }),
{
    let started = state.counted()->Ok_0;
    let own = walk::own_ranges(query, depth + 1)->Ok_0;
    let scope = walk::own_scope(query, own);
    let body = walk::walk_body(query, scope, depth, started)->Ok_0;
    let sorted = walk::walk_items(
        stored_query::key_exprs(query.order_by@),
        ItemRule::Placed(walk::order_placement(query)),
        0,
        scope,
        depth,
        body,
    )->Ok_0;
    let outer = stored_query::outer_exprs(query.correlations@);
    assert(outer[i] == query.correlations@[i].outer);
    lemma_items_pass(
        outer,
        ItemRule::Correlated(&query.correlations),
        0,
        parent->0,
        depth,
        sorted,
        i,
    );
}

/// An accepted query declares wire types that stand for the types of its columns, and
/// sorts the output of a set operation or a `VALUES` list by its columns.
pub proof fn outputs_have_their_wire_types(
    query: StoredQueryV1,
    parent: Option<ScopeView>,
    depth: nat,
    state: WalkState,
    i: int,
)
    requires
        walk::walk_query(query, parent, depth, state) is Ok,
    ensures
        0 <= i < query.outputs().len() ==> query.outputs()[i].pg_type.refines(
            query.outputs()[i].data_type,
        ),
        0 <= i < query.order_by@.len() && !(query.body is Select) ==> {
            let key = query.order_by@[i].expr;
            &&& key is LocalRef
            &&& key->output < query.outputs().len()
            &&& key.spec_data_type() == query.outputs()[key->output as int].data_type
        },
{
    if 0 <= i < query.order_by@.len() && !(query.body is Select) {
        let started = state.counted()->Ok_0;
        let own = walk::own_ranges(query, depth + 1)->Ok_0;
        let scope = walk::own_scope(query, own);
        let body = walk::walk_body(query, scope, depth, started)->Ok_0;
        let keys = stored_query::key_exprs(query.order_by@);
        assert(keys[i] == query.order_by@[i].expr);
        lemma_items_pass(
            keys,
            ItemRule::Placed(walk::order_placement(query)),
            0,
            scope,
            depth,
            body,
            i,
        );
    }
}

/// A query of another version than 1, one that stands 32 levels deep or deeper, and one
/// behind 262,144 nodes are refused; a list has at most 16,384 items, and 65,536 where the
/// items are columns.
pub proof fn queries_are_bounded(
    query: StoredQueryV1,
    parent: Option<ScopeView>,
    depth: nat,
    state: WalkState,
    len: nat,
)
    ensures
        walk::walk_query(query, parent, depth, state) is Ok ==> {
            &&& query.version == 1
            &&& depth < 32
            &&& state.nodes < 262_144
            &&& query.order_by@.len() <= 16_384
            &&& query.correlations@.len() <= 16_384
        },
        node::list_problem(len) is None <==> len <= 16_384,
        node::columns_problem(len) is None <==> len <= 65_536,
        state.counted() is Ok <==> state.nodes + 1 <= 262_144,
        state.counted() is Ok ==> state.counted()->Ok_0.nodes == state.nodes + 1
            && state.counted()->Ok_0.objects == state.objects,
{
}

proof fn lemma_literal(literal: StoredQueryExpr, scope: ScopeView, state: WalkState)
    requires
        literal is Literal,
        literal.problem_before(scope) is None,
        state.nodes < 262_144,
    ensures
        walk::walk_expr(literal, scope, 0, state) matches Ok(after) && after.objects
            =~= state.objects && after.nodes == state.nodes + 1,
        literal.placement_problem(ExprPlacement::spec_select_item()) is None,
        !literal.contains_aggregate(),
{
    let met = state.counted()->Ok_0.having_met(node::own_objects(literal, scope.ranges));
    assert(walk::walk_items(literal.operands(), ItemRule::Operand(&literal), 0, scope, 1, met)
        == walk::Walk::Ok(met));
    assert(literal.problem_after() is None);
    assert(literal.operand_misplacement(ExprPlacement::spec_select_item(), 0) is None);
    assert(!literal.operands_contain_aggregate(0));
}

/// The `SELECT` gives one literal, as it declares, and does nothing else.
pub open spec fn selects_a_literal(select: StoredSelect) -> bool {
    let literal = select.columns@[0].expr;
    &&& select.from is None && select.filter is None && select.having is None
    &&& select.distinct is None && select.group_by@.len() == 0
    &&& select.columns@.len() == 1 && select.output_schema@.len() == 1
    &&& literal is Literal
    &&& literal->Literal_value@.matches_type(literal.spec_data_type())
    &&& literal->Literal_value@.is_finite()
    &&& literal.spec_nullable() <==> literal->Literal_value@ is Null
    &&& select.output_schema@[0].name@ == select.columns@[0].alias@
    &&& select.output_schema@[0].data_type == literal.spec_data_type()
    &&& select.output_schema@[0].pg_type.refines(literal.spec_data_type())
}

/// A `SELECT` that gives one literal and does nothing else is accepted, and uses nothing of
/// the catalog.
pub proof fn selects_of_literals_are_accepted(
    select: StoredSelect,
    scope: ScopeView,
    state: WalkState,
)
    requires
        selects_a_literal(select),
        state.nodes < 262_144,
    ensures
        walk::walk_select(select, scope, 0, state) matches Ok(after) && after.objects
            =~= state.objects && after.nodes == state.nodes + 1,
{
    let literal = select.columns@[0].expr;
    lemma_literal(literal, scope, state);
    let met = walk::walk_expr(literal, scope, 0, state)->Ok_0;
    let items = stored_query::item_exprs(select.columns@);
    assert(walk::items_problem(select, 1) is None);
    assert(walk::items_problem(select, 0) is None);
    assert(walk::select_list_problem(select) is None);
    assert(items[0] == literal);
    assert(walk::walk_items(items, ItemRule::Free, 1, scope, 0, met) == walk::Walk::Ok(met));
    assert(walk::walk_items(items, ItemRule::Free, 0, scope, 0, state) == walk::Walk::Ok(met));
    let row_rule = ItemRule::Placed(ExprPlacement::spec_non_aggregate());
    let keys = stored_query::distinct_keys(select.distinct);
    assert(walk::walk_items(keys, row_rule, 0, scope, 0, state) == walk::Walk::Ok(state));
    assert(walk::walk_items(select.group_by@, row_rule, 0, scope, 0, met) == walk::Walk::Ok(met));
}

} // verus!
