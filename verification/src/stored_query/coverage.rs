//! The catalog objects on record for a valid query cover all that the searches through
//! the query report.

use vstd::prelude::*;

use crate::catalog_change::CatalogObjectId;
use crate::ids::BindingId;
use crate::stored_query::node::{self, ScopeView};
use crate::stored_query::placement::ExprPlacement;
use crate::stored_query::ranges::{self, RangeTarget, Ranges};
use crate::stored_query::references::{self, Found, FoundFrom, Reference};
use crate::stored_query::walk::{self, ItemRule, Walk, WalkState};
use crate::stored_query::{
    self, StoredFrom, StoredJoinType, StoredQueryBody, StoredQueryColumn, StoredQueryExpr,
    StoredQueryV1, StoredSelect, MAX_STORED_QUERY_DEPTH,
};

verus! {

/// What a reference is to is among the objects.
pub open spec fn is_recorded(reference: Reference, objects: Set<CatalogObjectId>) -> bool {
    match reference {
        Reference::Column { table, column, .. } => objects.contains(CatalogObjectId::Table(table))
            && objects.contains(CatalogObjectId::Column { relation: table, column }),
        Reference::System { relation_oid, .. } => objects.contains(
            CatalogObjectId::SystemRelation(relation_oid),
        ),
    }
}

/// What any of the references is to is among the objects.
pub open spec fn all_recorded(references: Seq<Reference>, objects: Set<CatalogObjectId>) -> bool {
    forall|i: int| 0 <= i < references.len() ==> is_recorded(#[trigger] references[i], objects)
}

/// A search came to its end and all that it met is among the objects.
spec fn is_covered(found: Found, objects: Set<CatalogObjectId>) -> bool {
    found.problem is None && all_recorded(found.references, objects)
}

/// The searches through the items of a list came to their ends.
spec fn items_covered(
    items: Seq<StoredQueryExpr>,
    start: nat,
    r: Ranges,
    objects: Set<CatalogObjectId>,
) -> bool {
    forall|i: int|
        start <= i < items.len() ==> is_covered(
            references::expr_references(#[trigger] items[i], r),
            objects,
        )
}

/// The range, whatever outer join it stands under.
spec fn plain(target: RangeTarget) -> RangeTarget {
    match target {
        RangeTarget::Catalog { table, .. } => RangeTarget::Catalog { table, null_extended: false },
        RangeTarget::Position { columns, .. } => RangeTarget::Position {
            columns,
            null_extended: false,
        },
    }
}

/// The same ranges, whatever outer joins they stand under.
spec fn alike(a: Ranges, b: Ranges) -> bool {
    &&& forall|id: BindingId| #[trigger] a.contains_key(id) <==> b.contains_key(id)
    &&& forall|id: BindingId| #[trigger]
        a.contains_key(id) ==> plain(a[id]) == plain(b[id])
}

/// The range of an input inside the `FROM` clause.
spec fn is_leaf(from: StoredFrom, id: BindingId, target: RangeTarget) -> bool
    decreases from,
{
    match from {
        StoredFrom::Join { left, right, .. } => is_leaf(*left, id, target) || is_leaf(
            *right,
            id,
            target,
        ),
        _ => ranges::range_of(from) == Some(id) && ranges::target_of(from, false) == Some(target),
    }
}

/// The ranges hold every range of the `FROM` clause.
spec fn holds_leaves(complete: Ranges, from: StoredFrom) -> bool {
    forall|id: BindingId, target: RangeTarget| #[trigger]
        is_leaf(from, id, target) ==> complete.contains_key(id) && plain(complete[id]) == target
}

proof fn lemma_recorded_in_more(
    references: Seq<Reference>,
    few: Set<CatalogObjectId>,
    many: Set<CatalogObjectId>,
)
    requires
        all_recorded(references, few),
        few.subset_of(many),
    ensures
        all_recorded(references, many),
{
    assert forall|i: int| 0 <= i < references.len() implies is_recorded(
        #[trigger] references[i],
        many,
    ) by {
        assert(is_recorded(references[i], few));
    }
}

proof fn lemma_items_in_more(
    items: Seq<StoredQueryExpr>,
    start: nat,
    r: Ranges,
    few: Set<CatalogObjectId>,
    many: Set<CatalogObjectId>,
)
    requires
        items_covered(items, start, r, few),
        few.subset_of(many),
    ensures
        items_covered(items, start, r, many),
{
    assert forall|i: int| start <= i < items.len() implies is_covered(
        references::expr_references(#[trigger] items[i], r),
        many,
    ) by {
        lemma_recorded_in_more(
            references::expr_references(items[i], r).references,
            few,
            many,
        );
    }
}

proof fn lemma_one_after_the_other(a: Found, b: Found, objects: Set<CatalogObjectId>)
    requires
        is_covered(a, objects),
        is_covered(b, objects),
    ensures
        is_covered(a.followed_by(b), objects),
{
    let both = a.followed_by(b).references;
    assert forall|i: int| 0 <= i < both.len() implies is_recorded(
        #[trigger] both[i],
        objects,
    ) by {
        if i < a.references.len() {
            assert(both[i] == a.references[i]);
        } else {
            assert(both[i] == b.references[i - a.references.len()]);
        }
    }
}

proof fn lemma_operands(
    expr: StoredQueryExpr,
    start: nat,
    r: Ranges,
    objects: Set<CatalogObjectId>,
)
    requires
        items_covered(expr.operands(), start, r, objects),
    ensures
        is_covered(references::operand_references(expr, start, r), objects),
    decreases expr.operands().len() - start,
{
    if start < expr.operands().len() {
        lemma_operands(expr, start + 1, r, objects);
        let item = expr.operands()[start as int];
        lemma_one_after_the_other(
            references::expr_references(item, r),
            references::operand_references(expr, start + 1, r),
            objects,
        );
    }
}

proof fn lemma_args(from: StoredFrom, start: nat, r: Ranges, objects: Set<CatalogObjectId>)
    requires
        items_covered(from.function_args(), start, r, objects),
    ensures
        is_covered(references::arg_references(from, start, r), objects),
    decreases from.function_args().len() - start,
{
    if start < from.function_args().len() {
        lemma_args(from, start + 1, r, objects);
        let item = from.function_args()[start as int];
        lemma_one_after_the_other(
            references::expr_references(item, r),
            references::arg_references(from, start + 1, r),
            objects,
        );
    }
}

proof fn lemma_direct(
    query: StoredQueryV1,
    start: nat,
    r: Ranges,
    objects: Set<CatalogObjectId>,
)
    requires
        items_covered(query.direct_exprs(), start, r, objects),
    ensures
        is_covered(references::direct_references(query, start, r), objects),
    decreases query.direct_exprs().len() - start,
{
    if start < query.direct_exprs().len() {
        lemma_direct(query, start + 1, r, objects);
        let item = query.direct_exprs()[start as int];
        lemma_one_after_the_other(
            references::expr_references(item, r),
            references::direct_references(query, start + 1, r),
            objects,
        );
    }
}

proof fn lemma_outer(query: StoredQueryV1, start: nat, r: Ranges, objects: Set<CatalogObjectId>)
    requires
        items_covered(stored_query::outer_exprs(query.correlations@), start, r, objects),
    ensures
        is_covered(references::outer_references(query, start, r), objects),
    decreases query.correlations@.len() - start,
{
    if start < query.correlations@.len() {
        lemma_outer(query, start + 1, r, objects);
        let item = stored_query::outer_exprs(query.correlations@)[start as int];
        assert(item == query.correlations@[start as int].outer);
        lemma_one_after_the_other(
            references::expr_references(item, r),
            references::outer_references(query, start + 1, r),
            objects,
        );
    }
}

proof fn lemma_ranges(from: StoredFrom, null_extended: bool, before: Ranges, depth: nat)
    requires
        ranges::with_ranges(from, null_extended, before, depth) is Ok,
    ensures
        ({
            let after = ranges::with_ranges(from, null_extended, before, depth)->Ok_0;
            &&& forall|id: BindingId| #[trigger]
                before.contains_key(id) ==> after.contains_key(id) && after[id] == before[id]
            &&& holds_leaves(after, from)
            &&& forall|id: BindingId| #[trigger]
                after.contains_key(id) ==> before.contains_key(id) || is_leaf(
                    from,
                    id,
                    plain(after[id]),
                )
        }),
    decreases from,
{
    let after = ranges::with_ranges(from, null_extended, before, depth)->Ok_0;
    if let StoredFrom::Join { left, right, join_type, .. } = from {
        let extends_left = null_extended || ranges::extends_left(join_type);
        let extends_right = null_extended || ranges::extends_right(join_type);
        let middle = ranges::with_ranges(*left, extends_left, before, depth + 1)->Ok_0;
        lemma_ranges(*left, extends_left, before, depth + 1);
        lemma_ranges(*right, extends_right, middle, depth + 1);
        assert forall|id: BindingId, target: RangeTarget| #[trigger]
            is_leaf(from, id, target) implies after.contains_key(id) && plain(after[id])
            == target by {
            if is_leaf(*left, id, target) {
                assert(middle.contains_key(id));
            } else {
                assert(is_leaf(*right, id, target));
            }
        }
        assert forall|id: BindingId| #[trigger] after.contains_key(id) implies before.contains_key(
            id,
        ) || is_leaf(from, id, plain(after[id])) by {
            if middle.contains_key(id) {
                if !before.contains_key(id) {
                    assert(is_leaf(*left, id, plain(middle[id])));
                }
            } else {
                assert(is_leaf(*right, id, plain(after[id])));
            }
        }
    } else {
        let range = ranges::range_of(from)->0;
        let target = ranges::target_of(from, null_extended)->0;
        assert(after == before.insert(range, target));
        assert(plain(target) == ranges::target_of(from, false)->0);
        assert forall|id: BindingId, leaf: RangeTarget| #[trigger]
            is_leaf(from, id, leaf) implies after.contains_key(id) && plain(after[id]) == leaf by {}
        assert forall|id: BindingId| #[trigger] after.contains_key(id) implies before.contains_key(
            id,
        ) || is_leaf(from, id, plain(after[id])) by {}
    }
}

/// A join changes nothing about its ranges but what outer join they stand under.
proof fn lemma_behind_join(
    before: Ranges,
    after_left: Ranges,
    after_right: Ranges,
    join_type: StoredJoinType,
)
    ensures
        alike(
            references::behind_join(before, after_left, after_right, join_type),
            after_right,
        ),
{
}

/// What a walk over an expression gives.
spec fn expr_walk_covers(
    expr: StoredQueryExpr,
    state: WalkState,
    walk: Walk,
    r: Ranges,
) -> bool {
    walk matches Walk::Ok(after) ==> {
        &&& state.objects.subset_of(after.objects)
        &&& is_covered(references::expr_references(expr, r), after.objects)
    }
}

proof fn lemma_own_reference(expr: StoredQueryExpr, scope: ScopeView, r: Ranges)
    requires
        expr.problem_before(scope) is None,
        alike(r, scope.ranges),
    ensures
        is_covered(
            references::own_reference(expr, r),
            node::own_objects(expr, scope.ranges),
        ),
{
    if let StoredQueryExpr::InputRef { range, .. } = expr {
        assert(scope.ranges.contains_key(range));
        assert(r.contains_key(range));
        assert(plain(r[range]) == plain(scope.ranges[range]));
    }
}

proof fn lemma_expr(
    expr: StoredQueryExpr,
    scope: ScopeView,
    depth: nat,
    state: WalkState,
    r: Ranges,
)
    requires
        alike(r, scope.ranges),
    ensures
        expr_walk_covers(expr, state, walk::walk_expr(expr, scope, depth, state), r),
    decreases MAX_STORED_QUERY_DEPTH - depth, 0nat, 0nat,
{
    let walk = walk::walk_expr(expr, scope, depth, state);
    if let Walk::Ok(after) = walk {
        let counted = state.counted()->Ok_0;
        let own = node::own_objects(expr, scope.ranges);
        let met = counted.having_met(own);
        let rule = ItemRule::Operand(&expr);
        let walked = walk::walk_items(expr.operands(), rule, 0, scope, depth + 1, met)->Ok_0;
        lemma_items(expr.operands(), rule, 0, scope, depth + 1, met, r);
        lemma_own_reference(expr, scope, r);
        let here = references::own_reference(expr, r);
        let below = references::operand_references(expr, 0, r);
        assert(own.subset_of(walked.objects));
        lemma_recorded_in_more(here.references, own, walked.objects);
        lemma_operands(expr, 0, r, walked.objects);
        lemma_one_after_the_other(here, below, walked.objects);
        let both = here.followed_by(below);
        match expr.subquery() {
            Some(query) => {
                lemma_query(query, Some(scope), depth + 1, walked, Some(r));
                lemma_recorded_in_more(both.references, walked.objects, after.objects);
                lemma_one_after_the_other(
                    both,
                    references::query_references(query, Some(r)),
                    after.objects,
                );
            },
            None => {
                lemma_one_after_the_other(both, Found::nothing(), after.objects);
            },
        }
    }
}

proof fn lemma_items(
    items: Seq<StoredQueryExpr>,
    rule: ItemRule<'_>,
    start: nat,
    scope: ScopeView,
    depth: nat,
    state: WalkState,
    r: Ranges,
)
    requires
        alike(r, scope.ranges),
    ensures
        walk::walk_items(items, rule, start, scope, depth, state) matches Walk::Ok(after) ==> {
            &&& state.objects.subset_of(after.objects)
            &&& items_covered(items, start, r, after.objects)
        },
    decreases MAX_STORED_QUERY_DEPTH - depth, 1nat, items.len() - start,
{
    let walk = walk::walk_items(items, rule, start, scope, depth, state);
    if walk is Ok && start < items.len() {
        let after = walk->Ok_0;
        let item = items[start as int];
        let middle = walk::walk_expr(item, scope, depth, state)->Ok_0;
        lemma_expr(item, scope, depth, state, r);
        lemma_items(items, rule, start + 1, scope, depth, middle, r);
        lemma_recorded_in_more(
            references::expr_references(item, r).references,
            middle.objects,
            after.objects,
        );
    }
}

proof fn lemma_rows(
    rows: Seq<Vec<StoredQueryExpr>>,
    columns: &Vec<StoredQueryColumn>,
    start: nat,
    scope: ScopeView,
    depth: nat,
    state: WalkState,
    r: Ranges,
)
    requires
        alike(r, scope.ranges),
    ensures
        walk::walk_rows(rows, columns, start, scope, depth, state) matches Walk::Ok(after) ==> {
            &&& state.objects.subset_of(after.objects)
            &&& forall|i: int|
                start <= i < rows.len() ==> items_covered(
                    (#[trigger] rows[i])@,
                    0,
                    r,
                    after.objects,
                )
        },
    decreases MAX_STORED_QUERY_DEPTH - depth, 2nat, rows.len() - start,
{
    let walk = walk::walk_rows(rows, columns, start, scope, depth, state);
    if walk is Ok && start < rows.len() {
        let after = walk->Ok_0;
        let row = rows[start as int]@;
        let rule = ItemRule::Values(columns);
        let middle = walk::walk_items(row, rule, 0, scope, depth, state)->Ok_0;
        lemma_items(row, rule, 0, scope, depth, state, r);
        lemma_rows(rows, columns, start + 1, scope, depth, middle, r);
        lemma_items_in_more(row, 0, r, middle.objects, after.objects);
    }
}

proof fn lemma_row_exprs(
    rows: Seq<Vec<StoredQueryExpr>>,
    count: nat,
    r: Ranges,
    objects: Set<CatalogObjectId>,
)
    requires
        count <= rows.len(),
        forall|i: int|
            0 <= i < rows.len() ==> items_covered((#[trigger] rows[i])@, 0, r, objects),
    ensures
        items_covered(stored_query::row_exprs(rows, count), 0, r, objects),
    decreases count,
{
    if count > 0 {
        lemma_row_exprs(rows, (count - 1) as nat, r, objects);
        lemma_joined(
            stored_query::row_exprs(rows, (count - 1) as nat),
            rows[count - 1]@,
            r,
            objects,
        );
    }
}

proof fn lemma_joined(
    a: Seq<StoredQueryExpr>,
    b: Seq<StoredQueryExpr>,
    r: Ranges,
    objects: Set<CatalogObjectId>,
)
    requires
        items_covered(a, 0, r, objects),
        items_covered(b, 0, r, objects),
    ensures
        items_covered(a + b, 0, r, objects),
{
    let both = a + b;
    assert forall|i: int| 0 <= i < both.len() implies is_covered(
        references::expr_references(#[trigger] both[i], r),
        objects,
    ) by {
        if i < a.len() {
            assert(both[i] == a[i]);
        } else {
            assert(both[i] == b[i - a.len()]);
        }
    }
}

proof fn lemma_condition(
    condition: Option<StoredQueryExpr>,
    context: Seq<char>,
    placement: ExprPlacement,
    scope: ScopeView,
    depth: nat,
    state: WalkState,
    r: Ranges,
)
    requires
        alike(r, scope.ranges),
    ensures
        walk::walk_condition(condition, context, placement, scope, depth, state) matches Walk::Ok(
            after,
        ) ==> {
            &&& state.objects.subset_of(after.objects)
            &&& items_covered(stored_query::clause(condition), 0, r, after.objects)
        },
    decreases MAX_STORED_QUERY_DEPTH - depth, 2nat, 0nat,
{
    if let Some(condition) = condition {
        lemma_expr(condition, scope, depth, state, r);
    }
}

/// What a walk over a `FROM` clause gives.
spec fn from_walk_covers(
    from: StoredFrom,
    scope: ScopeView,
    available: Ranges,
    state: WalkState,
    walk: walk::FromWalk,
    found: FoundFrom,
) -> bool {
    match walk {
        Ok((after, passed)) => {
            &&& state.objects.subset_of(after.objects)
            &&& found.ranges is Ok
            &&& alike(found.ranges->Ok_0, passed)
            &&& all_recorded(found.references, after.objects)
            &&& forall|id: BindingId| #[trigger]
                available.contains_key(id) ==> passed.contains_key(id) && passed[id]
                    == available[id]
            &&& forall|id: BindingId| #[trigger]
                passed.contains_key(id) ==> available.contains_key(id) || (
                scope.ranges.contains_key(id) && passed[id] == scope.ranges[id])
            &&& holds_leaves(passed, from)
        },
        Err(_) => true,
    }
}

/// Passing the range of an input that is not a join.
proof fn lemma_passing(
    from: StoredFrom,
    scope: ScopeView,
    available: Ranges,
    state: WalkState,
    found: Found,
    r: Ranges,
)
    requires
        !(from is Join),
        alike(r, available),
        holds_leaves(scope.ranges, from),
        is_covered(found, state.objects),
    ensures
        ({
            let range = ranges::range_of(from)->0;
            let target = ranges::target_of(from, false)->0;
            from_walk_covers(
                from,
                scope,
                available,
                state,
                walk::passing(range, scope.ranges, available, state),
                references::adding(found, range, target, r),
            )
        }),
{
    let range = ranges::range_of(from)->0;
    let target = ranges::target_of(from, false)->0;
    assert(is_leaf(from, range, target));
    assert(plain(target) == target);
    let walk = walk::passing(range, scope.ranges, available, state);
    if walk is Ok {
        let passed = walk->Ok_0.1;
        assert(!r.contains_key(range)) by {
            if r.contains_key(range) {
                assert(available.contains_key(range));
            }
        }
        assert(passed == available.insert(range, scope.ranges[range]));
        let added = references::adding(found, range, target, r).ranges->Ok_0;
        assert forall|id: BindingId| #[trigger] added.contains_key(id) <==> passed.contains_key(
            id,
        ) by {
            if id != range {
                assert(r.contains_key(id) <==> available.contains_key(id));
            }
        }
        assert forall|id: BindingId| #[trigger] added.contains_key(id) implies plain(added[id])
            == plain(passed[id]) by {
            if id != range {
                assert(r.contains_key(id));
            }
        }
        assert forall|id: BindingId, leaf: RangeTarget| #[trigger]
            is_leaf(from, id, leaf) implies passed.contains_key(id) && plain(passed[id])
            == leaf by {}
    }
}

/// The condition of a join sees the ranges of both sides.
proof fn lemma_join_scope(left: StoredFrom, right: StoredFrom, depth: nat, passed: Ranges)
    requires
        walk::joined_ranges(left, right, depth) is Ok,
        holds_leaves(passed, left),
        holds_leaves(passed, right),
    ensures
        alike(
            passed,
            passed.union_prefer_right(walk::joined_ranges(left, right, depth)->Ok_0),
        ),
{
    let on_left = ranges::with_ranges(left, false, Map::empty(), depth)->Ok_0;
    let joined = walk::joined_ranges(left, right, depth)->Ok_0;
    lemma_ranges(left, false, Map::empty(), depth);
    lemma_ranges(right, false, on_left, depth);
    let all = passed.union_prefer_right(joined);
    assert forall|id: BindingId| joined.contains_key(id) implies #[trigger] passed.contains_key(id)
        && plain(passed[id]) == plain(joined[id]) by {
        if on_left.contains_key(id) {
            assert(is_leaf(left, id, plain(on_left[id])));
        } else {
            assert(is_leaf(right, id, plain(joined[id])));
        }
    }
    assert forall|id: BindingId| #[trigger] passed.contains_key(id) implies plain(passed[id])
        == plain(all[id]) by {
        if joined.contains_key(id) {
            assert(all[id] == joined[id]);
        }
    }
}

proof fn lemma_alike(a: Ranges, b: Ranges, c: Ranges)
    requires
        alike(a, b),
        alike(b, c),
    ensures
        alike(a, c),
{
    assert forall|id: BindingId| #[trigger] a.contains_key(id) <==> c.contains_key(id) by {
        assert(a.contains_key(id) <==> b.contains_key(id));
    }
    assert forall|id: BindingId| #[trigger] a.contains_key(id) implies plain(a[id]) == plain(
        c[id],
    ) by {
        assert(b.contains_key(id));
    }
}

proof fn lemma_from(
    from: StoredFrom,
    scope: ScopeView,
    available: Ranges,
    depth: nat,
    state: WalkState,
    r: Ranges,
)
    requires
        alike(r, available),
        holds_leaves(scope.ranges, from),
    ensures
        from_walk_covers(
            from,
            scope,
            available,
            state,
            walk::walk_from(from, scope, available, depth, state),
            references::from_references(from, r),
        ),
    decreases MAX_STORED_QUERY_DEPTH - depth, 2nat, 0nat,
{
    let walk = walk::walk_from(from, scope, available, depth, state);
    if walk is Ok {
        let counted = state.counted()->Ok_0;
        let preceding = ScopeView { ranges: available, ..scope };
        match from {
            StoredFrom::Table { table, .. } => {
                let met = counted.having_met_one(CatalogObjectId::Table(table));
                lemma_passing(from, scope, available, met, Found::nothing(), r);
            },
            StoredFrom::System { relation_oid, schema, .. } => {
                let met = counted.having_met_one(CatalogObjectId::SystemRelation(relation_oid));
                let found = Found::one(Reference::System { relation_oid, schema });
                lemma_passing(from, scope, available, met, found, r);
            },
            StoredFrom::Derived { query, lateral, .. } => {
                let parent = if lateral {
                    Some(preceding)
                } else {
                    None
                };
                let met = walk::walk_query(*query, parent, depth + 1, counted)->Ok_0;
                lemma_query(*query, parent, depth + 1, counted, Some(r));
                let found = references::query_references(*query, Some(r));
                lemma_passing(from, scope, available, met, found, r);
            },
            StoredFrom::TableFunction { function, args, .. } => {
                let start = counted.having_met_one(CatalogObjectId::Function(function));
                let rule = ItemRule::Placed(ExprPlacement::spec_table_function());
                let met = walk::walk_items(args@, rule, 0, preceding, depth + 1, start)->Ok_0;
                lemma_items(args@, rule, 0, preceding, depth + 1, start, r);
                lemma_args(from, 0, r, met.objects);
                let found = references::arg_references(from, 0, r);
                lemma_passing(from, scope, available, met, found, r);
            },
            StoredFrom::Join { left, right, join_type, condition } => {
                lemma_join(from, scope, available, depth, state, r);
            },
        }
    }
}

proof fn lemma_join(
    from: StoredFrom,
    scope: ScopeView,
    available: Ranges,
    depth: nat,
    state: WalkState,
    r: Ranges,
)
    requires
        from is Join,
        walk::walk_from(from, scope, available, depth, state) is Ok,
        alike(r, available),
        holds_leaves(scope.ranges, from),
    ensures
        from_walk_covers(
            from,
            scope,
            available,
            state,
            walk::walk_from(from, scope, available, depth, state),
            references::from_references(from, r),
        ),
    decreases MAX_STORED_QUERY_DEPTH - depth, 1nat, 0nat,
{
    let left = *from->Join_left;
    let right = *from->Join_right;
    let join_type = from->join_type;
    let condition = from->condition;
    let counted = state.counted()->Ok_0;
    let (after, passed) = walk::walk_from(from, scope, available, depth, state)->Ok_0;
    assert(holds_leaves(scope.ranges, left)) by {
        assert forall|id: BindingId, target: RangeTarget| #[trigger]
            is_leaf(left, id, target) implies scope.ranges.contains_key(id) && plain(
            scope.ranges[id],
        ) == target by {
            assert(is_leaf(from, id, target));
        }
    }
    assert(holds_leaves(scope.ranges, right)) by {
        assert forall|id: BindingId, target: RangeTarget| #[trigger]
            is_leaf(right, id, target) implies scope.ranges.contains_key(id) && plain(
            scope.ranges[id],
        ) == target by {
            assert(is_leaf(from, id, target));
        }
    }
    let (on_left, passed_left) = walk::walk_from(
        left,
        scope,
        available,
        depth + 1,
        counted,
    )->Ok_0;
    lemma_from(left, scope, available, depth + 1, counted, r);
    let found_left = references::from_references(left, r);
    let after_left = found_left.ranges->Ok_0;
    let (on_right, passed_right) = walk::walk_from(
        right,
        scope,
        passed_left,
        depth + 1,
        on_left,
    )->Ok_0;
    lemma_from(right, scope, passed_left, depth + 1, on_left, after_left);
    let found_right = references::from_references(right, after_left);
    let after_right = found_right.ranges->Ok_0;
    assert(passed == passed_right);
    assert(holds_leaves(passed, left)) by {
        assert forall|id: BindingId, target: RangeTarget| #[trigger]
            is_leaf(left, id, target) implies passed.contains_key(id) && plain(passed[id])
            == target by {
            assert(passed_left.contains_key(id));
        }
    }
    assert(holds_leaves(passed, from)) by {
        assert forall|id: BindingId, target: RangeTarget| #[trigger]
            is_leaf(from, id, target) implies passed.contains_key(id) && plain(passed[id])
            == target by {
            if !is_leaf(left, id, target) {
                assert(is_leaf(right, id, target));
            }
        }
    }
    let on_condition = match condition {
        Some(condition) => references::expr_references(condition, after_right),
        None => Found::nothing(),
    };
    let narrow = ScopeView { ranges: passed, ..scope };
    assert(walk::walk_join_condition(left, right, condition, narrow, depth + 1, on_right)
        == Walk::Ok(after));
    if let Some(condition) = condition {
        let joined = walk::joined_ranges(left, right, depth + 1)->Ok_0;
        lemma_join_scope(left, right, depth + 1, passed);
        let wide = ScopeView { ranges: passed.union_prefer_right(joined), ..scope };
        lemma_alike(after_right, passed, wide.ranges);
        lemma_expr(condition, wide, depth + 1, on_right, after_right);
    }
    lemma_recorded_in_more(found_left.references, on_left.objects, after.objects);
    lemma_recorded_in_more(found_right.references, on_right.objects, after.objects);
    lemma_behind_join(r, after_left, after_right, join_type);
    lemma_alike(
        references::behind_join(r, after_left, after_right, join_type),
        after_right,
        passed,
    );
    let first = Found { references: found_left.references, problem: None };
    let second = Found { references: found_right.references, problem: None };
    lemma_one_after_the_other(first, second, after.objects);
    lemma_one_after_the_other(first.followed_by(second), on_condition, after.objects);
    assert forall|id: BindingId| #[trigger] available.contains_key(id) implies passed.contains_key(
        id,
    ) && passed[id] == available[id] by {
        assert(passed_left.contains_key(id));
    }
    assert forall|id: BindingId| #[trigger] passed.contains_key(id) implies available.contains_key(
        id,
    ) || (scope.ranges.contains_key(id) && passed[id] == scope.ranges[id]) by {
        if passed_left.contains_key(id) {
            assert(passed[id] == passed_left[id]);
        }
    }
}

/// What the walk over the body of a query gives.
spec fn body_walk_covers(
    query: StoredQueryV1,
    scope: ScopeView,
    state: WalkState,
    walk: Walk,
    parent: Option<Ranges>,
) -> bool {
    walk matches Walk::Ok(after) ==> {
        let inputs = references::input_references(query, parent);
        &&& state.objects.subset_of(after.objects)
        &&& inputs.ranges is Ok
        &&& alike(inputs.ranges->Ok_0, scope.ranges)
        &&& all_recorded(inputs.references, after.objects)
        &&& items_covered(query.body_exprs(), 0, inputs.ranges->Ok_0, after.objects)
    }
}

/// The ranges that a walk has passed are all that there are.
proof fn lemma_input(
    from: StoredFrom,
    scope: ScopeView,
    depth: nat,
    state: WalkState,
)
    requires
        ranges::with_ranges(from, false, Map::empty(), depth) == Ok::<
            Ranges,
            crate::error::ErrorView,
        >(scope.ranges),
        walk::walk_from(from, scope, Map::empty(), depth, state) is Ok,
    ensures
        ({
            let after = walk::walk_from(from, scope, Map::empty(), depth, state)->Ok_0.0;
            let found = references::from_references(from, Map::empty());
            &&& state.objects.subset_of(after.objects)
            &&& found.ranges is Ok
            &&& alike(found.ranges->Ok_0, scope.ranges)
            &&& all_recorded(found.references, after.objects)
        }),
    decreases MAX_STORED_QUERY_DEPTH - depth, 3nat, 0nat,
{
    let nothing: Ranges = Map::empty();
    lemma_ranges(from, false, nothing, depth);
    lemma_from(from, scope, nothing, depth, state, nothing);
    let passed = walk::walk_from(from, scope, nothing, depth, state)->Ok_0.1;
    let own = references::from_references(from, nothing).ranges->Ok_0;
    assert(alike(passed, scope.ranges)) by {
        assert forall|id: BindingId| #[trigger] passed.contains_key(id)
            <==> scope.ranges.contains_key(id) by {
            if scope.ranges.contains_key(id) {
                assert(is_leaf(from, id, plain(scope.ranges[id])));
            }
        }
    }
    lemma_alike(own, passed, scope.ranges);
}

proof fn lemma_select(
    query: StoredQueryV1,
    select: StoredSelect,
    scope: ScopeView,
    depth: nat,
    state: WalkState,
    parent: Option<Ranges>,
)
    requires
        query.body == StoredQueryBody::Select(Box::new(select)),
        walk::own_ranges(query, depth + 1) == Ok::<Ranges, crate::error::ErrorView>(scope.ranges),
    ensures
        body_walk_covers(
            query,
            scope,
            state,
            walk::walk_select(select, scope, depth, state),
            parent,
        ),
    decreases MAX_STORED_QUERY_DEPTH - depth, 4nat, 0nat,
{
    let walk = walk::walk_select(select, scope, depth, state);
    if let Walk::Ok(after) = walk {
        let row_rule = ItemRule::Placed(ExprPlacement::spec_non_aggregate());
        let keys = stored_query::distinct_keys(select.distinct);
        let items = stored_query::item_exprs(select.columns@);
        let inputs = references::input_references(query, parent);
        let s1 = walk::walk_items(keys, row_rule, 0, scope, depth, state)->Ok_0;
        let s2 = walk::walk_input(select.from, scope, depth + 1, s1)->Ok_0;
        if let Some(from) = select.from {
            lemma_input(from, scope, depth + 1, s1);
        }
        let own = inputs.ranges->Ok_0;
        assert(alike(own, scope.ranges));
        let s3 = walk::walk_items(items, ItemRule::Free, 0, scope, depth, s2)->Ok_0;
        let s4 = walk::walk_condition(
            select.filter,
            "WHERE"@,
            ExprPlacement::spec_non_aggregate(),
            scope,
            depth,
            s3,
        )->Ok_0;
        let s5 = walk::walk_items(select.group_by@, row_rule, 0, scope, depth, s4)->Ok_0;
        lemma_items(keys, row_rule, 0, scope, depth, state, own);
        lemma_items(items, ItemRule::Free, 0, scope, depth, s2, own);
        lemma_condition(
            select.filter,
            "WHERE"@,
            ExprPlacement::spec_non_aggregate(),
            scope,
            depth,
            s3,
            own,
        );
        lemma_items(select.group_by@, row_rule, 0, scope, depth, s4, own);
        lemma_condition(
            select.having,
            "HAVING"@,
            ExprPlacement::spec_select_item(),
            scope,
            depth,
            s5,
            own,
        );
        lemma_recorded_in_more(inputs.references, s2.objects, after.objects);
        lemma_items_in_more(keys, 0, own, s1.objects, after.objects);
        lemma_items_in_more(items, 0, own, s3.objects, after.objects);
        let filter = stored_query::clause(select.filter);
        let having = stored_query::clause(select.having);
        lemma_items_in_more(filter, 0, own, s4.objects, after.objects);
        lemma_items_in_more(select.group_by@, 0, own, s5.objects, after.objects);
        lemma_joined(keys, items, own, after.objects);
        lemma_joined(keys + items, filter, own, after.objects);
        lemma_joined(keys + items + filter, select.group_by@, own, after.objects);
        lemma_joined(keys + items + filter + select.group_by@, having, own, after.objects);
    }
}

proof fn lemma_body(
    query: StoredQueryV1,
    scope: ScopeView,
    depth: nat,
    state: WalkState,
    parent: Option<Ranges>,
)
    requires
        walk::own_ranges(query, depth + 1) == Ok::<Ranges, crate::error::ErrorView>(scope.ranges),
    ensures
        body_walk_covers(query, scope, state, walk::walk_body(query, scope, depth, state), parent),
    decreases MAX_STORED_QUERY_DEPTH - depth, 5nat, 0nat,
{
    let walk = walk::walk_body(query, scope, depth, state);
    if let Walk::Ok(after) = walk {
        match query.body {
            StoredQueryBody::Select(select) => {
                lemma_select(query, *select, scope, depth, state, parent);
            },
            StoredQueryBody::Values(values) => {
                lemma_rows(values.rows@, &values.output_schema, 0, scope, depth, state, Map::empty());
                lemma_row_exprs(values.rows@, values.rows@.len(), Map::empty(), after.objects);
            },
            StoredQueryBody::SetOp(set_op) => {
                let middle = walk::walk_query(*set_op.left, None, depth + 1, state)->Ok_0;
                lemma_query(*set_op.left, None, depth + 1, state, parent);
                lemma_query(*set_op.right, None, depth + 1, middle, parent);
                let left = references::query_references(*set_op.left, parent);
                let right = references::query_references(*set_op.right, parent);
                lemma_recorded_in_more(left.references, middle.objects, after.objects);
                lemma_one_after_the_other(left, right, after.objects);
            },
        }
    }
}

proof fn lemma_query(
    query: StoredQueryV1,
    parent: Option<ScopeView>,
    depth: nat,
    state: WalkState,
    parent_ranges: Option<Ranges>,
)
    requires
        parent matches Some(scope) ==> parent_ranges is Some && alike(
            parent_ranges->0,
            scope.ranges,
        ),
    ensures
        walk::walk_query(query, parent, depth, state) matches Walk::Ok(after) ==> {
            &&& state.objects.subset_of(after.objects)
            &&& is_covered(references::query_references(query, parent_ranges), after.objects)
        },
    decreases MAX_STORED_QUERY_DEPTH - depth, 6nat, 0nat,
{
    let walk = walk::walk_query(query, parent, depth, state);
    if let Walk::Ok(after) = walk {
        let counted = state.counted()->Ok_0;
        let scope = walk::own_scope(query, walk::own_ranges(query, depth + 1)->Ok_0);
        let outer_scope = match parent {
            Some(parent) => parent,
            None => scope,
        };
        let s1 = walk::walk_body(query, scope, depth, counted)->Ok_0;
        lemma_body(query, scope, depth, counted, parent_ranges);
        let inputs = references::input_references(query, parent_ranges);
        let own = inputs.ranges->Ok_0;
        let keys = stored_query::key_exprs(query.order_by@);
        let key_rule = ItemRule::Placed(walk::order_placement(query));
        let s2 = walk::walk_items(keys, key_rule, 0, scope, depth, s1)->Ok_0;
        lemma_items(keys, key_rule, 0, scope, depth, s1, own);
        let outer = stored_query::outer_exprs(query.correlations@);
        let outer_rule = ItemRule::Correlated(&query.correlations);
        let outer_ranges = match parent_ranges {
            Some(ranges) => ranges,
            None => own,
        };
        let s3 = walk::walk_items(outer, outer_rule, 0, outer_scope, depth, s2)->Ok_0;
        if parent is Some {
            lemma_items(outer, outer_rule, 0, outer_scope, depth, s2, outer_ranges);
        } else {
            assert(outer.len() == 0);
        }
        assert(s2.objects.subset_of(s3.objects));
        assert(s3.objects.subset_of(after.objects));
        lemma_items_in_more(query.body_exprs(), 0, own, s1.objects, after.objects);
        lemma_items_in_more(keys, 0, own, s2.objects, after.objects);
        lemma_joined(query.body_exprs(), keys, own, after.objects);
        lemma_direct(query, 0, own, after.objects);
        lemma_items_in_more(outer, 0, outer_ranges, s3.objects, after.objects);
        lemma_outer(query, 0, outer_ranges, after.objects);
        lemma_recorded_in_more(inputs.references, s1.objects, after.objects);
        let direct = references::direct_references(query, 0, own);
        let correlated = references::outer_references(query, 0, outer_ranges);
        lemma_one_after_the_other(direct, correlated, after.objects);
        lemma_one_after_the_other(
            Found { references: inputs.references, problem: None },
            direct.followed_by(correlated),
            after.objects,
        );
    }
}

/// In a valid query every search for references comes to its end, and the catalog objects
/// on record for the query hold all that such a search reports: the table and the column of
/// each catalog column, and each system relation.
pub proof fn recorded_objects_cover_the_references(query: StoredQueryV1)
    requires
        query.walk() is Ok,
    ensures
        references::query_references(query, None).problem is None,
        all_recorded(
            references::query_references(query, None).references,
            query.walk()->Ok_0.objects,
        ),
{
    lemma_query(query, None, 0, WalkState::start(), None);
}

/// A reference to a column of a catalog table tells which column it is, the type and
/// nullability that the query has for it, and whether its rows may be missing.
pub proof fn references_tell_what_is_expected(
    expr: StoredQueryExpr,
    known: Ranges,
    found: Reference,
)
    requires
        expr is InputRef,
        expr->column is Catalog,
        references::own_reference(expr, known).references == seq![found],
    ensures
        known.contains_key(expr->range),
        known[expr->range] is Catalog,
        found is Column,
        found->table == known[expr->range]->table,
        found->column == expr->column->Catalog_0,
        found->data_type == expr.spec_data_type(),
        found->nullable == expr.spec_nullable(),
        found->null_extended == known[expr->range]->Catalog_null_extended,
{
    let own = references::own_reference(expr, known).references;
    assert(own[0] == found);
    assert(own.len() == 1);
}

} // verus!
