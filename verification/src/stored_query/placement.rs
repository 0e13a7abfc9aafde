//! Where aggregates, subqueries and output references may stand, and what
//! `DISTINCT` and `GROUP BY` ask of the expressions of a `SELECT`.

use vstd::prelude::*;

use crate::error::{self, DbError, ErrorView, Result};
use crate::stored_query::{
    self, StoredDistinct, StoredOrderBy, StoredQueryExpr, StoredQueryV1, StoredSelect,
};

verus! {

/// What may stand in an expression, by the clause that the expression belongs to.
#[derive(Clone, Copy, Debug, PartialEq, Eq, Structural)]
pub struct ExprPlacement {
    pub allow_aggregate: bool,
    pub allow_subquery: bool,
    pub allow_local_root: bool,
    pub require_local_root: bool,
}

impl ExprPlacement {
    pub open spec fn spec_select_item() -> Self {
        ExprPlacement {
            allow_aggregate: true,
            allow_subquery: true,
            allow_local_root: false,
            require_local_root: false,
        }
    }

    pub open spec fn spec_non_aggregate() -> Self {
        ExprPlacement {
            allow_aggregate: false,
            allow_subquery: true,
            allow_local_root: false,
            require_local_root: false,
        }
    }

    pub open spec fn spec_table_function() -> Self {
        ExprPlacement {
            allow_aggregate: false,
            allow_subquery: false,
            allow_local_root: false,
            require_local_root: false,
        }
    }

    pub open spec fn spec_order_by_output() -> Self {
        ExprPlacement {
            allow_aggregate: false,
            allow_subquery: false,
            allow_local_root: true,
            require_local_root: true,
        }
    }

    /// An item of a select list, a `HAVING` condition, or a sort key of a `SELECT`.
    pub fn select_item() -> (placement: Self)
        ensures
            placement == Self::spec_select_item(),
    {
        ExprPlacement {
            allow_aggregate: true,
            allow_subquery: true,
            allow_local_root: false,
            require_local_root: false,
        }
    }

    /// An expression over rows rather than groups, such as a `WHERE` condition.
    pub fn non_aggregate() -> (placement: Self)
        ensures
            placement == Self::spec_non_aggregate(),
    {
        ExprPlacement {
            allow_aggregate: false,
            allow_subquery: true,
            allow_local_root: false,
            require_local_root: false,
        }
    }

    /// An argument of a table function.
    pub fn table_function() -> (placement: Self)
        ensures
            placement == Self::spec_table_function(),
    {
        ExprPlacement {
            allow_aggregate: false,
            allow_subquery: false,
            allow_local_root: false,
            require_local_root: false,
        }
    }

    /// A sort key over the output of a query that is not a `SELECT`.
    pub fn order_by_output() -> (placement: Self)
        ensures
            placement == Self::spec_order_by_output(),
    {
        ExprPlacement {
            allow_aggregate: false,
            allow_subquery: false,
            allow_local_root: true,
            require_local_root: true,
        }
    }

    /// What may stand in the operands of an expression: an aggregate has no
    /// aggregates in its argument.
    pub open spec fn for_operands(self, expr: StoredQueryExpr) -> Self {
        if expr is Aggregate {
            ExprPlacement { allow_aggregate: false, ..self }
        } else {
            self
        }
    }

    fn operand_placement(self, expr: &StoredQueryExpr) -> (placement: Self)
        ensures
            placement == self.for_operands(*expr),
    {
        if matches!(expr, StoredQueryExpr::Aggregate { .. }) {
            ExprPlacement { allow_aggregate: false, ..self }
        } else {
            self
        }
    }
}

impl StoredQueryExpr {
    /// What is wrong with a node where it stands, its operands aside.
    pub open spec fn misplacement(self, placement: ExprPlacement, root: bool) -> Option<ErrorView> {
        if self is LocalRef && (!root || !placement.allow_local_root) {
            Some(
                error::internal_error(
                    "stored query local output reference appears outside output ORDER BY"@,
                ),
            )
        } else if self is Aggregate && !placement.allow_aggregate {
            Some(
                error::internal_error(
                    "stored query aggregate appears in a non-aggregate expression context"@,
                ),
            )
        } else if self.subquery() is Some && !placement.allow_subquery {
            Some(
                error::internal_error(
                    "stored query subquery appears in an unsupported expression context"@,
                ),
            )
        } else {
            None
        }
    }

    /// The first node of an expression that may not stand where it does.
    pub open spec fn placement_problem_at(
        self,
        placement: ExprPlacement,
        root: bool,
    ) -> Option<ErrorView>
        decreases self, self.operands().len() + 1,
    {
        if self.misplacement(placement, root) is Some {
            self.misplacement(placement, root)
        } else {
            self.operand_misplacement(placement.for_operands(self), 0)
        }
    }

    /// The first misplaced node among the operands from `start` on.
    pub open spec fn operand_misplacement(
        self,
        placement: ExprPlacement,
        start: nat,
    ) -> Option<ErrorView>
        decreases self, self.operands().len() - start,
    {
        if start >= self.operands().len() {
            None
        } else {
            proof {
                self.lemma_operand_is_smaller(start as int);
            }
            let first = self.operands()[start as int].placement_problem_at(placement, false);
            if first is Some {
                first
            } else {
                self.operand_misplacement(placement, start + 1)
            }
        }
    }

    /// What is wrong with an expression of the clause that `placement` describes.
    pub open spec fn placement_problem(self, placement: ExprPlacement) -> Option<ErrorView> {
        if placement.require_local_root && !(self is LocalRef) {
            Some(
                error::internal_error(
                    "stored query output ORDER BY is not a local output reference"@,
                ),
            )
        } else {
            self.placement_problem_at(placement, true)
        }
    }

    /// An aggregate stands somewhere in the expression, subqueries aside.
    pub open spec fn contains_aggregate(self) -> bool
        decreases self, self.operands().len() + 1,
    {
        self is Aggregate || self.operands_contain_aggregate(self.operands().len())
    }

    /// An aggregate stands in one of the first `count` operands.
    pub open spec fn operands_contain_aggregate(self, count: nat) -> bool
        decreases self, count,
    {
        if count == 0 || count > self.operands().len() {
            false
        } else {
            proof {
                self.lemma_operand_is_smaller(count - 1);
            }
            self.operands_contain_aggregate((count - 1) as nat)
                || self.operands()[count - 1].contains_aggregate()
        }
    }

    /// A subquery stands somewhere in the expression.
    pub open spec fn contains_subquery(self) -> bool
        decreases self, self.operands().len() + 1,
    {
        self.subquery() is Some || self.operands_contain_subquery(self.operands().len())
    }

    /// A subquery stands in one of the first `count` operands.
    pub open spec fn operands_contain_subquery(self, count: nat) -> bool
        decreases self, count,
    {
        if count == 0 || count > self.operands().len() {
            false
        } else {
            proof {
                self.lemma_operand_is_smaller(count - 1);
            }
            self.operands_contain_subquery((count - 1) as nat)
                || self.operands()[count - 1].contains_subquery()
        }
    }

    /// The expression uses a column of the current input, itself or through a
    /// correlation of a subquery.
    pub open spec fn uses_current_input(self) -> bool
        decreases self, self.operands().len() + 1,
    {
        ||| self is InputRef
        ||| self.operands_use_current_input(self.operands().len())
        ||| match self.subquery() {
            Some(query) => query.correlations_use_current_input(query.correlations@.len()),
            None => false,
        }
    }

    /// One of the first `count` operands uses a column of the current input.
    pub open spec fn operands_use_current_input(self, count: nat) -> bool
        decreases self, count,
    {
        if count == 0 || count > self.operands().len() {
            false
        } else {
            proof {
                self.lemma_operand_is_smaller(count - 1);
            }
            self.operands_use_current_input((count - 1) as nat)
                || self.operands()[count - 1].uses_current_input()
        }
    }

    /// The expression has one value for each group: it is an aggregate, it uses no
    /// column of the input, it is a grouping key, or it is made of such expressions.
    pub open spec fn is_grouped(self, group_by: Seq<StoredQueryExpr>) -> bool
        decreases self, self.operands().len() + 1,
    {
        if self is Aggregate {
            true
        } else if let Some(query) = self.subquery() {
            self.operands_are_grouped(group_by, self.operands().len())
                && query.correlations_are_grouped(group_by, query.correlations@.len())
        } else if self.contains_aggregate() {
            self.operands_are_grouped(group_by, self.operands().len())
        } else {
            !self.uses_current_input() || occurs_in(self, group_by)
        }
    }

    /// The first `count` operands have one value for each group.
    pub open spec fn operands_are_grouped(self, group_by: Seq<StoredQueryExpr>, count: nat) -> bool
        decreases self, count,
    {
        if count == 0 || count > self.operands().len() {
            true
        } else {
            proof {
                self.lemma_operand_is_smaller(count - 1);
            }
            self.operands_are_grouped(group_by, (count - 1) as nat)
                && self.operands()[count - 1].is_grouped(group_by)
        }
    }
}

impl StoredQueryV1 {
    /// One of the first `count` correlations uses a column of the current input.
    pub open spec fn correlations_use_current_input(self, count: nat) -> bool
        decreases self, count,
    {
        if count == 0 || count > self.correlations@.len() {
            false
        } else {
            proof {
                self.lemma_outer_expr_is_smaller(count - 1);
            }
            self.correlations_use_current_input((count - 1) as nat)
                || self.correlations@[count - 1].outer.uses_current_input()
        }
    }

    /// The first `count` correlations have one value for each group.
    pub open spec fn correlations_are_grouped(
        self,
        group_by: Seq<StoredQueryExpr>,
        count: nat,
    ) -> bool
        decreases self, count,
    {
        if count == 0 || count > self.correlations@.len() {
            true
        } else {
            proof {
                self.lemma_outer_expr_is_smaller(count - 1);
            }
            self.correlations_are_grouped(group_by, (count - 1) as nat)
                && self.correlations@[count - 1].outer.is_grouped(group_by)
        }
    }
}

/// An expression equal to `expr` stands in the list.
pub open spec fn occurs_in(expr: StoredQueryExpr, list: Seq<StoredQueryExpr>) -> bool {
    exists|i: int| 0 <= i < list.len() && (#[trigger] list[i]).same(expr)
}

pub(crate) fn does_occur_in(expr: &StoredQueryExpr, list: &Vec<StoredQueryExpr>) -> (occurs: bool)
    ensures
        occurs == occurs_in(*expr, list@),
{
    let mut i: usize = 0;
    while i < list.len()
        invariant
            i <= list@.len(),
            forall|j: int| 0 <= j < i ==> !(#[trigger] list@[j]).same(*expr),
        decreases list@.len() - i,
    {
        if list[i].is_same(expr) {
            assert(list@[i as int].same(*expr));
            return true;
        }
        i += 1;
    }
    false
}

pub(crate) fn validate_expr_placement(expr: &StoredQueryExpr, placement: ExprPlacement) -> (result:
    Result<()>)
    ensures
        match result {
            Ok(_) => expr.placement_problem(placement) is None,
            Err(error) => expr.placement_problem(placement) == Some(error@),
        },
{
    if placement.require_local_root && !matches!(expr, StoredQueryExpr::LocalRef { .. }) {
        return Err(
            DbError::internal("stored query output ORDER BY is not a local output reference"),
        );
    }
    validate_expr_placement_inner(expr, placement, true)
}

fn validate_expr_placement_inner(
    expr: &StoredQueryExpr,
    placement: ExprPlacement,
    root: bool,
) -> (result: Result<()>)
    ensures
        match result {
            Ok(_) => expr.placement_problem_at(placement, root) is None,
            Err(error) => expr.placement_problem_at(placement, root) == Some(error@),
        },
    decreases *expr,
{
    if matches!(expr, StoredQueryExpr::LocalRef { .. }) && (!root || !placement.allow_local_root) {
        return Err(
            DbError::internal(
                "stored query local output reference appears outside output ORDER BY",
            ),
        );
    }
    if matches!(expr, StoredQueryExpr::Aggregate { .. }) && !placement.allow_aggregate {
        return Err(
            DbError::internal(
                "stored query aggregate appears in a non-aggregate expression context",
            ),
        );
    }
    if expr.subquery_in().is_some() && !placement.allow_subquery {
        return Err(
            DbError::internal("stored query subquery appears in an unsupported expression context"),
        );
    }
    let inner: ExprPlacement = placement.operand_placement(expr);
    let list: Vec<&StoredQueryExpr> = expr.operand_list();
    let mut i: usize = 0;
    while i < list.len()
        invariant
            i <= list@.len(),
            stored_query::refers_to(list@, expr.operands()),
            inner == placement.for_operands(*expr),
            expr.misplacement(placement, root) is None,
            expr.operand_misplacement(inner, 0) == expr.operand_misplacement(inner, i as nat),
        decreases list@.len() - i,
    {
        proof {
            expr.lemma_operand_is_smaller(i as int);
        }
        if let Err(error) = validate_expr_placement_inner(list[i], inner, false) {
            return Err(error);
        }
        i += 1;
    }
    Ok(())
}

/// Whether an aggregate, and whether a subquery, stands in an expression.
pub(crate) fn expr_features(expr: &StoredQueryExpr) -> (features: (bool, bool))
    ensures
        features.0 == expr.contains_aggregate(),
        features.1 == expr.contains_subquery(),
    decreases *expr,
{
    let mut aggregate: bool = false;
    let mut subquery: bool = false;
    let list: Vec<&StoredQueryExpr> = expr.operand_list();
    let mut i: usize = 0;
    while i < list.len()
        invariant
            i <= list@.len(),
            stored_query::refers_to(list@, expr.operands()),
            aggregate == expr.operands_contain_aggregate(i as nat),
            subquery == expr.operands_contain_subquery(i as nat),
        decreases list@.len() - i,
    {
        proof {
            expr.lemma_operand_is_smaller(i as int);
        }
        let (inner_aggregate, inner_subquery) = expr_features(list[i]);
        aggregate = aggregate || inner_aggregate;
        subquery = subquery || inner_subquery;
        i += 1;
    }
    (
        aggregate || matches!(expr, StoredQueryExpr::Aggregate { .. }),
        subquery || expr.subquery_in().is_some(),
    )
}

pub(crate) fn expr_contains_aggregate(expr: &StoredQueryExpr) -> (contains: bool)
    ensures
        contains == expr.contains_aggregate(),
{
    expr_features(expr).0
}

pub(crate) fn expr_contains_subquery(expr: &StoredQueryExpr) -> (contains: bool)
    ensures
        contains == expr.contains_subquery(),
{
    expr_features(expr).1
}

fn references_current_input(expr: &StoredQueryExpr) -> (references: bool)
    ensures
        references == expr.uses_current_input(),
    decreases *expr, expr.operands().len() + 1,
{
    if matches!(expr, StoredQueryExpr::InputRef { .. }) {
        return true;
    }
    let mut found: bool = false;
    let list: Vec<&StoredQueryExpr> = expr.operand_list();
    let mut i: usize = 0;
    while i < list.len()
        invariant
            i <= list@.len(),
            stored_query::refers_to(list@, expr.operands()),
            found == expr.operands_use_current_input(i as nat),
        decreases list@.len() - i,
    {
        proof {
            expr.lemma_operand_is_smaller(i as int);
        }
        found = found || references_current_input(list[i]);
        i += 1;
    }
    if found {
        return true;
    }
    match expr.subquery_in() {
        Some(query) => correlations_reference_current_input(query),
        None => false,
    }
}

fn correlations_reference_current_input(query: &StoredQueryV1) -> (references: bool)
    ensures
        references == query.correlations_use_current_input(query.correlations@.len()),
    decreases *query, query.correlations@.len() + 1,
{
    let mut found: bool = false;
    let mut i: usize = 0;
    while i < query.correlations.len()
        invariant
            i <= query.correlations@.len(),
            found == query.correlations_use_current_input(i as nat),
        decreases query.correlations@.len() - i,
    {
        proof {
            query.lemma_outer_expr_is_smaller(i as int);
        }
        found = found || references_current_input(&query.correlations[i].outer);
        i += 1;
    }
    found
}

proof fn lemma_ungrouped_operand(
    expr: StoredQueryExpr,
    group_by: Seq<StoredQueryExpr>,
    a: nat,
    b: nat,
)
    requires
        a <= b <= expr.operands().len(),
        !expr.operands_are_grouped(group_by, a),
    ensures
        !expr.operands_are_grouped(group_by, b),
    decreases b,
{
    if a < b {
        lemma_ungrouped_operand(expr, group_by, a, (b - 1) as nat);
    }
}

proof fn lemma_ungrouped_correlation(
    query: StoredQueryV1,
    group_by: Seq<StoredQueryExpr>,
    a: nat,
    b: nat,
)
    requires
        a <= b <= query.correlations@.len(),
        !query.correlations_are_grouped(group_by, a),
    ensures
        !query.correlations_are_grouped(group_by, b),
    decreases b,
{
    if a < b {
        lemma_ungrouped_correlation(query, group_by, a, (b - 1) as nat);
    }
}

/// Whether an expression has one value for each group.
fn is_grouped_expr(expr: &StoredQueryExpr, group_by: &Vec<StoredQueryExpr>) -> (grouped: bool)
    ensures
        grouped == expr.is_grouped(group_by@),
    decreases *expr, expr.operands().len() + 1,
{
    if matches!(expr, StoredQueryExpr::Aggregate { .. }) {
        return true;
    }
    let subquery: Option<&StoredQueryV1> = expr.subquery_in();
    if subquery.is_none() && !expr_contains_aggregate(expr) {
        return !references_current_input(expr) || does_occur_in(expr, group_by);
    }
    let list: Vec<&StoredQueryExpr> = expr.operand_list();
    let mut i: usize = 0;
    while i < list.len()
        invariant
            i <= list@.len(),
            stored_query::refers_to(list@, expr.operands()),
            expr.operands_are_grouped(group_by@, i as nat),
            !(*expr is Aggregate),
            expr.subquery() is Some || expr.contains_aggregate(),
        decreases list@.len() - i,
    {
        proof {
            expr.lemma_operand_is_smaller(i as int);
        }
        if !is_grouped_expr(list[i], group_by) {
            proof {
                lemma_ungrouped_operand(
                    *expr,
                    group_by@,
                    (i + 1) as nat,
                    expr.operands().len(),
                );
            }
            return false;
        }
        i += 1;
    }
    match subquery {
        Some(query) => are_grouped_correlations(query, group_by),
        None => true,
    }
}

fn are_grouped_correlations(query: &StoredQueryV1, group_by: &Vec<StoredQueryExpr>) -> (grouped:
    bool)
    ensures
        grouped == query.correlations_are_grouped(group_by@, query.correlations@.len()),
    decreases *query, query.correlations@.len() + 1,
{
    let mut i: usize = 0;
    while i < query.correlations.len()
        invariant
            i <= query.correlations@.len(),
            query.correlations_are_grouped(group_by@, i as nat),
        decreases query.correlations@.len() - i,
    {
        proof {
            query.lemma_outer_expr_is_smaller(i as int);
        }
        if !is_grouped_expr(&query.correlations[i].outer, group_by) {
            proof {
                lemma_ungrouped_correlation(
                    *query,
                    group_by@,
                    (i + 1) as nat,
                    query.correlations@.len(),
                );
            }
            return false;
        }
        i += 1;
    }
    true
}

/// Every expression of the list has one value for each group.
pub open spec fn all_grouped(list: Seq<StoredQueryExpr>, group_by: Seq<StoredQueryExpr>) -> bool {
    forall|i: int| 0 <= i < list.len() ==> (#[trigger] list[i]).is_grouped(group_by)
}

fn are_all_grouped(
    list: &Vec<&StoredQueryExpr>,
    Ghost(exprs): Ghost<Seq<StoredQueryExpr>>,
    group_by: &Vec<StoredQueryExpr>,
) -> (grouped: bool)
    requires
        stored_query::refers_to(list@, exprs),
    ensures
        grouped == all_grouped(exprs, group_by@),
{
    let mut i: usize = 0;
    while i < list.len()
        invariant
            i <= list@.len(),
            stored_query::refers_to(list@, exprs),
            forall|j: int| 0 <= j < i ==> (#[trigger] exprs[j]).is_grouped(group_by@),
        decreases list@.len() - i,
    {
        if !is_grouped_expr(list[i], group_by) {
            assert(!exprs[i as int].is_grouped(group_by@));
            return false;
        }
        i += 1;
    }
    true
}

/// Some expression of the list contains an aggregate.
pub open spec fn any_aggregate(list: Seq<StoredQueryExpr>) -> bool {
    exists|i: int| 0 <= i < list.len() && (#[trigger] list[i]).contains_aggregate()
}

fn is_any_aggregate(
    list: &Vec<&StoredQueryExpr>,
    Ghost(exprs): Ghost<Seq<StoredQueryExpr>>,
) -> (found: bool)
    requires
        stored_query::refers_to(list@, exprs),
    ensures
        found == any_aggregate(exprs),
{
    let mut i: usize = 0;
    while i < list.len()
        invariant
            i <= list@.len(),
            stored_query::refers_to(list@, exprs),
            forall|j: int| 0 <= j < i ==> !(#[trigger] exprs[j]).contains_aggregate(),
        decreases list@.len() - i,
    {
        if expr_contains_aggregate(list[i]) {
            assert(exprs[i as int].contains_aggregate());
            return true;
        }
        i += 1;
    }
    false
}

/// A sort key stands in the select list.
pub open spec fn key_is_selected(select: StoredSelect, key: StoredOrderBy) -> bool {
    occurs_in(key.expr, stored_query::item_exprs(select.columns@))
}

/// The first sort key, from `start` on, that is none of the `DISTINCT ON` keys.
pub open spec fn first_other_key(
    keys: Seq<StoredQueryExpr>,
    order_by: Seq<StoredOrderBy>,
    start: nat,
) -> nat
    decreases order_by.len() - start,
{
    if start >= order_by.len() || !occurs_in(order_by[start as int].expr, keys) {
        start
    } else {
        first_other_key(keys, order_by, start + 1)
    }
}

/// Every `DISTINCT ON` key is among the sort keys before the first other one.
pub open spec fn distinct_keys_lead(
    keys: Seq<StoredQueryExpr>,
    order_by: Seq<StoredOrderBy>,
) -> bool {
    let leading = first_other_key(keys, order_by, 0);
    leading < order_by.len() ==> forall|k: int|
        0 <= k < keys.len() ==> exists|i: int|
            0 <= i < leading && (#[trigger] keys[k]).same((#[trigger] order_by[i]).expr)
}

/// Expressions are computed for groups rather than rows.
pub open spec fn is_aggregate_context(select: StoredSelect, order_by: Seq<StoredOrderBy>) -> bool {
    ||| select.group_by@.len() > 0
    ||| any_aggregate(stored_query::item_exprs(select.columns@))
    ||| select.having is Some
    ||| any_aggregate(stored_query::key_exprs(order_by))
    ||| any_aggregate(stored_query::distinct_keys(select.distinct))
}

/// What is wrong with the grouping and the duplicate elimination of a `SELECT`.
pub open spec fn select_problem(
    select: StoredSelect,
    order_by: Seq<StoredOrderBy>,
) -> Option<ErrorView> {
    if select.distinct == Some(StoredDistinct::All) && exists|i: int|
        0 <= i < order_by.len() && !key_is_selected(select, #[trigger] order_by[i]) {
        Some(
            error::internal_error(
                "stored SELECT DISTINCT orders by an expression outside its select list"@,
            ),
        )
    } else if select.distinct is Some && select.distinct->0 is On && !distinct_keys_lead(
        stored_query::distinct_keys(select.distinct),
        order_by,
    ) {
        Some(
            error::internal_error(
                "stored SELECT DISTINCT ON keys do not match leading ORDER BY expressions"@,
            ),
        )
    } else if is_aggregate_context(select, order_by) && !{
        &&& all_grouped(stored_query::item_exprs(select.columns@), select.group_by@)
        &&& all_grouped(stored_query::clause(select.having), select.group_by@)
        &&& all_grouped(stored_query::key_exprs(order_by), select.group_by@)
        &&& all_grouped(stored_query::distinct_keys(select.distinct), select.group_by@)
    } {
        Some(
            error::internal_error(
                "stored non-aggregate expression does not appear exactly in GROUP BY"@,
            ),
        )
    } else {
        None
    }
}

fn is_key_selected(select: &StoredSelect, key: &StoredOrderBy) -> (selected: bool)
    ensures
        selected == key_is_selected(*select, *key),
{
    let ghost exprs = stored_query::item_exprs(select.columns@);
    let mut i: usize = 0;
    while i < select.columns.len()
        invariant
            i <= select.columns@.len(),
            exprs == stored_query::item_exprs(select.columns@),
            forall|j: int| 0 <= j < i ==> !(#[trigger] exprs[j]).same(key.expr),
        decreases select.columns@.len() - i,
    {
        if select.columns[i].expr.is_same(&key.expr) {
            assert(exprs[i as int].same(key.expr));
            return true;
        }
        i += 1;
    }
    false
}

fn do_distinct_keys_lead(keys: &Vec<StoredQueryExpr>, order_by: &[StoredOrderBy]) -> (lead: bool)
    ensures
        lead == distinct_keys_lead(keys@, order_by@),
{
    let mut leading: usize = 0;
    while leading < order_by.len() && does_occur_in(&order_by[leading].expr, keys)
        invariant
            leading <= order_by@.len(),
            first_other_key(keys@, order_by@, 0) == first_other_key(
                keys@,
                order_by@,
                leading as nat,
            ),
        decreases order_by@.len() - leading,
    {
        leading += 1;
    }
    if leading == order_by.len() {
        return true;
    }
    let mut k: usize = 0;
    while k < keys.len()
        invariant
            k <= keys@.len(),
            leading < order_by@.len(),
            leading == first_other_key(keys@, order_by@, 0),
            forall|m: int|
                0 <= m < k ==> exists|i: int|
                    0 <= i < leading && (#[trigger] keys@[m]).same((#[trigger] order_by@[i]).expr),
        decreases keys@.len() - k,
    {
        let mut i: usize = 0;
        let mut found: bool = false;
        while i < leading && !found
            invariant
                i <= leading,
                leading < order_by@.len(),
                k < keys@.len(),
                !found ==> forall|j: int|
                    0 <= j < i ==> !keys@[k as int].same((#[trigger] order_by@[j]).expr),
                found ==> exists|j: int|
                    0 <= j < leading && keys@[k as int].same((#[trigger] order_by@[j]).expr),
            decreases leading - i + if found { 0int } else { 1int },
        {
            if keys[k].is_same(&order_by[i].expr) {
                assert(keys@[k as int].same(order_by@[i as int].expr));
                found = true;
            } else {
                i += 1;
            }
        }
        if !found {
            assert(!exists|j: int|
                0 <= j < leading && keys@[k as int].same((#[trigger] order_by@[j]).expr));
            return false;
        }
        k += 1;
    }
    true
}

/// Checks the grouping and the duplicate elimination of a `SELECT`.
pub fn validate_select_semantics(select: &StoredSelect, order_by: &[StoredOrderBy]) -> (result:
    Result<()>)
    ensures
        match result {
            Ok(_) => select_problem(*select, order_by@) is None,
            Err(error) => select_problem(*select, order_by@) == Some(error@),
        },
{
    let ghost items = stored_query::item_exprs(select.columns@);
    let ghost sort_keys = stored_query::key_exprs(order_by@);
    let ghost distinct = stored_query::distinct_keys(select.distinct);
    let mut columns: Vec<&StoredQueryExpr> = Vec::new();
    stored_query::push_items(&mut columns, &select.columns);
    assert(stored_query::refers_to(columns@, items)) by {
        assert forall|j: int| 0 <= j < columns@.len() implies *(#[trigger] columns@[j])
            == items[j] by {
            assert(*columns@[0 + j] == select.columns@[j].expr);
        }
    }
    let mut orders: Vec<&StoredQueryExpr> = Vec::new();
    stored_query::push_keys(&mut orders, order_by);
    assert(stored_query::refers_to(orders@, sort_keys)) by {
        assert forall|j: int| 0 <= j < orders@.len() implies *(#[trigger] orders@[j])
            == sort_keys[j] by {
            assert(*orders@[0 + j] == order_by@[j].expr);
        }
    }
    let mut keys: Vec<&StoredQueryExpr> = Vec::new();
    match &select.distinct {
        Some(StoredDistinct::All) => {
            let mut i: usize = 0;
            while i < order_by.len()
                invariant
                    i <= order_by@.len(),
                    select.distinct == Some(StoredDistinct::All),
                    forall|j: int|
                        0 <= j < i ==> key_is_selected(*select, #[trigger] order_by@[j]),
                decreases order_by@.len() - i,
            {
                if !is_key_selected(select, &order_by[i]) {
                    assert(!key_is_selected(*select, order_by@[i as int]));
                    return Err(
                        DbError::internal(
                            "stored SELECT DISTINCT orders by an expression outside its select list",
                        ),
                    );
                }
                i += 1;
            }
        },
        Some(StoredDistinct::On(on)) => {
            if !do_distinct_keys_lead(on, order_by) {
                return Err(
                    DbError::internal(
                        "stored SELECT DISTINCT ON keys do not match leading ORDER BY expressions",
                    ),
                );
            }
            stored_query::push_all(&mut keys, on);
            assert forall|j: int| 0 <= j < keys@.len() implies *(#[trigger] keys@[j])
                == distinct[j] by {
                assert(*keys@[0 + j] == on@[j]);
            }
        },
        None => {},
    }
    assert(stored_query::refers_to(keys@, distinct));
    let aggregate_context: bool = select.group_by.len() > 0 || is_any_aggregate(
        &columns,
        Ghost(items),
    ) || select.having.is_some() || is_any_aggregate(&orders, Ghost(sort_keys))
        || is_any_aggregate(&keys, Ghost(distinct));
    if !aggregate_context {
        return Ok(());
    }
    let mut having: Vec<&StoredQueryExpr> = Vec::new();
    if let Some(expr) = &select.having {
        having.push(expr);
    }
    let grouped: bool = are_all_grouped(&columns, Ghost(items), &select.group_by)
        && are_all_grouped(
        &having,
        Ghost(stored_query::clause(select.having)),
        &select.group_by,
    ) && are_all_grouped(&orders, Ghost(sort_keys), &select.group_by) && are_all_grouped(
        &keys,
        Ghost(distinct),
        &select.group_by,
    );
    if !grouped {
        return Err(
            DbError::internal("stored non-aggregate expression does not appear exactly in GROUP BY"),
        );
    }
    Ok(())
}

} // verus!
