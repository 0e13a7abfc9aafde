//! The catalog columns and system relations that a query refers to.

use vstd::prelude::*;

use crate::error::{self, DbError, ErrorView, Result};
use crate::ids::{BindingId, ColumnObjectId, TableId};
use crate::schema::DataType;
use crate::stored_query::ranges::{
    self, RangeTable, RangeTarget, Ranges, StoredRangeTarget,
};
use crate::stored_query::{
    self, StoredColumnReference, StoredFrom, StoredJoinType, StoredQueryBody, StoredQueryExpr,
    StoredQueryV1, StoredRangeColumn,
};

verus! {

/// Something of the catalog that a query refers to.
pub ghost enum Reference {
    Column {
        table: TableId,
        column: ColumnObjectId,
        data_type: DataType,
        nullable: bool,
        null_extended: bool,
    },
    System { relation_oid: i64, schema: Vec<StoredRangeColumn> },
}

/// Something of the catalog that a query refers to: a column of a table, with the
/// type that the query has for it, or a system relation with its columns.
#[derive(Clone, Copy)]
pub enum StoredReference<'a> {
    Column {
        table: TableId,
        column: ColumnObjectId,
        data_type: &'a DataType,
        nullable: bool,
        null_extended: bool,
    },
    System { relation_oid: i64, schema: &'a Vec<StoredRangeColumn> },
}

impl<'a> View for StoredReference<'a> {
    type V = Reference;

    open spec fn view(&self) -> Reference {
        match *self {
            StoredReference::Column { table, column, data_type, nullable, null_extended } =>
                Reference::Column {
                table,
                column,
                data_type: *data_type,
                nullable,
                null_extended,
            },
            StoredReference::System { relation_oid, schema } => Reference::System {
                relation_oid,
                schema: *schema,
            },
        }
    }
}

/// The references of a list.
pub open spec fn views(list: Seq<StoredReference<'_>>) -> Seq<Reference> {
    Seq::new(list.len(), |i: int| list[i]@)
}

/// The references that were met, in order, and the problem that ended the search.
pub ghost struct Found {
    pub references: Seq<Reference>,
    pub problem: Option<ErrorView>,
}

/// What a search through a `FROM` clause gives: also the ranges behind it.
pub ghost struct FoundFrom {
    pub references: Seq<Reference>,
    pub ranges: core::result::Result<Ranges, ErrorView>,
}

impl Found {
    pub open spec fn nothing() -> Found {
        Found { references: Seq::empty(), problem: None }
    }

    /// One reference.
    pub open spec fn one(reference: Reference) -> Found {
        Found { references: seq![reference], problem: None }
    }

    /// No reference but a problem.
    pub open spec fn failed(message: Seq<char>) -> Found {
        Found { references: Seq::empty(), problem: Some(error::internal_error(message)) }
    }

    /// A search followed by another, which a problem prevents.
    pub open spec fn followed_by(self, next: Found) -> Found {
        if self.problem is Some {
            self
        } else {
            Found { references: self.references + next.references, problem: next.problem }
        }
    }
}

/// What the node itself refers to.
pub open spec fn own_reference(expr: StoredQueryExpr, ranges: Ranges) -> Found {
    match expr {
        StoredQueryExpr::InputRef {
            range,
            column: StoredColumnReference::Catalog(column),
            data_type,
            nullable,
        } => match ranges[range] {
            RangeTarget::Catalog { table, null_extended } if ranges.contains_key(range) => Found::one(
                Reference::Column { table, column, data_type, nullable, null_extended },
            ),
            _ => Found::failed("stored query catalog column has invalid range"@),
        },
        _ => Found::nothing(),
    }
}

/// What an expression refers to.
pub open spec fn expr_references(expr: StoredQueryExpr, ranges: Ranges) -> Found
    decreases expr, 2nat, 0nat,
{
    own_reference(expr, ranges).followed_by(operand_references(expr, 0, ranges)).followed_by(
        match expr.subquery() {
            Some(query) => query_references(query, Some(ranges)),
            None => Found::nothing(),
        },
    )
}

/// What the operands from `start` on refer to.
pub open spec fn operand_references(expr: StoredQueryExpr, start: nat, ranges: Ranges) -> Found
    decreases expr, 1nat, expr.operands().len() - start,
{
    if start >= expr.operands().len() {
        Found::nothing()
    } else {
        proof {
            expr.lemma_operand_is_smaller(start as int);
        }
        expr_references(expr.operands()[start as int], ranges).followed_by(
            operand_references(expr, start + 1, ranges),
        )
    }
}

/// What the arguments of a table function from `start` on refer to.
pub open spec fn arg_references(from: StoredFrom, start: nat, ranges: Ranges) -> Found
    decreases from, 1nat, from.function_args().len() - start,
{
    if start >= from.function_args().len() {
        Found::nothing()
    } else {
        proof {
            from.lemma_arg_is_smaller(start as int);
        }
        expr_references(from.function_args()[start as int], ranges).followed_by(
            arg_references(from, start + 1, ranges),
        )
    }
}

/// What the expressions of a query from `start` on refer to.
pub open spec fn direct_references(query: StoredQueryV1, start: nat, ranges: Ranges) -> Found
    decreases query, 1nat, query.direct_exprs().len() - start,
{
    if start >= query.direct_exprs().len() {
        Found::nothing()
    } else {
        proof {
            query.lemma_direct_expr_is_smaller(start as int);
        }
        expr_references(query.direct_exprs()[start as int], ranges).followed_by(
            direct_references(query, start + 1, ranges),
        )
    }
}

/// What the outer columns of a query from `start` on refer to.
pub open spec fn outer_references(query: StoredQueryV1, start: nat, ranges: Ranges) -> Found
    decreases query, 1nat, query.correlations@.len() - start,
{
    if start >= query.correlations@.len() {
        Found::nothing()
    } else {
        proof {
            query.lemma_outer_expr_is_smaller(start as int);
        }
        expr_references(query.correlations@[start as int].outer, ranges).followed_by(
            outer_references(query, start + 1, ranges),
        )
    }
}

/// Ends the search through an input by adding its range.
pub open spec fn adding(
    found: Found,
    range: BindingId,
    target: RangeTarget,
    ranges: Ranges,
) -> FoundFrom {
    FoundFrom {
        references: found.references,
        ranges: if found.problem is Some {
            Err(found.problem->0)
        } else if ranges.contains_key(range) {
            Err(error::internal_error("stored query contains duplicate range id"@))
        } else {
            Ok(ranges.insert(range, target))
        },
    }
}

/// The ranges behind a join: those of an optional side are extended with NULLs.
pub open spec fn behind_join(
    before: Ranges,
    after_left: Ranges,
    after_right: Ranges,
    join_type: StoredJoinType,
) -> Ranges {
    let left_marked = if ranges::extends_left(join_type) {
        ranges::extended_between(after_right, after_left.dom(), before.dom())
    } else {
        after_right
    };
    if ranges::extends_right(join_type) {
        ranges::extended_between(left_marked, after_right.dom(), after_left.dom())
    } else {
        left_marked
    }
}

/// What a `FROM` clause refers to, and the ranges behind it.
pub open spec fn from_references(from: StoredFrom, ranges: Ranges) -> FoundFrom
    decreases from, 2nat, 0nat,
{
    match from {
        StoredFrom::Table { table, range, .. } => adding(
            Found::nothing(),
            range,
            RangeTarget::Catalog { table, null_extended: false },
            ranges,
        ),
        StoredFrom::System { relation_oid, range, schema, .. } => adding(
            Found::one(Reference::System { relation_oid, schema }),
            range,
            RangeTarget::Position { columns: schema@, null_extended: false },
            ranges,
        ),
        StoredFrom::Derived { query, range, schema, .. } => adding(
            query_references(*query, Some(ranges)),
            range,
            RangeTarget::Position { columns: schema@, null_extended: false },
            ranges,
        ),
        StoredFrom::TableFunction { range, schema, .. } => adding(
            arg_references(from, 0, ranges),
            range,
            RangeTarget::Position { columns: schema@, null_extended: false },
            ranges,
        ),
        StoredFrom::Join { left, right, join_type, condition } => {
            let on_left = from_references(*left, ranges);
            match on_left.ranges {
                Err(_) => on_left,
                Ok(after_left) => {
                    let on_right = from_references(*right, after_left);
                    let sides = on_left.references + on_right.references;
                    match on_right.ranges {
                        Err(error) => FoundFrom { references: sides, ranges: Err(error) },
                        Ok(after_right) => {
                            let on_condition = match condition {
                                Some(condition) => expr_references(condition, after_right),
                                None => Found::nothing(),
                            };
                            FoundFrom {
                                references: sides + on_condition.references,
                                ranges: if on_condition.problem is Some {
                                    Err(on_condition.problem->0)
                                } else {
                                    Ok(behind_join(ranges, after_left, after_right, join_type))
                                },
                            }
                        },
                    }
                },
            }
        },
    }
}

/// What the inputs and the arms of a query refer to, and the ranges of its inputs.
pub open spec fn input_references(query: StoredQueryV1, parent: Option<Ranges>) -> FoundFrom
    decreases query, 2nat, 0nat,
{
    match query.body {
        StoredQueryBody::Select(select) => match select.from {
            Some(from) => from_references(from, Map::empty()),
            None => FoundFrom { references: Seq::empty(), ranges: Ok(Map::empty()) },
        },
        StoredQueryBody::Values(_) => FoundFrom {
            references: Seq::empty(),
            ranges: Ok(Map::empty()),
        },
        StoredQueryBody::SetOp(set_op) => {
            let arms = query_references(*set_op.left, parent).followed_by(
                query_references(*set_op.right, parent),
            );
            FoundFrom {
                references: arms.references,
                ranges: match arms.problem {
                    Some(problem) => Err(problem),
                    None => Ok(Map::empty()),
                },
            }
        },
    }
}

/// What a query refers to.
pub open spec fn query_references(query: StoredQueryV1, parent: Option<Ranges>) -> Found
    decreases query, 3nat, 0nat,
{
    let inputs = input_references(query, parent);
    match inputs.ranges {
        Err(error) => Found { references: inputs.references, problem: Some(error) },
        Ok(own) => {
            let outer = match parent {
                Some(parent) => parent,
                None => own,
            };
            (Found { references: inputs.references, problem: None }).followed_by(
                direct_references(query, 0, own).followed_by(outer_references(query, 0, outer)),
            )
        },
    }
}

/// A list and the result beside it are what a search adds to a shorter list.
spec fn adds(
    before: Seq<StoredReference<'_>>,
    after: Seq<StoredReference<'_>>,
    result: Result<()>,
    found: Found,
) -> bool {
    &&& views(after) == views(before) + found.references
    &&& match result {
        Ok(_) => found.problem is None,
        Err(error) => found.problem == Some(error@),
    }
}

/// A list, the ranges and the result beside them are what a search through a `FROM`
/// clause gives.
spec fn adds_from(
    before: Seq<StoredReference<'_>>,
    after: Seq<StoredReference<'_>>,
    ranges: Ranges,
    result: Result<()>,
    found: FoundFrom,
) -> bool {
    &&& views(after) == views(before) + found.references
    &&& match result {
        Ok(_) => found.ranges == Ok::<Ranges, ErrorView>(ranges),
        Err(error) => found.ranges == Err::<Ranges, ErrorView>(error@),
    }
}

fn collect_expr_references<'a>(
    expr: &'a StoredQueryExpr,
    ranges: &RangeTable<'a>,
    list: &mut Vec<StoredReference<'a>>,
) -> (result: Result<()>)
    requires
        ranges.well_formed(),
    ensures
        adds(old(list)@, final(list)@, result, expr_references(*expr, ranges@)),
    decreases *expr, 2nat, 0nat,
{
    let ghost start = list@;
    if let StoredQueryExpr::InputRef {
        range,
        column: StoredColumnReference::Catalog(column),
        data_type,
        nullable,
    } = expr {
        match ranges.get(*range) {
            Some(StoredRangeTarget::Catalog { table, null_extended }) => {
                list.push(
                    StoredReference::Column {
                        table,
                        column: *column,
                        data_type,
                        nullable: *nullable,
                        null_extended,
                    },
                );
            },
            _ => {
                assert(views(list@) =~= views(start) + expr_references(*expr, ranges@).references);
                return Err(DbError::internal("stored query catalog column has invalid range"));
            },
        }
    }
    let ghost own = own_reference(*expr, ranges@);
    assert(views(list@) =~= views(start) + own.references);
    let operands: Vec<&'a StoredQueryExpr> = expr.operand_list();
    let ghost operand_found = operand_references(*expr, 0, ranges@);
    let ghost middle = list@;
    let ghost mut before: Seq<Reference> = Seq::empty();
    let mut i: usize = 0;
    while i < operands.len()
        invariant
            i <= operands@.len(),
            stored_query::refers_to(operands@, expr.operands()),
            ranges.well_formed(),
            own == own_reference(*expr, ranges@),
            own.problem is None,
            views(middle) == views(start) + own.references,
            start == old(list)@,
            operand_found == operand_references(*expr, 0, ranges@),
            views(list@) == views(middle) + before,
            operand_found.references == before + operand_references(
                *expr,
                i as nat,
                ranges@,
            ).references,
            operand_found.problem == operand_references(*expr, i as nat, ranges@).problem,
        decreases operands@.len() - i,
    {
        proof {
            expr.lemma_operand_is_smaller(i as int);
        }
        let ghost found = expr_references(expr.operands()[i as int], ranges@);
        let ghost rest = operand_references(*expr, (i + 1) as nat, ranges@);
        let ghost sofar = list@;
        if let Err(error) = collect_expr_references(operands[i], ranges, list) {
            proof {
                assert(views(list@) =~= views(start) + expr_references(
                    *expr,
                    ranges@,
                ).references);
            }
            return Err(error);
        }
        proof {
            assert(operand_references(*expr, i as nat, ranges@) == found.followed_by(rest));
            before = before + found.references;
            assert(views(list@) =~= views(middle) + before);
            assert(operand_found.references =~= before + rest.references);
        }
        i += 1;
    }
    assert(operand_found.references =~= before);
    match expr.subquery_in() {
        Some(query) => {
            let result: Result<()> = collect_query_references(query, Some(ranges), list);
            assert(views(list@) =~= views(start) + expr_references(*expr, ranges@).references);
            result
        },
        None => {
            assert(views(list@) =~= views(start) + expr_references(*expr, ranges@).references);
            Ok(())
        },
    }
}

fn insert_collected_range<'a>(
    ranges: &mut RangeTable<'a>,
    range: BindingId,
    target: StoredRangeTarget<'a>,
) -> (result: Result<()>)
    requires
        old(ranges).well_formed(),
    ensures
        final(ranges).well_formed(),
        match result {
            Ok(_) => !old(ranges)@.contains_key(range) && final(ranges)@ == old(ranges)@.insert(
                range,
                target@,
            ),
            Err(error) => old(ranges)@.contains_key(range) && error@ == error::internal_error(
                "stored query contains duplicate range id"@,
            ),
        },
{
    if !ranges.insert(range, target) {
        return Err(DbError::internal("stored query contains duplicate range id"));
    }
    Ok(())
}

fn collect_arg_references<'a>(
    from: &'a StoredFrom,
    args: &'a Vec<StoredQueryExpr>,
    ranges: &RangeTable<'a>,
    list: &mut Vec<StoredReference<'a>>,
) -> (result: Result<()>)
    requires
        ranges.well_formed(),
        from.function_args() == args@,
    ensures
        adds(old(list)@, final(list)@, result, arg_references(*from, 0, ranges@)),
    decreases *from, 1nat, args@.len(),
{
    let ghost whole = arg_references(*from, 0, ranges@);
    let ghost start = list@;
    let ghost mut before: Seq<Reference> = Seq::empty();
    let mut i: usize = 0;
    assert(views(list@) =~= views(start) + before);
    assert(whole.references =~= before + whole.references);
    while i < args.len()
        invariant
            i <= args@.len(),
            from.function_args() == args@,
            ranges.well_formed(),
            start == old(list)@,
            whole == arg_references(*from, 0, ranges@),
            views(list@) == views(start) + before,
            whole.references == before + arg_references(*from, i as nat, ranges@).references,
            whole.problem == arg_references(*from, i as nat, ranges@).problem,
        decreases args@.len() - i,
    {
        proof {
            from.lemma_arg_is_smaller(i as int);
        }
        let ghost found = expr_references(args@[i as int], ranges@);
        let ghost rest = arg_references(*from, (i + 1) as nat, ranges@);
        if let Err(error) = collect_expr_references(&args[i], ranges, list) {
            assert(views(list@) =~= views(start) + whole.references);
            return Err(error);
        }
        proof {
            assert(arg_references(*from, i as nat, ranges@) == found.followed_by(rest));
            before = before + found.references;
            assert(views(list@) =~= views(start) + before);
            assert(whole.references =~= before + rest.references);
        }
        i += 1;
    }
    assert(whole.references =~= before);
    Ok(())
}

fn collect_from_references<'a>(
    from: &'a StoredFrom,
    ranges: &mut RangeTable<'a>,
    list: &mut Vec<StoredReference<'a>>,
) -> (result: Result<()>)
    requires
        old(ranges).well_formed(),
    ensures
        final(ranges).well_formed(),
        adds_from(
            old(list)@,
            final(list)@,
            final(ranges)@,
            result,
            from_references(*from, old(ranges)@),
        ),
    decreases *from, 2nat, 0nat,
{
    let ghost start = list@;
    let ghost whole = from_references(*from, ranges@);
    match from {
        StoredFrom::Table { table, range, .. } => {
            assert(views(list@) =~= views(start) + whole.references);
            insert_collected_range(
                ranges,
                *range,
                StoredRangeTarget::Catalog { table: *table, null_extended: false },
            )
        },
        StoredFrom::System { relation_oid, range, schema, .. } => {
            list.push(StoredReference::System { relation_oid: *relation_oid, schema });
            assert(views(list@) =~= views(start) + whole.references);
            insert_collected_range(
                ranges,
                *range,
                StoredRangeTarget::Position { columns: schema, null_extended: false },
            )
        },
        StoredFrom::Derived { query, range, schema, .. } => {
            if let Err(error) = collect_query_references(query, Some(&*ranges), list) {
                return Err(error);
            }
            insert_collected_range(
                ranges,
                *range,
                StoredRangeTarget::Position { columns: schema, null_extended: false },
            )
        },
        StoredFrom::TableFunction { args, range, schema, .. } => {
            if let Err(error) = collect_arg_references(from, args, &*ranges, list) {
                return Err(error);
            }
            insert_collected_range(
                ranges,
                *range,
                StoredRangeTarget::Position { columns: schema, null_extended: false },
            )
        },
        StoredFrom::Join { left, right, join_type, condition } => {
            let before: RangeTable<'a> = ranges.copied();
            if let Err(error) = collect_from_references(left, ranges, list) {
                return Err(error);
            }
            let after_left: RangeTable<'a> = ranges.copied();
            let ghost on_left = from_references(**left, before@);
            if let Err(error) = collect_from_references(right, ranges, list) {
                assert(views(list@) =~= views(start) + whole.references);
                return Err(error);
            }
            let ghost on_right = from_references(**right, after_left@);
            let ghost sides = on_left.references + on_right.references;
            assert(views(list@) =~= views(start) + sides);
            if let Some(condition) = condition {
                if let Err(error) = collect_expr_references(condition, &*ranges, list) {
                    assert(views(list@) =~= views(start) + whole.references);
                    return Err(error);
                }
            }
            assert(views(list@) =~= views(start) + whole.references);
            let after_right: RangeTable<'a> = ranges.copied();
            if matches!(join_type, StoredJoinType::Right | StoredJoinType::Full) {
                ranges.extend_between(&after_left, &before);
            }
            if matches!(join_type, StoredJoinType::Left | StoredJoinType::Full) {
                ranges.extend_between(&after_right, &after_left);
            }
            Ok(())
        },
    }
}

fn collect_input_references<'a>(
    query: &'a StoredQueryV1,
    parent: Option<&RangeTable<'a>>,
    ranges: &mut RangeTable<'a>,
    list: &mut Vec<StoredReference<'a>>,
) -> (result: Result<()>)
    requires
        parent is Some ==> parent->0.well_formed(),
        old(ranges).well_formed(),
        old(ranges)@ == Map::<BindingId, RangeTarget>::empty(),
    ensures
        final(ranges).well_formed(),
        adds_from(
            old(list)@,
            final(list)@,
            final(ranges)@,
            result,
            input_references(
                *query,
                match parent {
                    Some(parent) => Some(parent@),
                    None => None,
                },
            ),
        ),
    decreases *query, 2nat, 0nat,
{
    let ghost start = list@;
    assert(views(start) =~= views(start) + Seq::<Reference>::empty());
    match &query.body {
        StoredQueryBody::Select(select) => match &select.from {
            Some(from) => {
                proof {
                    query.lemma_from_is_smaller();
                }
                collect_from_references(from, ranges, list)
            },
            None => Ok(()),
        },
        StoredQueryBody::Values(_) => Ok(()),
        StoredQueryBody::SetOp(set_op) => {
            let ghost outer = match parent {
                Some(parent) => Some(parent@),
                None => None,
            };
            let ghost on_left = query_references(*set_op.left, outer);
            let ghost on_right = query_references(*set_op.right, outer);
            if let Err(error) = collect_query_references(&set_op.left, parent, list) {
                return Err(error);
            }
            let result: Result<()> = collect_query_references(&set_op.right, parent, list);
            assert(views(list@) =~= views(start) + on_left.followed_by(on_right).references);
            result
        },
    }
}

fn collect_direct_references<'a>(
    query: &'a StoredQueryV1,
    ranges: &RangeTable<'a>,
    list: &mut Vec<StoredReference<'a>>,
) -> (result: Result<()>)
    requires
        ranges.well_formed(),
    ensures
        adds(old(list)@, final(list)@, result, direct_references(*query, 0, ranges@)),
    decreases *query, 1nat, query.direct_exprs().len(),
{
    let exprs: Vec<&'a StoredQueryExpr> = query.direct_expr_list();
    let ghost whole = direct_references(*query, 0, ranges@);
    let ghost start = list@;
    let ghost mut before: Seq<Reference> = Seq::empty();
    let mut i: usize = 0;
    assert(views(list@) =~= views(start) + before);
    assert(whole.references =~= before + whole.references);
    while i < exprs.len()
        invariant
            i <= exprs@.len(),
            stored_query::refers_to(exprs@, query.direct_exprs()),
            ranges.well_formed(),
            start == old(list)@,
            whole == direct_references(*query, 0, ranges@),
            views(list@) == views(start) + before,
            whole.references == before + direct_references(*query, i as nat, ranges@).references,
            whole.problem == direct_references(*query, i as nat, ranges@).problem,
        decreases exprs@.len() - i,
    {
        proof {
            query.lemma_direct_expr_is_smaller(i as int);
        }
        let ghost found = expr_references(query.direct_exprs()[i as int], ranges@);
        let ghost rest = direct_references(*query, (i + 1) as nat, ranges@);
        if let Err(error) = collect_expr_references(exprs[i], ranges, list) {
            assert(views(list@) =~= views(start) + whole.references);
            return Err(error);
        }
        proof {
            assert(direct_references(*query, i as nat, ranges@) == found.followed_by(rest));
            before = before + found.references;
            assert(views(list@) =~= views(start) + before);
            assert(whole.references =~= before + rest.references);
        }
        i += 1;
    }
    assert(whole.references =~= before);
    Ok(())
}

fn collect_outer_references<'a>(
    query: &'a StoredQueryV1,
    ranges: &RangeTable<'a>,
    list: &mut Vec<StoredReference<'a>>,
) -> (result: Result<()>)
    requires
        ranges.well_formed(),
    ensures
        adds(old(list)@, final(list)@, result, outer_references(*query, 0, ranges@)),
    decreases *query, 1nat, query.correlations@.len(),
{
    let ghost whole = outer_references(*query, 0, ranges@);
    let ghost start = list@;
    let ghost mut before: Seq<Reference> = Seq::empty();
    let mut i: usize = 0;
    assert(views(list@) =~= views(start) + before);
    assert(whole.references =~= before + whole.references);
    while i < query.correlations.len()
        invariant
            i <= query.correlations@.len(),
            ranges.well_formed(),
            start == old(list)@,
            whole == outer_references(*query, 0, ranges@),
            views(list@) == views(start) + before,
            whole.references == before + outer_references(*query, i as nat, ranges@).references,
            whole.problem == outer_references(*query, i as nat, ranges@).problem,
        decreases query.correlations@.len() - i,
    {
        proof {
            query.lemma_outer_expr_is_smaller(i as int);
        }
        let ghost found = expr_references(query.correlations@[i as int].outer, ranges@);
        let ghost rest = outer_references(*query, (i + 1) as nat, ranges@);
        if let Err(error) = collect_expr_references(
            &query.correlations[i].outer,
            ranges,
            list,
        ) {
            assert(views(list@) =~= views(start) + whole.references);
            return Err(error);
        }
        proof {
            assert(outer_references(*query, i as nat, ranges@) == found.followed_by(rest));
            before = before + found.references;
            assert(views(list@) =~= views(start) + before);
            assert(whole.references =~= before + rest.references);
        }
        i += 1;
    }
    assert(whole.references =~= before);
    Ok(())
}

fn collect_query_references<'a>(
    query: &'a StoredQueryV1,
    parent: Option<&RangeTable<'a>>,
    list: &mut Vec<StoredReference<'a>>,
) -> (result: Result<()>)
    requires
        parent is Some ==> parent->0.well_formed(),
    ensures
        adds(
            old(list)@,
            final(list)@,
            result,
            query_references(
                *query,
                match parent {
                    Some(parent) => Some(parent@),
                    None => None,
                },
            ),
        ),
    decreases *query, 3nat, 0nat,
{
    let ghost start = list@;
    let ghost whole = query_references(
        *query,
        match parent {
            Some(parent) => Some(parent@),
            None => None,
        },
    );
    let mut own: RangeTable<'a> = RangeTable::new();
    if let Err(error) = collect_input_references(query, parent, &mut own, list) {
        return Err(error);
    }
    if let Err(error) = collect_direct_references(query, &own, list) {
        assert(views(list@) =~= views(start) + whole.references);
        return Err(error);
    }
    let result: Result<()> = match parent {
        Some(parent) => collect_outer_references(query, parent, list),
        None => collect_outer_references(query, &own, list),
    };
    assert(views(list@) =~= views(start) + whole.references);
    result
}

/// A visitor of catalog columns met these references in turn, from its first state to its
/// last one: it was called with each column, and a system relation did not touch it.
pub open spec fn visits_columns<F: FnMut(TableId, ColumnObjectId, &DataType, bool, bool)>(
    states: Seq<F>,
    references: Seq<Reference>,
) -> bool {
    states.len() == references.len() + 1 && forall|i: int|
        0 <= i < references.len() ==> match #[trigger] references[i] {
            Reference::Column { table, column, data_type, nullable, null_extended } =>
                call_ensures(
                states[i],
                (table, column, &data_type, nullable, null_extended),
                (),
            ),
            Reference::System { .. } => states[i + 1] == states[i],
        }
}

/// A visitor of system relations met these references in turn, from its first state to
/// its last one: it was called with each relation, and a column did not touch it.
pub open spec fn visits_relations<F: FnMut(i64, &Vec<StoredRangeColumn>)>(
    states: Seq<F>,
    references: Seq<Reference>,
) -> bool {
    states.len() == references.len() + 1 && forall|i: int|
        0 <= i < references.len() ==> match #[trigger] references[i] {
            Reference::System { relation_oid, schema } => call_ensures(
                states[i],
                (relation_oid, &schema),
                (),
            ),
            Reference::Column { .. } => states[i + 1] == states[i],
        }
}

impl StoredQueryV1 {
    /// The catalog columns and system relations that the query refers to, in the
    /// order in which a search meets them, and whether the search came to its end.
    pub fn references(&self) -> (found: (Vec<StoredReference<'_>>, Result<()>))
        ensures
            views(found.0@) == query_references(*self, None).references,
            match found.1 {
                Ok(_) => query_references(*self, None).problem is None,
                Err(error) => query_references(*self, None).problem == Some(error@),
            },
    {
        let mut list: Vec<StoredReference<'_>> = Vec::new();
        let result: Result<()> = collect_query_references(self, None, &mut list);
        assert(views(list@) =~= query_references(*self, None).references);
        (list, result)
    }

    /// Visits the catalog columns among [`StoredQueryV1::references`]: the table, the
    /// column, its type and nullability in the query, and whether its range stands on
    /// the optional side of an outer join.
    pub fn for_each_catalog_column_reference<
        F: FnMut(TableId, ColumnObjectId, &DataType, bool, bool),
    >(&self, visitor: &mut F) -> (result: Result<()>)
        requires
            forall|
                visitor: F,
                table: TableId,
                column: ColumnObjectId,
                data_type: &DataType,
                nullable: bool,
                null_extended: bool,
            | #[trigger]
                call_requires(visitor, (table, column, data_type, nullable, null_extended)),
        ensures
            match result {
                Ok(_) => query_references(*self, None).problem is None,
                Err(error) => query_references(*self, None).problem == Some(error@),
            },
            exists|states: Seq<F>| #[trigger]
                visits_columns(states, query_references(*self, None).references)
                    && states.first() == *old(visitor) && states.last() == *final(visitor),
    {
        let (list, result): (Vec<StoredReference<'_>>, Result<()>) = self.references();
        let ghost mut states: Seq<F> = seq![*visitor];
        let mut i: usize = 0;
        while i < list.len()
            invariant
                i <= list@.len(),
                visits_columns(states, views(list@.take(i as int))),
                states.first() == *old(visitor),
                states.last() == *visitor,
                forall|
                    visitor: F,
                    table: TableId,
                    column: ColumnObjectId,
                    data_type: &DataType,
                    nullable: bool,
                    null_extended: bool,
                | #[trigger]
                    call_requires(visitor, (table, column, data_type, nullable, null_extended)),
            decreases list@.len() - i,
        {
            if let StoredReference::Column { table, column, data_type, nullable, null_extended } =
                list[i] {
                visitor(table, column, data_type, nullable, null_extended);
            }
            proof {
                let more = views(list@.take(i + 1));
                let before = views(list@.take(i as int));
                assert forall|j: int| 0 <= j < i implies more[j] == before[j] by {}
                assert(more[i as int] == list@[i as int]@);
                states = states.push(*visitor);
            }
            i += 1;
        }
        assert(list@.take(i as int) =~= list@);
        result
    }

    /// Visits the system relations among [`StoredQueryV1::references`] with the
    /// columns that the query has for them.
    pub fn for_each_system_relation_reference<F: FnMut(i64, &Vec<StoredRangeColumn>)>(
        &self,
        visitor: &mut F,
    ) -> (result: Result<()>)
        requires
            forall|visitor: F, relation_oid: i64, schema: &Vec<StoredRangeColumn>| #[trigger]
                call_requires(visitor, (relation_oid, schema)),
        ensures
            match result {
                Ok(_) => query_references(*self, None).problem is None,
                Err(error) => query_references(*self, None).problem == Some(error@),
            },
            exists|states: Seq<F>| #[trigger]
                visits_relations(states, query_references(*self, None).references)
                    && states.first() == *old(visitor) && states.last() == *final(visitor),
    {
        let (list, result): (Vec<StoredReference<'_>>, Result<()>) = self.references();
        let ghost mut states: Seq<F> = seq![*visitor];
        let mut i: usize = 0;
        while i < list.len()
            invariant
                i <= list@.len(),
                visits_relations(states, views(list@.take(i as int))),
                states.first() == *old(visitor),
                states.last() == *visitor,
                forall|visitor: F, relation_oid: i64, schema: &Vec<StoredRangeColumn>| #[trigger]
                    call_requires(visitor, (relation_oid, schema)),
            decreases list@.len() - i,
        {
            if let StoredReference::System { relation_oid, schema } = list[i] {
                visitor(relation_oid, schema);
            }
            proof {
                let more = views(list@.take(i + 1));
                let before = views(list@.take(i as int));
                assert forall|j: int| 0 <= j < i implies more[j] == before[j] by {}
                assert(more[i as int] == list@[i as int]@);
                states = states.push(*visitor);
            }
            i += 1;
        }
        assert(list@.take(i as int) =~= list@);
        result
    }
}

} // verus!
