//! Equality of stored queries. Two queries are equal where they are built alike;
//! literals are compared as values are.

use vstd::prelude::*;

use crate::stored_expression::{same_dimensions, same_escape, same_wire_type};
use crate::stored_query::{
    self, StoredCorrelatedColumn, StoredDistinct, StoredFrom, StoredOrderBy, StoredQueryBody,
    StoredQueryColumn, StoredQueryExpr, StoredQueryV1, StoredRangeColumn, StoredSelect,
    StoredSelectItem,
};
use crate::text;

verus! {

/// The same columns, under the same names.
pub open spec fn same_range_columns(a: Seq<StoredRangeColumn>, b: Seq<StoredRangeColumn>) -> bool {
    &&& a.len() == b.len()
    &&& forall|i: int|
        0 <= i < a.len() ==> {
            &&& (#[trigger] a[i]).name@ == b[i].name@
            &&& a[i].data_type == b[i].data_type
            &&& a[i].pg_type == b[i].pg_type
            &&& a[i].nullable == b[i].nullable
        }
}

fn are_same_range_columns(a: &Vec<StoredRangeColumn>, b: &Vec<StoredRangeColumn>) -> (same: bool)
    ensures
        same == same_range_columns(a@, b@),
{
    if a.len() != b.len() {
        return false;
    }
    let mut i: usize = 0;
    while i < a.len()
        invariant
            i <= a@.len(),
            a@.len() == b@.len(),
            same_range_columns(a@.take(i as int), b@.take(i as int)),
        decreases a@.len() - i,
    {
        if !text::same_text(&a[i].name, &b[i].name) || a[i].data_type != b[i].data_type
            || a[i].pg_type != b[i].pg_type || a[i].nullable != b[i].nullable {
            assert(a@[i as int] == a@[i as int]);
            return false;
        }
        i += 1;
        proof {
            let x = a@.take(i as int);
            let y = b@.take(i as int);
            assert forall|j: int| 0 <= j < x.len() implies {
                &&& (#[trigger] x[j]).name@ == y[j].name@
                &&& x[j].data_type == y[j].data_type
                &&& x[j].pg_type == y[j].pg_type
                &&& x[j].nullable == y[j].nullable
            } by {
                if j < i - 1 {
                    assert(a@.take(i - 1)[j] == x[j]);
                }
            }
        }
    }
    assert(a@.take(i as int) == a@);
    assert(b@.take(i as int) == b@);
    true
}

/// The same output columns, under the same names.
pub open spec fn same_output(a: Seq<StoredQueryColumn>, b: Seq<StoredQueryColumn>) -> bool {
    &&& a.len() == b.len()
    &&& forall|i: int|
        0 <= i < a.len() ==> {
            &&& (#[trigger] a[i]).name@ == b[i].name@
            &&& a[i].data_type == b[i].data_type
            &&& a[i].pg_type == b[i].pg_type
        }
}

fn are_same_output(a: &[StoredQueryColumn], b: &[StoredQueryColumn]) -> (same: bool)
    ensures
        same == same_output(a@, b@),
{
    if a.len() != b.len() {
        return false;
    }
    let mut i: usize = 0;
    while i < a.len()
        invariant
            i <= a@.len(),
            a@.len() == b@.len(),
            same_output(a@.take(i as int), b@.take(i as int)),
        decreases a@.len() - i,
    {
        if !text::same_text(&a[i].name, &b[i].name) || a[i].data_type != b[i].data_type
            || a[i].pg_type != b[i].pg_type {
            assert(a@[i as int] == a@[i as int]);
            return false;
        }
        i += 1;
        proof {
            let x = a@.take(i as int);
            let y = b@.take(i as int);
            assert forall|j: int| 0 <= j < x.len() implies {
                &&& (#[trigger] x[j]).name@ == y[j].name@
                &&& x[j].data_type == y[j].data_type
                &&& x[j].pg_type == y[j].pg_type
            } by {
                if j < i - 1 {
                    assert(a@.take(i - 1)[j] == x[j]);
                }
            }
        }
    }
    assert(a@.take(i as int) == a@);
    assert(b@.take(i as int) == b@);
    true
}

/// The text of an optional alias.
pub open spec fn alias_text(alias: Option<String>) -> Option<Seq<char>> {
    match alias {
        Some(alias) => Some(alias@),
        None => None,
    }
}

fn same_alias(a: &Option<String>, b: &Option<String>) -> (same: bool)
    ensures
        same == (alias_text(*a) == alias_text(*b)),
{
    match (a, b) {
        (Some(a), Some(b)) => text::same_text(a, b),
        (None, None) => true,
        _ => false,
    }
}

/// Sort keys that differ at most in their expressions.
pub open spec fn same_directions(a: Seq<StoredOrderBy>, b: Seq<StoredOrderBy>) -> bool {
    &&& a.len() == b.len()
    &&& forall|i: int|
        0 <= i < a.len() ==> (#[trigger] a[i]).ascending == b[i].ascending && a[i].nulls_first
            == b[i].nulls_first
}

fn are_same_directions(a: &Vec<StoredOrderBy>, b: &Vec<StoredOrderBy>) -> (same: bool)
    ensures
        same == same_directions(a@, b@),
{
    if a.len() != b.len() {
        return false;
    }
    let mut i: usize = 0;
    while i < a.len()
        invariant
            i <= a@.len(),
            a@.len() == b@.len(),
            forall|j: int|
                0 <= j < i ==> (#[trigger] a@[j]).ascending == b@[j].ascending && a@[j].nulls_first
                    == b@[j].nulls_first,
        decreases a@.len() - i,
    {
        let nulls: bool = match (a[i].nulls_first, b[i].nulls_first) {
            (Some(x), Some(y)) => x == y,
            (None, None) => true,
            _ => false,
        };
        if a[i].ascending != b[i].ascending || !nulls {
            assert(a@[i as int] == a@[i as int]);
            return false;
        }
        i += 1;
    }
    true
}

/// Correlations that differ at most in their outer expressions.
pub open spec fn same_correlation_types(
    a: Seq<StoredCorrelatedColumn>,
    b: Seq<StoredCorrelatedColumn>,
) -> bool {
    &&& a.len() == b.len()
    &&& forall|i: int|
        0 <= i < a.len() ==> (#[trigger] a[i]).data_type == b[i].data_type && a[i].nullable
            == b[i].nullable
}

fn are_same_correlation_types(
    a: &Vec<StoredCorrelatedColumn>,
    b: &Vec<StoredCorrelatedColumn>,
) -> (same: bool)
    ensures
        same == same_correlation_types(a@, b@),
{
    if a.len() != b.len() {
        return false;
    }
    let mut i: usize = 0;
    while i < a.len()
        invariant
            i <= a@.len(),
            a@.len() == b@.len(),
            forall|j: int|
                0 <= j < i ==> (#[trigger] a@[j]).data_type == b@[j].data_type && a@[j].nullable
                    == b@[j].nullable,
        decreases a@.len() - i,
    {
        if a[i].data_type != b[i].data_type || a[i].nullable != b[i].nullable {
            assert(a@[i as int] == a@[i as int]);
            return false;
        }
        i += 1;
    }
    true
}

/// The same aliases, item by item.
pub open spec fn same_item_aliases(a: Seq<StoredSelectItem>, b: Seq<StoredSelectItem>) -> bool {
    &&& a.len() == b.len()
    &&& forall|i: int| 0 <= i < a.len() ==> (#[trigger] a[i]).alias@ == b[i].alias@
}

fn are_same_item_aliases(a: &Vec<StoredSelectItem>, b: &Vec<StoredSelectItem>) -> (same: bool)
    ensures
        same == same_item_aliases(a@, b@),
{
    if a.len() != b.len() {
        return false;
    }
    let mut i: usize = 0;
    while i < a.len()
        invariant
            i <= a@.len(),
            a@.len() == b@.len(),
            forall|j: int| 0 <= j < i ==> (#[trigger] a@[j]).alias@ == b@[j].alias@,
        decreases a@.len() - i,
    {
        if !text::same_text(&a[i].alias, &b[i].alias) {
            assert(a@[i as int] == a@[i as int]);
            return false;
        }
        i += 1;
    }
    true
}

/// Rows of the same widths.
pub open spec fn same_row_widths(
    a: Seq<Vec<StoredQueryExpr>>,
    b: Seq<Vec<StoredQueryExpr>>,
) -> bool {
    &&& a.len() == b.len()
    &&& forall|i: int| 0 <= i < a.len() ==> (#[trigger] a[i])@.len() == b[i]@.len()
}

fn are_same_row_widths(
    a: &Vec<Vec<StoredQueryExpr>>,
    b: &Vec<Vec<StoredQueryExpr>>,
) -> (same: bool)
    ensures
        same == same_row_widths(a@, b@),
{
    if a.len() != b.len() {
        return false;
    }
    let mut i: usize = 0;
    while i < a.len()
        invariant
            i <= a@.len(),
            a@.len() == b@.len(),
            forall|j: int| 0 <= j < i ==> (#[trigger] a@[j])@.len() == b@[j]@.len(),
        decreases a@.len() - i,
    {
        if a[i].len() != b[i].len() {
            assert(a@[i as int] == a@[i as int]);
            return false;
        }
        i += 1;
    }
    true
}

/// The same kind of `DISTINCT`, with as many keys.
pub open spec fn same_distinct_shape(a: Option<StoredDistinct>, b: Option<StoredDistinct>) -> bool {
    match (a, b) {
        (None, None) => true,
        (Some(StoredDistinct::All), Some(StoredDistinct::All)) => true,
        (Some(StoredDistinct::On(a)), Some(StoredDistinct::On(b))) => a@.len() == b@.len(),
        _ => false,
    }
}

/// `SELECT`s that differ at most in their expressions and inputs.
pub open spec fn same_select_shape(a: StoredSelect, b: StoredSelect) -> bool {
    &&& same_distinct_shape(a.distinct, b.distinct)
    &&& same_item_aliases(a.columns@, b.columns@)
    &&& (a.from is Some) == (b.from is Some)
    &&& (a.filter is Some) == (b.filter is Some)
    &&& a.group_by@.len() == b.group_by@.len()
    &&& (a.having is Some) == (b.having is Some)
    &&& same_output(a.output_schema@, b.output_schema@)
}

fn are_same_select_shape(a: &StoredSelect, b: &StoredSelect) -> (same: bool)
    ensures
        same == same_select_shape(*a, *b),
{
    let same_distinct: bool = match (&a.distinct, &b.distinct) {
        (None, None) => true,
        (Some(StoredDistinct::All), Some(StoredDistinct::All)) => true,
        (Some(StoredDistinct::On(a)), Some(StoredDistinct::On(b))) => a.len() == b.len(),
        _ => false,
    };
    same_distinct && are_same_item_aliases(&a.columns, &b.columns) && a.from.is_some()
        == b.from.is_some() && a.filter.is_some() == b.filter.is_some() && a.group_by.len()
        == b.group_by.len() && a.having.is_some() == b.having.is_some() && are_same_output(
        &a.output_schema,
        &b.output_schema,
    )
}

/// Queries that differ at most in their expressions, inputs and arms.
pub open spec fn same_query_shape(a: StoredQueryV1, b: StoredQueryV1) -> bool {
    &&& a.version == b.version
    &&& a.limit == b.limit
    &&& a.offset == b.offset
    &&& a.row_lock == b.row_lock
    &&& same_directions(a.order_by@, b.order_by@)
    &&& same_correlation_types(a.correlations@, b.correlations@)
    &&& match (a.body, b.body) {
        (StoredQueryBody::Select(a), StoredQueryBody::Select(b)) => same_select_shape(*a, *b),
        (StoredQueryBody::Values(a), StoredQueryBody::Values(b)) => same_row_widths(
            a.rows@,
            b.rows@,
        ) && same_output(a.output_schema@, b.output_schema@),
        (StoredQueryBody::SetOp(a), StoredQueryBody::SetOp(b)) => a.op == b.op && a.all == b.all
            && same_output(a.output_schema@, b.output_schema@),
        _ => false,
    }
}

fn same_bound(a: Option<u64>, b: Option<u64>) -> (same: bool)
    ensures
        same == (a == b),
{
    match (a, b) {
        (Some(a), Some(b)) => a == b,
        (None, None) => true,
        _ => false,
    }
}

fn are_same_query_shape(a: &StoredQueryV1, b: &StoredQueryV1) -> (same: bool)
    ensures
        same == same_query_shape(*a, *b),
{
    let same_lock: bool = match (a.row_lock, b.row_lock) {
        (Some(a), Some(b)) => a == b,
        (None, None) => true,
        _ => false,
    };
    if a.version != b.version || !same_bound(a.limit, b.limit) || !same_bound(a.offset, b.offset)
        || !same_lock || !are_same_directions(&a.order_by, &b.order_by)
        || !are_same_correlation_types(&a.correlations, &b.correlations) {
        return false;
    }
    match (&a.body, &b.body) {
        (StoredQueryBody::Select(a), StoredQueryBody::Select(b)) => are_same_select_shape(a, b),
        (StoredQueryBody::Values(a), StoredQueryBody::Values(b)) => are_same_row_widths(
            &a.rows,
            &b.rows,
        ) && are_same_output(&a.output_schema, &b.output_schema),
        (StoredQueryBody::SetOp(a), StoredQueryBody::SetOp(b)) => a.op == b.op && a.all == b.all
            && are_same_output(&a.output_schema, &b.output_schema),
        _ => false,
    }
}

impl StoredQueryExpr {
    /// The same kind of node with the same contents, operands and subqueries aside.
    pub open spec fn same_node(self, other: StoredQueryExpr) -> bool {
        &&& self.spec_data_type() == other.spec_data_type()
        &&& self.spec_nullable() == other.spec_nullable()
        &&& match (self, other) {
            (
                StoredQueryExpr::Literal { value, .. },
                StoredQueryExpr::Literal { value: other_value, .. },
            ) => value@.same(other_value@),
            (
                StoredQueryExpr::InputRef { range, column, .. },
                StoredQueryExpr::InputRef { range: other_range, column: other_column, .. },
            ) => range == other_range && column == other_column,
            (
                StoredQueryExpr::Binary { op, .. },
                StoredQueryExpr::Binary { op: other_op, .. },
            ) => op == other_op,
            (
                StoredQueryExpr::Unary { op, .. },
                StoredQueryExpr::Unary { op: other_op, .. },
            ) => op == other_op,
            (
                StoredQueryExpr::Function { function, pg_type, .. },
                StoredQueryExpr::Function { function: other_function, pg_type: other_pg_type, .. },
            ) => function == other_function && pg_type == other_pg_type,
            (
                StoredQueryExpr::Array { dimensions, element_type, .. },
                StoredQueryExpr::Array {
                    dimensions: other_dimensions,
                    element_type: other_element_type,
                    ..
                },
            ) => dimensions@ == other_dimensions@ && element_type == other_element_type,
            (
                StoredQueryExpr::ArraySubscript { .. },
                StoredQueryExpr::ArraySubscript { .. },
            ) => true,
            (
                StoredQueryExpr::Any { op, .. },
                StoredQueryExpr::Any { op: other_op, .. },
            ) => op == other_op,
            (
                StoredQueryExpr::Nextval { sequence, .. },
                StoredQueryExpr::Nextval { sequence: other_sequence, .. },
            ) => sequence == other_sequence,
            (
                StoredQueryExpr::Currval { sequence, .. },
                StoredQueryExpr::Currval { sequence: other_sequence, .. },
            ) => sequence == other_sequence,
            (
                StoredQueryExpr::Setval { sequence, .. },
                StoredQueryExpr::Setval { sequence: other_sequence, .. },
            ) => sequence == other_sequence,
            (
                StoredQueryExpr::Aggregate { function, distinct, .. },
                StoredQueryExpr::Aggregate {
                    function: other_function,
                    distinct: other_distinct,
                    ..
                },
            ) => function == other_function && distinct == other_distinct,
            (
                StoredQueryExpr::LocalRef { output, .. },
                StoredQueryExpr::LocalRef { output: other_output, .. },
            ) => output == other_output,
            (
                StoredQueryExpr::OuterRef { correlation, .. },
                StoredQueryExpr::OuterRef { correlation: other_correlation, .. },
            ) => correlation == other_correlation,
            (StoredQueryExpr::IsNull { .. }, StoredQueryExpr::IsNull { .. }) => true,
            (StoredQueryExpr::IsNotNull { .. }, StoredQueryExpr::IsNotNull { .. }) => true,
            (
                StoredQueryExpr::InList { negated, .. },
                StoredQueryExpr::InList { negated: other_negated, .. },
            ) => negated == other_negated,
            (
                StoredQueryExpr::Between { negated, .. },
                StoredQueryExpr::Between { negated: other_negated, .. },
            ) => negated == other_negated,
            (
                StoredQueryExpr::Like { negated, case_insensitive, escape, .. },
                StoredQueryExpr::Like {
                    negated: other_negated,
                    case_insensitive: other_case_insensitive,
                    escape: other_escape,
                    ..
                },
            ) => negated == other_negated && case_insensitive == other_case_insensitive
                && escape == other_escape,
            (
                StoredQueryExpr::Case { operand, when_clauses, flow_sensitive_nullable, .. },
                StoredQueryExpr::Case {
                    operand: other_operand,
                    when_clauses: other_when_clauses,
                    flow_sensitive_nullable: other_flow_sensitive_nullable,
                    ..
                },
            ) => (operand is Some) == (other_operand is Some)
                && when_clauses@.len() == other_when_clauses@.len()
                && flow_sensitive_nullable == other_flow_sensitive_nullable,
            (
                StoredQueryExpr::Cast { pg_type, .. },
                StoredQueryExpr::Cast { pg_type: other_pg_type, .. },
            ) => pg_type == other_pg_type,
            (
                StoredQueryExpr::ScalarSubquery { .. },
                StoredQueryExpr::ScalarSubquery { .. },
            ) => true,
            (
                StoredQueryExpr::Exists { negated, .. },
                StoredQueryExpr::Exists { negated: other_negated, .. },
            ) => negated == other_negated,
            (
                StoredQueryExpr::InSubquery { negated, .. },
                StoredQueryExpr::InSubquery { negated: other_negated, .. },
            ) => negated == other_negated,
            _ => false,
        }
    }

    /// The same expression.
    pub open spec fn same(self, other: StoredQueryExpr) -> bool
        decreases self, self.operands().len() + 1,
    {
        &&& self.same_node(other)
        &&& self.operands().len() == other.operands().len()
        &&& self.same_operands(other, self.operands().len())
        &&& match (self.subquery(), other.subquery()) {
            (Some(query), Some(other)) => query.same(other),
            (None, None) => true,
            _ => false,
        }
    }

    /// The same first `count` operands.
    pub open spec fn same_operands(self, other: StoredQueryExpr, count: nat) -> bool
        decreases self, count,
    {
        if count == 0 || count > self.operands().len() {
            true
        } else {
            proof {
                self.lemma_operand_is_smaller(count - 1);
            }
            self.same_operands(other, (count - 1) as nat) && self.operands()[count - 1].same(
                other.operands()[count - 1],
            )
        }
    }

    fn is_same_node(&self, other: &StoredQueryExpr) -> (same: bool)
        ensures
            same == self.same_node(*other),
    {
        *self.data_type() == *other.data_type() && self.nullable() == other.nullable() && match (
            self,
            other,
        ) {
            (
                StoredQueryExpr::Literal { value, .. },
                StoredQueryExpr::Literal { value: other_value, .. },
            ) => *value == *other_value,
            (
                StoredQueryExpr::InputRef { range, column, .. },
                StoredQueryExpr::InputRef { range: other_range, column: other_column, .. },
            ) => *range == *other_range && *column == *other_column,
            (
                StoredQueryExpr::Binary { op, .. },
                StoredQueryExpr::Binary { op: other_op, .. },
            ) => *op == *other_op,
            (
                StoredQueryExpr::Unary { op, .. },
                StoredQueryExpr::Unary { op: other_op, .. },
            ) => *op == *other_op,
            (
                StoredQueryExpr::Function { function, pg_type, .. },
                StoredQueryExpr::Function { function: other_function, pg_type: other_pg_type, .. },
            ) => *function == *other_function && same_wire_type(pg_type, other_pg_type),
            (
                StoredQueryExpr::Array { dimensions, element_type, .. },
                StoredQueryExpr::Array {
                    dimensions: other_dimensions,
                    element_type: other_element_type,
                    ..
                },
            ) => same_dimensions(dimensions, other_dimensions)
                && *element_type == *other_element_type,
            (
                StoredQueryExpr::ArraySubscript { .. },
                StoredQueryExpr::ArraySubscript { .. },
            ) => true,
            (
                StoredQueryExpr::Any { op, .. },
                StoredQueryExpr::Any { op: other_op, .. },
            ) => *op == *other_op,
            (
                StoredQueryExpr::Nextval { sequence, .. },
                StoredQueryExpr::Nextval { sequence: other_sequence, .. },
            ) => *sequence == *other_sequence,
            (
                StoredQueryExpr::Currval { sequence, .. },
                StoredQueryExpr::Currval { sequence: other_sequence, .. },
            ) => *sequence == *other_sequence,
            (
                StoredQueryExpr::Setval { sequence, .. },
                StoredQueryExpr::Setval { sequence: other_sequence, .. },
            ) => *sequence == *other_sequence,
            (
                StoredQueryExpr::Aggregate { function, distinct, .. },
                StoredQueryExpr::Aggregate {
                    function: other_function,
                    distinct: other_distinct,
                    ..
                },
            ) => *function == *other_function && *distinct == *other_distinct,
            (
                StoredQueryExpr::LocalRef { output, .. },
                StoredQueryExpr::LocalRef { output: other_output, .. },
            ) => *output == *other_output,
            (
                StoredQueryExpr::OuterRef { correlation, .. },
                StoredQueryExpr::OuterRef { correlation: other_correlation, .. },
            ) => *correlation == *other_correlation,
            (StoredQueryExpr::IsNull { .. }, StoredQueryExpr::IsNull { .. }) => true,
            (StoredQueryExpr::IsNotNull { .. }, StoredQueryExpr::IsNotNull { .. }) => true,
            (
                StoredQueryExpr::InList { negated, .. },
                StoredQueryExpr::InList { negated: other_negated, .. },
            ) => *negated == *other_negated,
            (
                StoredQueryExpr::Between { negated, .. },
                StoredQueryExpr::Between { negated: other_negated, .. },
            ) => *negated == *other_negated,
            (
                StoredQueryExpr::Like { negated, case_insensitive, escape, .. },
                StoredQueryExpr::Like {
                    negated: other_negated,
                    case_insensitive: other_case_insensitive,
                    escape: other_escape,
                    ..
                },
            ) => *negated == *other_negated && *case_insensitive == *other_case_insensitive
                && same_escape(*escape, *other_escape),
            (
                StoredQueryExpr::Case { operand, when_clauses, flow_sensitive_nullable, .. },
                StoredQueryExpr::Case {
                    operand: other_operand,
                    when_clauses: other_when_clauses,
                    flow_sensitive_nullable: other_flow_sensitive_nullable,
                    ..
                },
            ) => operand.is_some() == other_operand.is_some()
                && when_clauses.len() == other_when_clauses.len()
                && *flow_sensitive_nullable == *other_flow_sensitive_nullable,
            (
                StoredQueryExpr::Cast { pg_type, .. },
                StoredQueryExpr::Cast { pg_type: other_pg_type, .. },
            ) => *pg_type == *other_pg_type,
            (
                StoredQueryExpr::ScalarSubquery { .. },
                StoredQueryExpr::ScalarSubquery { .. },
            ) => true,
            (
                StoredQueryExpr::Exists { negated, .. },
                StoredQueryExpr::Exists { negated: other_negated, .. },
            ) => *negated == *other_negated,
            (
                StoredQueryExpr::InSubquery { negated, .. },
                StoredQueryExpr::InSubquery { negated: other_negated, .. },
            ) => *negated == *other_negated,
            _ => false,
        }
    }

    proof fn lemma_different_operands(self, other: StoredQueryExpr, a: nat, b: nat)
        requires
            a <= b <= self.operands().len(),
            !self.same_operands(other, a),
        ensures
            !self.same_operands(other, b),
        decreases b,
    {
        if a < b {
            self.lemma_different_operands(other, a, (b - 1) as nat);
        }
    }

    /// Whether two expressions are the same.
    pub fn is_same(&self, other: &StoredQueryExpr) -> (same: bool)
        ensures
            same == self.same(*other),
        decreases *self, self.operands().len() + 1,
    {
        if !self.is_same_node(other) {
            return false;
        }
        let list: Vec<&StoredQueryExpr> = self.operand_list();
        let others: Vec<&StoredQueryExpr> = other.operand_list();
        if list.len() != others.len() {
            return false;
        }
        let mut i: usize = 0;
        while i < list.len()
            invariant
                i <= list@.len(),
                list@.len() == others@.len(),
                stored_query::refers_to(list@, self.operands()),
                stored_query::refers_to(others@, other.operands()),
                self.same_operands(*other, i as nat),
            decreases list@.len() - i,
        {
            proof {
                self.lemma_operand_is_smaller(i as int);
            }
            if !list[i].is_same(others[i]) {
                proof {
                    self.lemma_different_operands(
                        *other,
                        (i + 1) as nat,
                        self.operands().len(),
                    );
                }
                return false;
            }
            i += 1;
        }
        match (self.subquery_in(), other.subquery_in()) {
            (Some(query), Some(other)) => query.is_same(other),
            (None, None) => true,
            _ => false,
        }
    }
}

impl StoredFrom {
    /// The arguments of a table function.
    pub open spec fn function_args(self) -> Seq<StoredQueryExpr> {
        match self {
            StoredFrom::TableFunction { args, .. } => args@,
            _ => Seq::empty(),
        }
    }

    /// The same input.
    pub open spec fn same(self, other: StoredFrom) -> bool
        decreases self, self.function_args().len() + 1,
    {
        match (self, other) {
            (
                StoredFrom::Table { table, range, alias },
                StoredFrom::Table { table: other_table, range: other_range, alias: other_alias },
            ) => table == other_table && range == other_range && alias_text(alias) == alias_text(
                other_alias,
            ),
            (
                StoredFrom::System { relation_oid, range, alias, schema },
                StoredFrom::System {
                    relation_oid: other_oid,
                    range: other_range,
                    alias: other_alias,
                    schema: other_schema,
                },
            ) => relation_oid == other_oid && range == other_range && alias_text(alias)
                == alias_text(other_alias) && same_range_columns(schema@, other_schema@),
            (
                StoredFrom::Derived { query, range, alias, schema, lateral },
                StoredFrom::Derived {
                    query: other_query,
                    range: other_range,
                    alias: other_alias,
                    schema: other_schema,
                    lateral: other_lateral,
                },
            ) => range == other_range && alias@ == other_alias@ && same_range_columns(
                schema@,
                other_schema@,
            ) && lateral == other_lateral && query.same(*other_query),
            (
                StoredFrom::TableFunction { function, args, range, alias, schema },
                StoredFrom::TableFunction {
                    function: other_function,
                    args: other_args,
                    range: other_range,
                    alias: other_alias,
                    schema: other_schema,
                },
            ) => function == other_function && range == other_range && alias@ == other_alias@
                && same_range_columns(schema@, other_schema@) && args@.len() == other_args@.len()
                && self.same_args(other, args@.len()),
            (
                StoredFrom::Join { left, right, join_type, condition },
                StoredFrom::Join {
                    left: other_left,
                    right: other_right,
                    join_type: other_type,
                    condition: other_condition,
                },
            ) => join_type == other_type && left.same(*other_left) && right.same(*other_right)
                && match (condition, other_condition) {
                (Some(condition), Some(other)) => condition.same(other),
                (None, None) => true,
                _ => false,
            },
            _ => false,
        }
    }

    /// The same first `count` arguments of a table function.
    pub open spec fn same_args(self, other: StoredFrom, count: nat) -> bool
        decreases self, count,
    {
        if count == 0 || count > self.function_args().len() {
            true
        } else {
            proof {
                self.lemma_arg_is_smaller(count - 1);
            }
            self.same_args(other, (count - 1) as nat) && self.function_args()[count - 1].same(
                other.function_args()[count - 1],
            )
        }
    }

    /// The arguments of a table function are smaller than the input.
    pub proof fn lemma_arg_is_smaller(self, index: int)
        requires
            0 <= index < self.function_args().len(),
        ensures
            decreases_to!(self => self.function_args()[index]),
    {
        let args = self->TableFunction_args;
        assert(decreases_to!(self => args));
        assert(decreases_to!(args => args@));
        assert(decreases_to!(args@ => args@[index]));
    }

    proof fn lemma_different_args(self, other: StoredFrom, a: nat, b: nat)
        requires
            a <= b <= self.function_args().len(),
            !self.same_args(other, a),
        ensures
            !self.same_args(other, b),
        decreases b,
    {
        if a < b {
            self.lemma_different_args(other, a, (b - 1) as nat);
        }
    }

    /// Whether two inputs are the same.
    pub fn is_same(&self, other: &StoredFrom) -> (same: bool)
        ensures
            same == self.same(*other),
        decreases *self, self.function_args().len() + 1,
    {
        match (self, other) {
            (
                StoredFrom::Table { table, range, alias },
                StoredFrom::Table { table: other_table, range: other_range, alias: other_alias },
            ) => *table == *other_table && *range == *other_range && same_alias(alias, other_alias),
            (
                StoredFrom::System { relation_oid, range, alias, schema },
                StoredFrom::System {
                    relation_oid: other_oid,
                    range: other_range,
                    alias: other_alias,
                    schema: other_schema,
                },
            ) => *relation_oid == *other_oid && *range == *other_range && same_alias(
                alias,
                other_alias,
            ) && are_same_range_columns(schema, other_schema),
            (
                StoredFrom::Derived { query, range, alias, schema, lateral },
                StoredFrom::Derived {
                    query: other_query,
                    range: other_range,
                    alias: other_alias,
                    schema: other_schema,
                    lateral: other_lateral,
                },
            ) => *range == *other_range && text::same_text(alias, other_alias)
                && are_same_range_columns(schema, other_schema) && *lateral == *other_lateral
                && query.is_same(other_query),
            (
                StoredFrom::TableFunction { function, args, range, alias, schema },
                StoredFrom::TableFunction {
                    function: other_function,
                    args: other_args,
                    range: other_range,
                    alias: other_alias,
                    schema: other_schema,
                },
            ) => {
                if *function != *other_function || *range != *other_range || !text::same_text(
                    alias,
                    other_alias,
                ) || !are_same_range_columns(schema, other_schema) || args.len()
                    != other_args.len() {
                    return false;
                }
                let mut i: usize = 0;
                while i < args.len()
                    invariant
                        i <= args@.len(),
                        args@.len() == other_args@.len(),
                        self.function_args() == args@,
                        other.function_args() == other_args@,
                        self.same_args(*other, i as nat),
                    decreases args@.len() - i,
                {
                    proof {
                        self.lemma_arg_is_smaller(i as int);
                    }
                    if !args[i].is_same(&other_args[i]) {
                        proof {
                            self.lemma_different_args(*other, (i + 1) as nat, args@.len());
                        }
                        return false;
                    }
                    i += 1;
                }
                true
            },
            (
                StoredFrom::Join { left, right, join_type, condition },
                StoredFrom::Join {
                    left: other_left,
                    right: other_right,
                    join_type: other_type,
                    condition: other_condition,
                },
            ) => *join_type == *other_type && left.is_same(other_left) && right.is_same(other_right)
                && match (condition, other_condition) {
                (Some(condition), Some(other)) => condition.is_same(other),
                (None, None) => true,
                _ => false,
            },
            _ => false,
        }
    }
}

impl StoredQueryV1 {
    /// Larger than the number of expressions in the query itself.
    pub open spec fn breadth(self) -> nat {
        self.direct_exprs().len() + self.correlations@.len() + 1
    }

    /// The same query.
    pub open spec fn same(self, other: StoredQueryV1) -> bool
        decreases self, self.breadth(),
    {
        &&& same_query_shape(self, other)
        &&& match (self.body, other.body) {
            (StoredQueryBody::Select(select), StoredQueryBody::Select(other_select)) => match (
                select.from,
                other_select.from,
            ) {
                (Some(from), Some(other_from)) => from.same(other_from),
                _ => true,
            },
            (StoredQueryBody::SetOp(set_op), StoredQueryBody::SetOp(other_op)) => set_op.left.same(
                *other_op.left,
            ) && set_op.right.same(*other_op.right),
            _ => true,
        }
        &&& self.same_direct(other, self.direct_exprs().len())
        &&& self.same_outer(other, self.correlations@.len())
    }

    /// The same first `count` expressions.
    pub open spec fn same_direct(self, other: StoredQueryV1, count: nat) -> bool
        decreases self, count,
    {
        if count == 0 || count > self.direct_exprs().len() {
            true
        } else {
            proof {
                self.lemma_direct_expr_is_smaller(count - 1);
            }
            self.same_direct(other, (count - 1) as nat) && self.direct_exprs()[count - 1].same(
                other.direct_exprs()[count - 1],
            )
        }
    }

    /// The same first `count` outer columns.
    pub open spec fn same_outer(self, other: StoredQueryV1, count: nat) -> bool
        decreases self, count,
    {
        if count == 0 || count > self.correlations@.len() {
            true
        } else {
            proof {
                self.lemma_outer_expr_is_smaller(count - 1);
            }
            self.same_outer(other, (count - 1) as nat) && self.correlations@[count - 1].outer.same(
                other.correlations@[count - 1].outer,
            )
        }
    }

    proof fn lemma_different_direct(self, other: StoredQueryV1, a: nat, b: nat)
        requires
            a <= b <= self.direct_exprs().len(),
            !self.same_direct(other, a),
        ensures
            !self.same_direct(other, b),
        decreases b,
    {
        if a < b {
            self.lemma_different_direct(other, a, (b - 1) as nat);
        }
    }

    proof fn lemma_different_outer(self, other: StoredQueryV1, a: nat, b: nat)
        requires
            a <= b <= self.correlations@.len(),
            !self.same_outer(other, a),
        ensures
            !self.same_outer(other, b),
        decreases b,
    {
        if a < b {
            self.lemma_different_outer(other, a, (b - 1) as nat);
        }
    }

    proof fn lemma_same_shape_has_as_many_exprs(self, other: StoredQueryV1)
        requires
            same_query_shape(self, other),
        ensures
            self.direct_exprs().len() == other.direct_exprs().len(),
    {
        if let StoredQueryBody::Values(values) = self.body {
            let others = other.body->Values_0;
            lemma_same_widths(values.rows@, others.rows@, values.rows@.len());
        }
    }

    /// Whether two queries are the same.
    pub fn is_same(&self, other: &StoredQueryV1) -> (same: bool)
        ensures
            same == self.same(*other),
        decreases *self, self.breadth(),
    {
        if !are_same_query_shape(self, other) {
            return false;
        }
        match (&self.body, &other.body) {
            (StoredQueryBody::Select(select), StoredQueryBody::Select(other_select)) => {
                if let (Some(from), Some(other_from)) = (&select.from, &other_select.from) {
                    proof {
                        self.lemma_from_is_smaller();
                    }
                    if !from.is_same(other_from) {
                        return false;
                    }
                }
            },
            (StoredQueryBody::SetOp(set_op), StoredQueryBody::SetOp(other_op)) => {
                if !set_op.left.is_same(&other_op.left) || !set_op.right.is_same(&other_op.right) {
                    return false;
                }
            },
            _ => {},
        }
        proof {
            self.lemma_same_shape_has_as_many_exprs(*other);
        }
        let list: Vec<&StoredQueryExpr> = self.direct_expr_list();
        let others: Vec<&StoredQueryExpr> = other.direct_expr_list();
        let mut i: usize = 0;
        while i < list.len()
            invariant
                i <= list@.len(),
                list@.len() == others@.len(),
                stored_query::refers_to(list@, self.direct_exprs()),
                stored_query::refers_to(others@, other.direct_exprs()),
                self.same_direct(*other, i as nat),
            decreases list@.len() - i,
        {
            proof {
                self.lemma_direct_expr_is_smaller(i as int);
            }
            if !list[i].is_same(others[i]) {
                proof {
                    self.lemma_different_direct(
                        *other,
                        (i + 1) as nat,
                        self.direct_exprs().len(),
                    );
                }
                return false;
            }
            i += 1;
        }
        let mut j: usize = 0;
        while j < self.correlations.len()
            invariant
                j <= self.correlations@.len(),
                self.correlations@.len() == other.correlations@.len(),
                self.same_outer(*other, j as nat),
            decreases self.correlations@.len() - j,
        {
            proof {
                self.lemma_outer_expr_is_smaller(j as int);
            }
            if !self.correlations[j].outer.is_same(&other.correlations[j].outer) {
                proof {
                    self.lemma_different_outer(
                        *other,
                        (j + 1) as nat,
                        self.correlations@.len(),
                    );
                }
                return false;
            }
            j += 1;
        }
        true
    }
}

proof fn lemma_same_widths(
    a: Seq<Vec<StoredQueryExpr>>,
    b: Seq<Vec<StoredQueryExpr>>,
    count: nat,
)
    requires
        same_row_widths(a, b),
        count <= a.len(),
    ensures
        stored_query::row_exprs(a, count).len() == stored_query::row_exprs(b, count).len(),
    decreases count,
{
    if count > 0 {
        lemma_same_widths(a, b, (count - 1) as nat);
        assert(a[count - 1]@.len() == b[count - 1]@.len());
    }
}

impl PartialEq for StoredQueryExpr {
    fn eq(&self, other: &Self) -> (equal: bool) {
        self.is_same(other)
    }
}

impl vstd::std_specs::cmp::PartialEqSpecImpl for StoredQueryExpr {
    open spec fn obeys_eq_spec() -> bool {
        true
    }

    open spec fn eq_spec(&self, other: &Self) -> bool {
        self.same(*other)
    }
}

impl PartialEq for StoredQueryV1 {
    fn eq(&self, other: &Self) -> (equal: bool) {
        self.is_same(other)
    }
}

impl vstd::std_specs::cmp::PartialEqSpecImpl for StoredQueryV1 {
    open spec fn obeys_eq_spec() -> bool {
        true
    }

    open spec fn eq_spec(&self, other: &Self) -> bool {
        self.same(*other)
    }
}

impl Eq for StoredQueryExpr {

}

impl Eq for StoredQueryV1 {

}

impl PartialEq for StoredFrom {
    fn eq(&self, other: &Self) -> (equal: bool) {
        self.is_same(other)
    }
}

impl vstd::std_specs::cmp::PartialEqSpecImpl for StoredFrom {
    open spec fn obeys_eq_spec() -> bool {
        true
    }

    open spec fn eq_spec(&self, other: &Self) -> bool {
        self.same(*other)
    }
}

impl Eq for StoredFrom {

}

} // verus!
