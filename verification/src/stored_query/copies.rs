//! Copies of stored queries.

use vstd::prelude::*;

use crate::stored_expression::copies::{copied_numbers, copied_wire_type};
use crate::stored_query::sameness;
use crate::stored_query::{
    self, StoredCorrelatedColumn, StoredDistinct, StoredFrom, StoredOrderBy, StoredQueryBody,
    StoredQueryColumn, StoredQueryExpr, StoredQueryV1, StoredRangeColumn, StoredSelect,
    StoredSelectItem, StoredSetOp, StoredValues,
};

verus! {

/// The list, last item first.
fn backwards<T>(list: Vec<T>) -> (out: Vec<T>)
    ensures
        out@ == list@.reverse(),
{
    let ghost all = list@;
    let mut rest: Vec<T> = list;
    let mut out: Vec<T> = Vec::new();
    while rest.len() > 0
        invariant
            rest@.len() + out@.len() == all.len(),
            rest@ == all.take(rest@.len() as int),
            forall|i: int| 0 <= i < out@.len() ==> #[trigger] out@[i] == all[all.len() - 1 - i],
        decreases rest@.len(),
    {
        out.push(rest.pop().unwrap());
    }
    assert(out@ =~= all.reverse());
    out
}

/// The pairs that a list is made of.
fn paired(list: Vec<StoredQueryExpr>) -> (pairs: Vec<(StoredQueryExpr, StoredQueryExpr)>)
    requires
        list@.len() % 2 == 0,
    ensures
        stored_query::flattened(pairs@) == list@,
{
    let ghost all = list@;
    let mut rest: Vec<StoredQueryExpr> = list;
    let mut backwards: Vec<(StoredQueryExpr, StoredQueryExpr)> = Vec::new();
    while rest.len() > 0
        invariant
            rest@.len() % 2 == 0,
            rest@.len() + 2 * backwards@.len() == all.len(),
            rest@ == all.take(rest@.len() as int),
            forall|i: int|
                0 <= i < backwards@.len() ==> (#[trigger] backwards@[i]) == (
                all[all.len() - 2 * i - 2],
                all[all.len() - 2 * i - 1]),
        decreases rest@.len(),
    {
        let second: StoredQueryExpr = rest.pop().unwrap();
        let first: StoredQueryExpr = rest.pop().unwrap();
        backwards.push((first, second));
    }
    let mut pairs: Vec<(StoredQueryExpr, StoredQueryExpr)> = Vec::new();
    while backwards.len() > 0
        invariant
            2 * (pairs@.len() + backwards@.len()) == all.len(),
            forall|i: int|
                0 <= i < backwards@.len() ==> (#[trigger] backwards@[i]) == (
                all[all.len() - 2 * i - 2],
                all[all.len() - 2 * i - 1]),
            forall|i: int|
                0 <= i < pairs@.len() ==> (#[trigger] pairs@[i]) == (all[2 * i], all[2 * i + 1]),
        decreases backwards@.len(),
    {
        let pair: (StoredQueryExpr, StoredQueryExpr) = backwards.pop().unwrap();
        pairs.push(pair);
    }
    assert(stored_query::flattened(pairs@) =~= all);
    pairs
}


impl StoredQueryExpr {
    /// The same node with other operands and another subquery.
    fn with_parts(
        &self,
        operands: Vec<StoredQueryExpr>,
        subquery: Option<StoredQueryV1>,
    ) -> (copy: StoredQueryExpr)
        requires
            operands@.len() == self.operands().len(),
            subquery is Some == self.subquery() is Some,
        ensures
            self.same_node(copy),
            copy.operands() == operands@,
            copy.subquery() == subquery,
    {
        let ghost all = operands@;
        let mut rest: Vec<StoredQueryExpr> = operands;
        let data_type = self.data_type().clone();
        let nullable: bool = self.nullable();
        let copy = match self {
            StoredQueryExpr::Literal { value, .. } => StoredQueryExpr::Literal {
                value: value.clone(),
                data_type,
                nullable,
            },
            StoredQueryExpr::InputRef { range, column, .. } => StoredQueryExpr::InputRef {
                range: *range,
                column: *column,
                data_type,
                nullable,
            },
            StoredQueryExpr::LocalRef { output, .. } => StoredQueryExpr::LocalRef {
                output: *output,
                data_type,
                nullable,
            },
            StoredQueryExpr::OuterRef { correlation, .. } => StoredQueryExpr::OuterRef {
                correlation: *correlation,
                data_type,
                nullable,
            },
            StoredQueryExpr::Aggregate { function, arg, distinct, .. } => {
                let arg = match arg {
                    Some(_) => Some(Box::new(rest.pop().unwrap())),
                    None => None,
                };
                StoredQueryExpr::Aggregate {
                    function: *function,
                    arg,
                    distinct: *distinct,
                    data_type,
                    nullable,
                }
            },
            StoredQueryExpr::ScalarSubquery { .. } => StoredQueryExpr::ScalarSubquery {
                query: Box::new(subquery.unwrap()),
                data_type,
                nullable,
            },
            StoredQueryExpr::Exists { negated, .. } => StoredQueryExpr::Exists {
                query: Box::new(subquery.unwrap()),
                negated: *negated,
                data_type,
                nullable,
            },
            StoredQueryExpr::InSubquery { negated, .. } => StoredQueryExpr::InSubquery {
                expr: Box::new(rest.pop().unwrap()),
                query: Box::new(subquery.unwrap()),
                negated: *negated,
                data_type,
                nullable,
            },
            StoredQueryExpr::Binary { op, .. } => {
                let right = Box::new(rest.pop().unwrap());
                let left = Box::new(rest.pop().unwrap());
                StoredQueryExpr::Binary { left, op: *op, right, data_type, nullable }
            },
            StoredQueryExpr::Unary { op, .. } => StoredQueryExpr::Unary {
                op: *op,
                expr: Box::new(rest.pop().unwrap()),
                data_type,
                nullable,
            },
            StoredQueryExpr::Function { function, pg_type, .. } => StoredQueryExpr::Function {
                function: *function,
                args: rest,
                data_type,
                pg_type: copied_wire_type(pg_type),
                nullable,
            },
            StoredQueryExpr::Array { dimensions, element_type, .. } => StoredQueryExpr::Array {
                elements: rest,
                dimensions: copied_numbers(dimensions),
                element_type: element_type.clone(),
                data_type,
                nullable,
            },
            StoredQueryExpr::ArraySubscript { .. } => {
                let subscripts: Vec<StoredQueryExpr> = rest.split_off(1);
                let array = Box::new(rest.pop().unwrap());
                StoredQueryExpr::ArraySubscript { array, subscripts, data_type, nullable }
            },
            StoredQueryExpr::Any { op, .. } => {
                let array = Box::new(rest.pop().unwrap());
                let left = Box::new(rest.pop().unwrap());
                StoredQueryExpr::Any { left, op: *op, array, data_type, nullable }
            },
            StoredQueryExpr::Nextval { sequence, .. } => StoredQueryExpr::Nextval {
                sequence: *sequence,
                data_type,
                nullable,
            },
            StoredQueryExpr::Currval { sequence, .. } => StoredQueryExpr::Currval {
                sequence: *sequence,
                data_type,
                nullable,
            },
            StoredQueryExpr::Setval { sequence, is_called, .. } => {
                let is_called = match is_called {
                    Some(_) => Some(Box::new(rest.pop().unwrap())),
                    None => None,
                };
                let value = Box::new(rest.pop().unwrap());
                StoredQueryExpr::Setval {
                    sequence: *sequence,
                    value,
                    is_called,
                    data_type,
                    nullable,
                }
            },
            StoredQueryExpr::IsNull { .. } => StoredQueryExpr::IsNull {
                expr: Box::new(rest.pop().unwrap()),
                data_type,
                nullable,
            },
            StoredQueryExpr::IsNotNull { .. } => StoredQueryExpr::IsNotNull {
                expr: Box::new(rest.pop().unwrap()),
                data_type,
                nullable,
            },
            StoredQueryExpr::InList { negated, .. } => {
                let list: Vec<StoredQueryExpr> = rest.split_off(1);
                let expr = Box::new(rest.pop().unwrap());
                StoredQueryExpr::InList { expr, list, negated: *negated, data_type, nullable }
            },
            StoredQueryExpr::Between { negated, .. } => {
                let high = Box::new(rest.pop().unwrap());
                let low = Box::new(rest.pop().unwrap());
                let expr = Box::new(rest.pop().unwrap());
                StoredQueryExpr::Between {
                    expr,
                    low,
                    high,
                    negated: *negated,
                    data_type,
                    nullable,
                }
            },
            StoredQueryExpr::Like { negated, case_insensitive, escape, .. } => {
                let pattern = Box::new(rest.pop().unwrap());
                let expr = Box::new(rest.pop().unwrap());
                StoredQueryExpr::Like {
                    expr,
                    pattern,
                    negated: *negated,
                    case_insensitive: *case_insensitive,
                    escape: *escape,
                    data_type,
                    nullable,
                }
            },
            StoredQueryExpr::Case { operand, else_clause, flow_sensitive_nullable, .. } => {
                let else_clause = match else_clause {
                    Some(_) => Some(Box::new(rest.pop().unwrap())),
                    None => None,
                };
                let (operand, clauses): (
                    Option<Box<StoredQueryExpr>>,
                    Vec<StoredQueryExpr>,
                ) = match operand {
                    Some(_) => {
                        let clauses = rest.split_off(1);
                        (Some(Box::new(rest.pop().unwrap())), clauses)
                    },
                    None => (None, rest),
                };
                StoredQueryExpr::Case {
                    operand,
                    when_clauses: paired(clauses),
                    else_clause,
                    flow_sensitive_nullable: *flow_sensitive_nullable,
                    data_type,
                    nullable,
                }
            },
            StoredQueryExpr::Cast { pg_type, .. } => StoredQueryExpr::Cast {
                expr: Box::new(rest.pop().unwrap()),
                data_type,
                pg_type: pg_type.clone(),
                nullable,
            },
        };
        assert(copy.operands() =~= all);
        copy
    }

    proof fn lemma_same_operands(self, other: StoredQueryExpr, count: nat)
        requires
            count <= self.operands().len(),
            forall|i: int|
                0 <= i < count ==> (#[trigger] self.operands()[i]).same(other.operands()[i]),
        ensures
            self.same_operands(other, count),
        decreases count,
    {
        if count > 0 {
            self.lemma_same_operands(other, (count - 1) as nat);
        }
    }
}

fn copied_range_columns(columns: &Vec<StoredRangeColumn>) -> (copy: Vec<StoredRangeColumn>)
    ensures
        sameness::same_range_columns(columns@, copy@),
{
    let mut copy: Vec<StoredRangeColumn> = Vec::new();
    let mut i: usize = 0;
    while i < columns.len()
        invariant
            i <= columns@.len(),
            copy@.len() == i,
            forall|j: int|
                0 <= j < i ==> (#[trigger] columns@[j]).name@ == copy@[j].name@
                    && columns@[j].data_type == copy@[j].data_type && columns@[j].pg_type
                    == copy@[j].pg_type && columns@[j].nullable == copy@[j].nullable,
        decreases columns@.len() - i,
    {
        let column: &StoredRangeColumn = &columns[i];
        copy.push(
            StoredRangeColumn {
                name: column.name.clone(),
                data_type: column.data_type.clone(),
                pg_type: column.pg_type.clone(),
                nullable: column.nullable,
            },
        );
        i += 1;
    }
    copy
}

fn copied_output(columns: &Vec<StoredQueryColumn>) -> (copy: Vec<StoredQueryColumn>)
    ensures
        sameness::same_output(columns@, copy@),
{
    let mut copy: Vec<StoredQueryColumn> = Vec::new();
    let mut i: usize = 0;
    while i < columns.len()
        invariant
            i <= columns@.len(),
            copy@.len() == i,
            forall|j: int|
                0 <= j < i ==> (#[trigger] columns@[j]).name@ == copy@[j].name@
                    && columns@[j].data_type == copy@[j].data_type && columns@[j].pg_type
                    == copy@[j].pg_type,
        decreases columns@.len() - i,
    {
        let column: &StoredQueryColumn = &columns[i];
        copy.push(
            StoredQueryColumn {
                name: column.name.clone(),
                data_type: column.data_type.clone(),
                pg_type: column.pg_type.clone(),
            },
        );
        i += 1;
    }
    copy
}

fn copied_alias(alias: &Option<String>) -> (copy: Option<String>)
    ensures
        sameness::alias_text(*alias) == sameness::alias_text(copy),
{
    match alias {
        Some(alias) => Some(alias.clone()),
        None => None,
    }
}

/// The sort keys with other expressions.
fn keys_with(keys: &Vec<StoredOrderBy>, exprs: Vec<StoredQueryExpr>) -> (copy: Vec<StoredOrderBy>)
    requires
        exprs@.len() == keys@.len(),
    ensures
        sameness::same_directions(keys@, copy@),
        stored_query::key_exprs(copy@) == exprs@,
{
    let ghost all = exprs@;
    let mut rest: Vec<StoredQueryExpr> = backwards(exprs);
    let mut copy: Vec<StoredOrderBy> = Vec::new();
    let mut i: usize = 0;
    while i < keys.len()
        invariant
            i <= keys@.len(),
            all.len() == keys@.len(),
            rest@ == all.reverse().take(all.len() - i),
            copy@.len() == i,
            forall|j: int|
                0 <= j < i ==> (#[trigger] keys@[j]).ascending == copy@[j].ascending
                    && keys@[j].nulls_first == copy@[j].nulls_first,
            forall|j: int| 0 <= j < i ==> (#[trigger] copy@[j]).expr == all[j],
        decreases keys@.len() - i,
    {
        let expr: StoredQueryExpr = rest.pop().unwrap();
        copy.push(
            StoredOrderBy {
                expr,
                ascending: keys[i].ascending,
                nulls_first: keys[i].nulls_first,
            },
        );
        i += 1;
    }
    assert(stored_query::key_exprs(copy@) =~= all);
    copy
}

/// The correlations with other outer expressions.
fn correlations_with(
    correlations: &Vec<StoredCorrelatedColumn>,
    exprs: Vec<StoredQueryExpr>,
) -> (copy: Vec<StoredCorrelatedColumn>)
    requires
        exprs@.len() == correlations@.len(),
    ensures
        sameness::same_correlation_types(correlations@, copy@),
        forall|i: int| 0 <= i < copy@.len() ==> (#[trigger] copy@[i]).outer == exprs@[i],
{
    let ghost all = exprs@;
    let mut rest: Vec<StoredQueryExpr> = backwards(exprs);
    let mut copy: Vec<StoredCorrelatedColumn> = Vec::new();
    let mut i: usize = 0;
    while i < correlations.len()
        invariant
            i <= correlations@.len(),
            all.len() == correlations@.len(),
            rest@ == all.reverse().take(all.len() - i),
            copy@.len() == i,
            forall|j: int|
                0 <= j < i ==> (#[trigger] correlations@[j]).data_type == copy@[j].data_type
                    && correlations@[j].nullable == copy@[j].nullable,
            forall|j: int| 0 <= j < i ==> (#[trigger] copy@[j]).outer == all[j],
        decreases correlations@.len() - i,
    {
        let outer: StoredQueryExpr = rest.pop().unwrap();
        copy.push(
            StoredCorrelatedColumn {
                outer,
                data_type: correlations[i].data_type.clone(),
                nullable: correlations[i].nullable,
            },
        );
        i += 1;
    }
    copy
}

/// The select items with other expressions.
fn items_with(items: &Vec<StoredSelectItem>, exprs: Vec<StoredQueryExpr>) -> (copy: Vec<
    StoredSelectItem,
>)
    requires
        exprs@.len() == items@.len(),
    ensures
        sameness::same_item_aliases(items@, copy@),
        stored_query::item_exprs(copy@) == exprs@,
{
    let ghost all = exprs@;
    let mut rest: Vec<StoredQueryExpr> = backwards(exprs);
    let mut copy: Vec<StoredSelectItem> = Vec::new();
    let mut i: usize = 0;
    while i < items.len()
        invariant
            i <= items@.len(),
            all.len() == items@.len(),
            rest@ == all.reverse().take(all.len() - i),
            copy@.len() == i,
            forall|j: int| 0 <= j < i ==> (#[trigger] items@[j]).alias@ == copy@[j].alias@,
            forall|j: int| 0 <= j < i ==> (#[trigger] copy@[j]).expr == all[j],
        decreases items@.len() - i,
    {
        let expr: StoredQueryExpr = rest.pop().unwrap();
        copy.push(StoredSelectItem { expr, alias: items[i].alias.clone() });
        i += 1;
    }
    assert(stored_query::item_exprs(copy@) =~= all);
    copy
}

proof fn lemma_row_start(rows: Seq<Vec<StoredQueryExpr>>, a: nat, b: nat)
    requires
        a <= b <= rows.len(),
    ensures
        stored_query::row_exprs(rows, a).len() <= stored_query::row_exprs(rows, b).len(),
    decreases b,
{
    if a < b {
        lemma_row_start(rows, a, (b - 1) as nat);
    }
}

/// Rows whose bounds lie where those of other rows lie, with the expressions of a list.
proof fn lemma_rows(
    rows: Seq<Vec<StoredQueryExpr>>,
    copy: Seq<Vec<StoredQueryExpr>>,
    all: Seq<StoredQueryExpr>,
    count: nat,
)
    requires
        count <= rows.len(),
        copy.len() == rows.len(),
        all.len() == stored_query::row_exprs(rows, rows.len()).len(),
        forall|i: int|
            0 <= i < rows.len() ==> (#[trigger] copy[i])@ == all.subrange(
                stored_query::row_exprs(rows, i as nat).len() as int,
                stored_query::row_exprs(rows, (i + 1) as nat).len() as int,
            ),
    ensures
        stored_query::row_exprs(copy, count) == all.take(
            stored_query::row_exprs(rows, count).len() as int,
        ),
    decreases count,
{
    lemma_row_start(rows, count, rows.len());
    if count > 0 {
        lemma_rows(rows, copy, all, (count - 1) as nat);
        let a = stored_query::row_exprs(rows, (count - 1) as nat).len() as int;
        let b = stored_query::row_exprs(rows, count).len() as int;
        lemma_row_start(rows, (count - 1) as nat, count);
        assert(copy[count - 1]@ == all.subrange(a, b));
        assert(all.take(a) + all.subrange(a, b) =~= all.take(b));
    } else {
        assert(all.take(0) =~= Seq::empty());
    }
}

/// The rows with other expressions.
fn rows_with(rows: &Vec<Vec<StoredQueryExpr>>, exprs: Vec<StoredQueryExpr>) -> (copy: Vec<
    Vec<StoredQueryExpr>,
>)
    requires
        exprs@.len() == stored_query::row_exprs(rows@, rows@.len()).len(),
    ensures
        sameness::same_row_widths(rows@, copy@),
        stored_query::row_exprs(copy@, copy@.len()) == exprs@,
{
    let ghost all = exprs@;
    let mut rest: Vec<StoredQueryExpr> = exprs;
    let mut last_first: Vec<Vec<StoredQueryExpr>> = Vec::new();
    let mut left: usize = rows.len();
    assert(all.take(all.len() as int) =~= all);
    while left > 0
        invariant
            left + last_first@.len() == rows@.len(),
            all.len() == stored_query::row_exprs(rows@, rows@.len()).len(),
            rest@ == all.take(stored_query::row_exprs(rows@, left as nat).len() as int),
            stored_query::row_exprs(rows@, left as nat).len() <= all.len(),
            forall|i: int|
                0 <= i < last_first@.len() ==> (#[trigger] last_first@[i])@ == all.subrange(
                    stored_query::row_exprs(rows@, (rows@.len() - 1 - i) as nat).len() as int,
                    stored_query::row_exprs(rows@, (rows@.len() - i) as nat).len() as int,
                ),
        decreases left,
    {
        let ghost a = stored_query::row_exprs(rows@, (left - 1) as nat).len() as int;
        let ghost b = stored_query::row_exprs(rows@, left as nat).len() as int;
        assert(b == a + rows@[left - 1]@.len());
        let start: usize = rest.len() - rows[left - 1].len();
        let row: Vec<StoredQueryExpr> = rest.split_off(start);
        assert(row@ =~= all.subrange(a, b));
        assert(rest@ =~= all.take(a));
        last_first.push(row);
        left -= 1;
    }
    let copy: Vec<Vec<StoredQueryExpr>> = backwards(last_first);
    proof {
        assert forall|i: int| 0 <= i < rows@.len() implies (#[trigger] copy@[i])@ == all.subrange(
            stored_query::row_exprs(rows@, i as nat).len() as int,
            stored_query::row_exprs(rows@, (i + 1) as nat).len() as int,
        ) by {
            assert(copy@[i] == last_first@[rows@.len() - 1 - i]);
        }
        lemma_rows(rows@, copy@, all, rows@.len());
        assert(all.take(all.len() as int) =~= all);
        assert forall|i: int| 0 <= i < rows@.len() implies (#[trigger] rows@[i])@.len()
            == copy@[i]@.len() by {
            lemma_row_start(rows@, (i + 1) as nat, rows@.len());
            assert(copy@[i]@ == all.subrange(
                stored_query::row_exprs(rows@, i as nat).len() as int,
                stored_query::row_exprs(rows@, (i + 1) as nat).len() as int,
            ));
        }
    }
    copy
}

/// A list is its five pieces.
proof fn lemma_pieces(all: Seq<StoredQueryExpr>, a: int, b: int, c: int, d: int)
    requires
        0 <= a <= b <= c <= d <= all.len(),
    ensures
        all.take(a) + all.subrange(a, b) + all.subrange(b, c) + all.subrange(c, d) + all.skip(d)
            == all,
{
    assert(all.take(a) + all.subrange(a, b) =~= all.take(b));
    assert(all.take(b) + all.subrange(b, c) =~= all.take(c));
    assert(all.take(c) + all.subrange(c, d) =~= all.take(d));
    assert(all.take(d) + all.skip(d) =~= all);
}

impl StoredSelect {
    /// The `SELECT` with other expressions and another input.
    fn with_parts(&self, exprs: Vec<StoredQueryExpr>, from: Option<StoredFrom>) -> (copy:
        StoredSelect)
        requires
            exprs@.len() == self.direct_exprs().len(),
            from is Some == self.from is Some,
        ensures
            sameness::same_select_shape(*self, copy),
            copy.direct_exprs() == exprs@,
            copy.from == from,
    {
        let ghost all = exprs@;
        let ghost a = stored_query::distinct_keys(self.distinct).len() as int;
        let ghost b = a + self.columns@.len();
        let ghost c = b + stored_query::clause(self.filter).len();
        let ghost d = c + self.group_by@.len();
        assert(all.len() == d + stored_query::clause(self.having).len());
        let mut rest: Vec<StoredQueryExpr> = exprs;
        let having: Option<StoredQueryExpr> = match &self.having {
            Some(_) => Some(rest.pop().unwrap()),
            None => None,
        };
        assert(stored_query::clause(having) =~= all.skip(d));
        assert(rest@ =~= all.take(d));
        let start: usize = rest.len() - self.group_by.len();
        let group_by: Vec<StoredQueryExpr> = rest.split_off(start);
        assert(group_by@ =~= all.subrange(c, d));
        assert(rest@ =~= all.take(c));
        let filter: Option<StoredQueryExpr> = match &self.filter {
            Some(_) => Some(rest.pop().unwrap()),
            None => None,
        };
        assert(stored_query::clause(filter) =~= all.subrange(b, c));
        assert(rest@ =~= all.take(b));
        let start: usize = rest.len() - self.columns.len();
        let items: Vec<StoredQueryExpr> = rest.split_off(start);
        assert(items@ =~= all.subrange(a, b));
        assert(rest@ =~= all.take(a));
        let columns: Vec<StoredSelectItem> = items_with(&self.columns, items);
        let distinct: Option<StoredDistinct> = match &self.distinct {
            Some(StoredDistinct::On(_)) => Some(StoredDistinct::On(rest)),
            Some(StoredDistinct::All) => Some(StoredDistinct::All),
            None => None,
        };
        assert(stored_query::distinct_keys(distinct) =~= all.take(a));
        let copy = StoredSelect {
            distinct,
            columns,
            from,
            filter,
            group_by,
            having,
            output_schema: copied_output(&self.output_schema),
        };
        proof {
            lemma_pieces(all, a, b, c, d);
        }
        copy
    }
}

impl StoredQueryV1 {
    /// Whether the query is a `SELECT` with an input.
    spec fn has_input(self) -> bool {
        self.body is Select && self.body->Select_0.from is Some
    }

    /// The query with other expressions, another input and other arms.
    fn with_parts(
        &self,
        exprs: Vec<StoredQueryExpr>,
        outer: Vec<StoredQueryExpr>,
        from: Option<StoredFrom>,
        arms: Option<(StoredQueryV1, StoredQueryV1)>,
    ) -> (copy: StoredQueryV1)
        requires
            exprs@.len() == self.direct_exprs().len(),
            outer@.len() == self.correlations@.len(),
            from is Some == self.has_input(),
            arms is Some == self.body is SetOp,
        ensures
            sameness::same_query_shape(*self, copy),
            copy.direct_exprs() == exprs@,
            forall|i: int|
                0 <= i < outer@.len() ==> (#[trigger] copy.correlations@[i]).outer == outer@[i],
            copy.body is Select ==> copy.body->Select_0.from == from,
            copy.body is SetOp ==> arms == Some(
                (*copy.body->SetOp_0.left, *copy.body->SetOp_0.right),
            ),
    {
        let ghost all = exprs@;
        let mut rest: Vec<StoredQueryExpr> = exprs;
        let start: usize = rest.len() - self.order_by.len();
        let keys: Vec<StoredQueryExpr> = rest.split_off(start);
        let order_by: Vec<StoredOrderBy> = keys_with(&self.order_by, keys);
        let body: StoredQueryBody = match &self.body {
            StoredQueryBody::Select(select) => StoredQueryBody::Select(
                Box::new(select.with_parts(rest, from)),
            ),
            StoredQueryBody::Values(values) => StoredQueryBody::Values(
                StoredValues {
                    rows: rows_with(&values.rows, rest),
                    output_schema: copied_output(&values.output_schema),
                },
            ),
            StoredQueryBody::SetOp(set_op) => {
                let (left, right): (StoredQueryV1, StoredQueryV1) = arms.unwrap();
                StoredQueryBody::SetOp(
                    StoredSetOp {
                        op: set_op.op,
                        all: set_op.all,
                        left: Box::new(left),
                        right: Box::new(right),
                        output_schema: copied_output(&set_op.output_schema),
                    },
                )
            },
        };
        let copy = StoredQueryV1 {
            version: self.version,
            body,
            order_by,
            limit: self.limit,
            offset: self.offset,
            row_lock: self.row_lock,
            correlations: correlations_with(&self.correlations, outer),
        };
        assert(copy.direct_exprs() =~= all);
        copy
    }

    proof fn lemma_same_direct(self, other: StoredQueryV1, count: nat)
        requires
            count <= self.direct_exprs().len(),
            forall|i: int|
                0 <= i < count ==> (#[trigger] self.direct_exprs()[i]).same(
                    other.direct_exprs()[i],
                ),
        ensures
            self.same_direct(other, count),
        decreases count,
    {
        if count > 0 {
            self.lemma_same_direct(other, (count - 1) as nat);
        }
    }

    proof fn lemma_same_outer(self, other: StoredQueryV1, count: nat)
        requires
            count <= self.correlations@.len(),
            forall|i: int|
                0 <= i < count ==> (#[trigger] self.correlations@[i]).outer.same(
                    other.correlations@[i].outer,
                ),
        ensures
            self.same_outer(other, count),
        decreases count,
    {
        if count > 0 {
            self.lemma_same_outer(other, (count - 1) as nat);
        }
    }
}

impl StoredQueryExpr {
    fn copied(&self) -> (copy: StoredQueryExpr)
        ensures
            self.same(copy),
        decreases *self,
    {
        let list: Vec<&StoredQueryExpr> = self.operand_list();
        let mut operands: Vec<StoredQueryExpr> = Vec::new();
        let mut i: usize = 0;
        while i < list.len()
            invariant
                i <= list@.len(),
                stored_query::refers_to(list@, self.operands()),
                operands@.len() == i,
                forall|j: int|
                    0 <= j < i ==> (#[trigger] self.operands()[j]).same(operands@[j]),
            decreases list@.len() - i,
        {
            proof {
                self.lemma_operand_is_smaller(i as int);
            }
            operands.push(list[i].copied());
            i += 1;
        }
        let subquery: Option<StoredQueryV1> = match self.subquery_in() {
            Some(query) => Some(query.copied()),
            None => None,
        };
        let copy = self.with_parts(operands, subquery);
        proof {
            self.lemma_same_operands(copy, self.operands().len());
        }
        copy
    }
}

impl StoredFrom {
    proof fn lemma_same_args(self, other: StoredFrom, count: nat)
        requires
            count <= self.function_args().len(),
            forall|i: int|
                0 <= i < count ==> (#[trigger] self.function_args()[i]).same(
                    other.function_args()[i],
                ),
        ensures
            self.same_args(other, count),
        decreases count,
    {
        if count > 0 {
            self.lemma_same_args(other, (count - 1) as nat);
        }
    }

    fn copied(&self) -> (copy: StoredFrom)
        ensures
            self.same(copy),
        decreases *self,
    {
        match self {
            StoredFrom::Table { table, range, alias } => StoredFrom::Table {
                table: *table,
                range: *range,
                alias: copied_alias(alias),
            },
            StoredFrom::System { relation_oid, range, alias, schema } => StoredFrom::System {
                relation_oid: *relation_oid,
                range: *range,
                alias: copied_alias(alias),
                schema: copied_range_columns(schema),
            },
            StoredFrom::Derived { query, range, alias, schema, lateral } => StoredFrom::Derived {
                query: Box::new(query.copied()),
                range: *range,
                alias: alias.clone(),
                schema: copied_range_columns(schema),
                lateral: *lateral,
            },
            StoredFrom::TableFunction { function, args, range, alias, schema } => {
                let mut copies: Vec<StoredQueryExpr> = Vec::new();
                let mut i: usize = 0;
                while i < args.len()
                    invariant
                        i <= args@.len(),
                        self.function_args() == args@,
                        copies@.len() == i,
                        forall|j: int| 0 <= j < i ==> (#[trigger] args@[j]).same(copies@[j]),
                    decreases args@.len() - i,
                {
                    proof {
                        self.lemma_arg_is_smaller(i as int);
                    }
                    copies.push(args[i].copied());
                    i += 1;
                }
                let copy = StoredFrom::TableFunction {
                    function: *function,
                    args: copies,
                    range: *range,
                    alias: alias.clone(),
                    schema: copied_range_columns(schema),
                };
                proof {
                    self.lemma_same_args(copy, args@.len());
                }
                copy
            },
            StoredFrom::Join { left, right, join_type, condition } => StoredFrom::Join {
                left: Box::new(left.copied()),
                right: Box::new(right.copied()),
                join_type: *join_type,
                condition: match condition {
                    Some(condition) => Some(condition.copied()),
                    None => None,
                },
            },
        }
    }
}

impl StoredQueryV1 {
    fn copied(&self) -> (copy: StoredQueryV1)
        ensures
            self.same(copy),
        decreases *self,
    {
        let list: Vec<&StoredQueryExpr> = self.direct_expr_list();
        let mut exprs: Vec<StoredQueryExpr> = Vec::new();
        let mut i: usize = 0;
        while i < list.len()
            invariant
                i <= list@.len(),
                stored_query::refers_to(list@, self.direct_exprs()),
                exprs@.len() == i,
                forall|j: int|
                    0 <= j < i ==> (#[trigger] self.direct_exprs()[j]).same(exprs@[j]),
            decreases list@.len() - i,
        {
            proof {
                self.lemma_direct_expr_is_smaller(i as int);
            }
            exprs.push(list[i].copied());
            i += 1;
        }
        let mut outer: Vec<StoredQueryExpr> = Vec::new();
        let mut j: usize = 0;
        while j < self.correlations.len()
            invariant
                j <= self.correlations@.len(),
                outer@.len() == j,
                forall|k: int|
                    0 <= k < j ==> (#[trigger] self.correlations@[k]).outer.same(outer@[k]),
            decreases self.correlations@.len() - j,
        {
            proof {
                self.lemma_outer_expr_is_smaller(j as int);
            }
            outer.push(self.correlations[j].outer.copied());
            j += 1;
        }
        let from: Option<StoredFrom> = match &self.body {
            StoredQueryBody::Select(select) => match &select.from {
                Some(from) => {
                    proof {
                        self.lemma_from_is_smaller();
                    }
                    Some(from.copied())
                },
                None => None,
            },
            _ => None,
        };
        let arms: Option<(StoredQueryV1, StoredQueryV1)> = match &self.body {
            StoredQueryBody::SetOp(set_op) => Some((set_op.left.copied(), set_op.right.copied())),
            _ => None,
        };
        let copy = self.with_parts(exprs, outer, from, arms);
        proof {
            self.lemma_same_direct(copy, self.direct_exprs().len());
            self.lemma_same_outer(copy, self.correlations@.len());
        }
        copy
    }
}

impl Clone for StoredQueryExpr {
    fn clone(&self) -> (copy: Self)
        ensures
            self.same(copy),
    {
        self.copied()
    }
}

impl Clone for StoredFrom {
    fn clone(&self) -> (copy: Self)
        ensures
            self.same(copy),
    {
        self.copied()
    }
}

impl Clone for StoredQueryV1 {
    fn clone(&self) -> (copy: Self)
        ensures
            self.same(copy),
    {
        self.copied()
    }
}

} // verus!
