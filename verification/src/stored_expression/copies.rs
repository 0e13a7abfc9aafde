//! Copies of durable expressions.

use vstd::prelude::*;

use crate::pg_type::PgType;
use crate::stored_expression::{self, StoredExpr, StoredExpression};

verus! {

/// A copy of an optional wire type.
pub(crate) fn copied_wire_type(pg_type: &Option<PgType>) -> (copy: Option<PgType>)
    ensures
        copy == *pg_type,
{
    match pg_type {
        Some(pg_type) => Some(pg_type.clone()),
        None => None,
    }
}

/// A copy of a list of numbers.
pub(crate) fn copied_numbers(numbers: &Vec<u32>) -> (copy: Vec<u32>)
    ensures
        copy@ == numbers@,
{
    let mut copy: Vec<u32> = Vec::new();
    copy.extend_from_slice(numbers.as_slice());
    assert(copy@ =~= numbers@);
    copy
}

/// The pairs that a list is made of.
fn paired(list: Vec<StoredExpr>) -> (pairs: Vec<(StoredExpr, StoredExpr)>)
    requires
        list@.len() % 2 == 0,
    ensures
        stored_expression::flattened(pairs@) == list@,
{
    let ghost all = list@;
    let mut rest: Vec<StoredExpr> = list;
    let mut backwards: Vec<(StoredExpr, StoredExpr)> = Vec::new();
    while rest.len() > 0
        invariant
            rest@.len() % 2 == 0,
            rest@.len() + 2 * backwards@.len() == all.len(),
            rest@ == all.take(rest@.len() as int),
            forall|i: int|
                0 <= i < backwards@.len() ==> (#[trigger] backwards@[i]) == (
                all[all.len() - 2 * i - 2],
                all[all.len() - 2 * i - 1]),
        decreases rest@.len(),
    {
        let second: StoredExpr = rest.pop().unwrap();
        let first: StoredExpr = rest.pop().unwrap();
        backwards.push((first, second));
    }
    let mut pairs: Vec<(StoredExpr, StoredExpr)> = Vec::new();
    while backwards.len() > 0
        invariant
            2 * (pairs@.len() + backwards@.len()) == all.len(),
            forall|i: int|
                0 <= i < backwards@.len() ==> (#[trigger] backwards@[i]) == (
                all[all.len() - 2 * i - 2],
                all[all.len() - 2 * i - 1]),
            forall|i: int|
                0 <= i < pairs@.len() ==> (#[trigger] pairs@[i]) == (all[2 * i], all[2 * i + 1]),
        decreases backwards@.len(),
    {
        let pair: (StoredExpr, StoredExpr) = backwards.pop().unwrap();
        pairs.push(pair);
    }
    assert(stored_expression::flattened(pairs@) =~= all);
    pairs
}

impl StoredExpr {
    /// The same node with other operands.
    fn with_operands(&self, operands: Vec<StoredExpr>) -> (copy: StoredExpr)
        requires
            operands@.len() == self.operands().len(),
        ensures
            self.same_node(copy),
            copy.operands() == operands@,
    {
        let ghost all = operands@;
        let mut rest: Vec<StoredExpr> = operands;
        let data_type = self.data_type().clone();
        let nullable: bool = self.nullable();
        let copy = match self {
            StoredExpr::Literal { value, .. } => StoredExpr::Literal {
                value: value.clone(),
                data_type,
                nullable,
            },
            StoredExpr::Column { column, .. } => StoredExpr::Column {
                column: *column,
                data_type,
                nullable,
            },
            StoredExpr::Binary { op, .. } => {
                let right = Box::new(rest.pop().unwrap());
                let left = Box::new(rest.pop().unwrap());
                StoredExpr::Binary { left, op: *op, right, data_type, nullable }
            },
            StoredExpr::Unary { op, .. } => StoredExpr::Unary {
                op: *op,
                expr: Box::new(rest.pop().unwrap()),
                data_type,
                nullable,
            },
            StoredExpr::Function { function, pg_type, .. } => StoredExpr::Function {
                function: *function,
                args: rest,
                data_type,
                pg_type: copied_wire_type(pg_type),
                nullable,
            },
            StoredExpr::Array { dimensions, element_type, .. } => StoredExpr::Array {
                elements: rest,
                dimensions: copied_numbers(dimensions),
                element_type: element_type.clone(),
                data_type,
                nullable,
            },
            StoredExpr::ArraySubscript { .. } => {
                let subscripts: Vec<StoredExpr> = rest.split_off(1);
                let array = Box::new(rest.pop().unwrap());
                StoredExpr::ArraySubscript { array, subscripts, data_type, nullable }
            },
            StoredExpr::Any { op, .. } => {
                let array = Box::new(rest.pop().unwrap());
                let left = Box::new(rest.pop().unwrap());
                StoredExpr::Any { left, op: *op, array, data_type, nullable }
            },
            StoredExpr::Nextval { sequence, .. } => StoredExpr::Nextval {
                sequence: *sequence,
                data_type,
                nullable,
            },
            StoredExpr::Currval { sequence, .. } => StoredExpr::Currval {
                sequence: *sequence,
                data_type,
                nullable,
            },
            StoredExpr::Setval { sequence, is_called, .. } => {
                let is_called = match is_called {
                    Some(_) => Some(Box::new(rest.pop().unwrap())),
                    None => None,
                };
                let value = Box::new(rest.pop().unwrap());
                StoredExpr::Setval { sequence: *sequence, value, is_called, data_type, nullable }
            },
            StoredExpr::IsNull { .. } => StoredExpr::IsNull {
                expr: Box::new(rest.pop().unwrap()),
                data_type,
                nullable,
            },
            StoredExpr::IsNotNull { .. } => StoredExpr::IsNotNull {
                expr: Box::new(rest.pop().unwrap()),
                data_type,
                nullable,
            },
            StoredExpr::InList { negated, .. } => {
                let list: Vec<StoredExpr> = rest.split_off(1);
                let expr = Box::new(rest.pop().unwrap());
                StoredExpr::InList { expr, list, negated: *negated, data_type, nullable }
            },
            StoredExpr::Between { negated, .. } => {
                let high = Box::new(rest.pop().unwrap());
                let low = Box::new(rest.pop().unwrap());
                let expr = Box::new(rest.pop().unwrap());
                StoredExpr::Between { expr, low, high, negated: *negated, data_type, nullable }
            },
            StoredExpr::Like { negated, case_insensitive, escape, .. } => {
                let pattern = Box::new(rest.pop().unwrap());
                let expr = Box::new(rest.pop().unwrap());
                StoredExpr::Like {
                    expr,
                    pattern,
                    negated: *negated,
                    case_insensitive: *case_insensitive,
                    escape: *escape,
                    data_type,
                    nullable,
                }
            },
            StoredExpr::Case { operand, else_clause, .. } => {
                let else_clause = match else_clause {
                    Some(_) => Some(Box::new(rest.pop().unwrap())),
                    None => None,
                };
                let (operand, clauses): (Option<Box<StoredExpr>>, Vec<StoredExpr>) = match operand {
                    Some(_) => {
                        let clauses = rest.split_off(1);
                        (Some(Box::new(rest.pop().unwrap())), clauses)
                    },
                    None => (None, rest),
                };
                StoredExpr::Case {
                    operand,
                    when_clauses: paired(clauses),
                    else_clause,
                    data_type,
                    nullable,
                }
            },
            StoredExpr::Cast { pg_type, .. } => StoredExpr::Cast {
                expr: Box::new(rest.pop().unwrap()),
                data_type,
                pg_type: pg_type.clone(),
                nullable,
            },
        };
        assert(copy.operands() =~= all);
        copy
    }

    proof fn lemma_same_operands(self, other: StoredExpr, count: nat)
        requires
            count <= self.operands().len(),
            forall|i: int|
                0 <= i < count ==> (#[trigger] self.operands()[i]).same(other.operands()[i]),
        ensures
            self.same_operands(other, count),
        decreases count,
    {
        if count > 0 {
            self.lemma_same_operands(other, (count - 1) as nat);
        }
    }
}

impl Clone for StoredExpr {
    fn clone(&self) -> (copy: Self)
        ensures
            self.same(copy),
        decreases *self,
    {
        let list: Vec<&StoredExpr> = self.operand_list();
        let mut operands: Vec<StoredExpr> = Vec::new();
        let mut i: usize = 0;
        while i < list.len()
            invariant
                i <= list@.len(),
                list@.len() == self.operands().len(),
                forall|j: int|
                    0 <= j < list@.len() ==> *(#[trigger] list@[j]) == self.operands()[j],
                operands@.len() == i,
                forall|j: int|
                    0 <= j < i ==> (#[trigger] self.operands()[j]).same(operands@[j]),
            decreases list@.len() - i,
        {
            proof {
                self.lemma_operand_is_smaller(i as int);
            }
            operands.push(list[i].clone());
            i += 1;
        }
        let copy = self.with_operands(operands);
        proof {
            self.lemma_same_operands(copy, self.operands().len());
        }
        copy
    }
}

impl Clone for StoredExpression {
    fn clone(&self) -> (copy: Self)
        ensures
            self.same(copy),
    {
        StoredExpression {
            version: self.version,
            sql: self.sql.clone(),
            root: self.root.clone(),
            data_type: self.data_type.clone(),
            pg_type: copied_wire_type(&self.pg_type),
            nullable: self.nullable,
        }
    }
}

} // verus!
