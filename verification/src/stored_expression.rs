//! Durable scalar expressions: their shape and type rules.

pub mod copies;
pub mod declarations;

use vstd::prelude::*;

use crate::array::value_matches_type;
use crate::error::{self, DbError, ErrorView, Result};
use crate::functions::registry::{self, ScalarFunction};
use crate::functions::signature::{ArgType, Verdict};
use crate::ids::{ColumnObjectId, FunctionId, SequenceId};
use crate::pg_type::PgType;
use crate::schema::DataType;
use crate::statistics::value_is_finite;
use crate::text;
use crate::typing::{self, Typing};
use crate::value::Value;

verus! {

pub const STORED_EXPRESSION_VERSION: u32 = 1;

pub const MAX_STORED_EXPRESSION_NODES: usize = 16_384;

pub const MAX_STORED_EXPRESSION_LIST_ITEMS: usize = 4_096;

pub const MAX_STORED_EXPRESSION_DEPTH: usize = 128;

pub const MAX_STORED_EXPRESSION_SQL_BYTES: usize = 1_048_576;

/// A durable expression with its canonical SQL and its declared type.
#[derive(Debug)]
pub struct StoredExpression {
    pub version: u32,
    pub sql: String,
    pub root: StoredExpr,
    pub data_type: DataType,
    pub pg_type: Option<PgType>,
    pub nullable: bool,
}

/// A node of a durable expression, with the type and nullability that the binder
/// gave it.
#[derive(Debug)]
pub enum StoredExpr {
    Literal { value: Value, data_type: DataType, nullable: bool },
    Column { column: ColumnObjectId, data_type: DataType, nullable: bool },
    Binary {
        left: Box<StoredExpr>,
        op: StoredBinOp,
        right: Box<StoredExpr>,
        data_type: DataType,
        nullable: bool,
    },
    Unary { op: StoredUnaryOp, expr: Box<StoredExpr>, data_type: DataType, nullable: bool },
    Function {
        function: FunctionId,
        args: Vec<StoredExpr>,
        data_type: DataType,
        pg_type: Option<PgType>,
        nullable: bool,
    },
    Array {
        elements: Vec<StoredExpr>,
        dimensions: Vec<u32>,
        element_type: DataType,
        data_type: DataType,
        nullable: bool,
    },
    ArraySubscript {
        array: Box<StoredExpr>,
        subscripts: Vec<StoredExpr>,
        data_type: DataType,
        nullable: bool,
    },
    Any {
        left: Box<StoredExpr>,
        op: StoredBinOp,
        array: Box<StoredExpr>,
        data_type: DataType,
        nullable: bool,
    },
    Nextval { sequence: SequenceId, data_type: DataType, nullable: bool },
    Currval { sequence: SequenceId, data_type: DataType, nullable: bool },
    Setval {
        sequence: SequenceId,
        value: Box<StoredExpr>,
        is_called: Option<Box<StoredExpr>>,
        data_type: DataType,
        nullable: bool,
    },
    IsNull { expr: Box<StoredExpr>, data_type: DataType, nullable: bool },
    IsNotNull { expr: Box<StoredExpr>, data_type: DataType, nullable: bool },
    InList {
        expr: Box<StoredExpr>,
        list: Vec<StoredExpr>,
        negated: bool,
        data_type: DataType,
        nullable: bool,
    },
    Between {
        expr: Box<StoredExpr>,
        low: Box<StoredExpr>,
        high: Box<StoredExpr>,
        negated: bool,
        data_type: DataType,
        nullable: bool,
    },
    Like {
        expr: Box<StoredExpr>,
        pattern: Box<StoredExpr>,
        negated: bool,
        case_insensitive: bool,
        escape: Option<char>,
        data_type: DataType,
        nullable: bool,
    },
    Case {
        operand: Option<Box<StoredExpr>>,
        when_clauses: Vec<(StoredExpr, StoredExpr)>,
        else_clause: Option<Box<StoredExpr>>,
        data_type: DataType,
        nullable: bool,
    },
    Cast { expr: Box<StoredExpr>, data_type: DataType, pg_type: PgType, nullable: bool },
}

#[derive(Clone, Copy, Debug, PartialEq, Eq, Structural)]
pub enum StoredBinOp {
    Add,
    Sub,
    Mul,
    Div,
    Mod,
    Eq,
    Neq,
    Lt,
    LtEq,
    Gt,
    GtEq,
    And,
    Or,
    Concat,
    IsDistinctFrom,
    IsNotDistinctFrom,
}

#[derive(Clone, Copy, Debug, PartialEq, Eq, Structural)]
pub enum StoredUnaryOp {
    Neg,
    Not,
}

/// No operand or one.
pub open spec fn optional(operand: Option<Box<StoredExpr>>) -> Seq<StoredExpr> {
    match operand {
        Some(operand) => seq![*operand],
        None => Seq::empty(),
    }
}

/// The members of a list of pairs, in order.
pub open spec fn flattened(pairs: Seq<(StoredExpr, StoredExpr)>) -> Seq<StoredExpr> {
    Seq::new(
        2 * pairs.len(),
        |i: int|
            if i % 2 == 0 {
                pairs[i / 2].0
            } else {
                pairs[i / 2].1
            },
    )
}

/// A visitor was called with each of these sequences in turn: with the first in its first
/// state, with the next in the state that it was in after that, and so on to its last
/// state.
pub open spec fn visits_sequences<F: FnMut(SequenceId)>(
    states: Seq<F>,
    sequences: Seq<SequenceId>,
) -> bool {
    states.len() == sequences.len() + 1 && forall|i: int|
        0 <= i < sequences.len() ==> call_ensures(#[trigger] states[i], (sequences[i],), ())
}

impl StoredExpr {
    /// The declared type of the expression.
    pub open spec fn spec_data_type(self) -> DataType {
        match self {
            StoredExpr::Literal { data_type, .. }
            | StoredExpr::Column { data_type, .. }
            | StoredExpr::Binary { data_type, .. }
            | StoredExpr::Unary { data_type, .. }
            | StoredExpr::Function { data_type, .. }
            | StoredExpr::Array { data_type, .. }
            | StoredExpr::ArraySubscript { data_type, .. }
            | StoredExpr::Any { data_type, .. }
            | StoredExpr::Nextval { data_type, .. }
            | StoredExpr::Currval { data_type, .. }
            | StoredExpr::Setval { data_type, .. }
            | StoredExpr::IsNull { data_type, .. }
            | StoredExpr::IsNotNull { data_type, .. }
            | StoredExpr::InList { data_type, .. }
            | StoredExpr::Between { data_type, .. }
            | StoredExpr::Like { data_type, .. }
            | StoredExpr::Case { data_type, .. }
            | StoredExpr::Cast { data_type, .. } => data_type,
        }
    }

    /// Whether the expression is declared to be able to be NULL.
    pub open spec fn spec_nullable(self) -> bool {
        match self {
            StoredExpr::Literal { nullable, .. }
            | StoredExpr::Column { nullable, .. }
            | StoredExpr::Binary { nullable, .. }
            | StoredExpr::Unary { nullable, .. }
            | StoredExpr::Function { nullable, .. }
            | StoredExpr::Array { nullable, .. }
            | StoredExpr::ArraySubscript { nullable, .. }
            | StoredExpr::Any { nullable, .. }
            | StoredExpr::Nextval { nullable, .. }
            | StoredExpr::Currval { nullable, .. }
            | StoredExpr::Setval { nullable, .. }
            | StoredExpr::IsNull { nullable, .. }
            | StoredExpr::IsNotNull { nullable, .. }
            | StoredExpr::InList { nullable, .. }
            | StoredExpr::Between { nullable, .. }
            | StoredExpr::Like { nullable, .. }
            | StoredExpr::Case { nullable, .. }
            | StoredExpr::Cast { nullable, .. } => nullable,
        }
    }

    /// The direct operands of the expression, in order.
    pub open spec fn operands(self) -> Seq<StoredExpr> {
        match self {
            StoredExpr::Literal { .. }
            | StoredExpr::Column { .. }
            | StoredExpr::Nextval { .. }
            | StoredExpr::Currval { .. } => Seq::empty(),
            StoredExpr::Binary { left, right, .. } => seq![*left, *right],
            StoredExpr::Any { left, array, .. } => seq![*left, *array],
            StoredExpr::Unary { expr, .. }
            | StoredExpr::IsNull { expr, .. }
            | StoredExpr::IsNotNull { expr, .. }
            | StoredExpr::Cast { expr, .. } => seq![*expr],
            StoredExpr::Function { args, .. } => args@,
            StoredExpr::Array { elements, .. } => elements@,
            StoredExpr::ArraySubscript { array, subscripts, .. } => seq![*array] + subscripts@,
            StoredExpr::Setval { value, is_called, .. } => seq![*value] + optional(is_called),
            StoredExpr::InList { expr, list, .. } => seq![*expr] + list@,
            StoredExpr::Between { expr, low, high, .. } => seq![*expr, *low, *high],
            StoredExpr::Like { expr, pattern, .. } => seq![*expr, *pattern],
            StoredExpr::Case { operand, when_clauses, else_clause, .. } => optional(operand)
                + flattened(when_clauses@) + optional(else_clause),
        }
    }

    /// Operands are smaller than the expression they belong to.
    pub proof fn lemma_operand_is_smaller(self, index: int)
        requires
            0 <= index < self.operands().len(),
        ensures
            decreases_to!(self => self.operands()[index]),
    {
        let operand = self.operands()[index];
        match self {
            StoredExpr::Function { args, .. } => {
                assert(operand == args@[index]);
            },
            StoredExpr::Array { elements, .. } => {
                assert(operand == elements@[index]);
            },
            StoredExpr::ArraySubscript { array, subscripts, .. } => {
                if index > 0 {
                    assert(operand == subscripts@[index - 1]);
                }
            },
            StoredExpr::Setval { value, is_called, .. } => {
                if index > 0 {
                    assert(operand == *is_called->0);
                }
            },
            StoredExpr::InList { expr, list, .. } => {
                if index > 0 {
                    assert(operand == list@[index - 1]);
                }
            },
            StoredExpr::Case { operand: subject, when_clauses, else_clause, .. } => {
                let first = optional(subject).len() as int;
                let pairs = when_clauses@.len() as int;
                if index < first {
                    assert(operand == *subject->0);
                } else if index < first + 2 * pairs {
                    let j = index - first;
                    if j % 2 == 0 {
                        assert(operand == when_clauses@[j / 2].0);
                    } else {
                        assert(operand == when_clauses@[j / 2].1);
                    }
                } else {
                    assert(operand == *else_clause->0);
                }
            },
            _ => {},
        }
    }

    /// The number of nodes of the expression.
    pub open spec fn node_count(self) -> nat
        decreases self, self.operands().len() + 1,
    {
        1 + self.operand_node_count(self.operands().len())
    }

    /// The number of nodes of the first `count` operands.
    pub open spec fn operand_node_count(self, count: nat) -> nat
        decreases self, count,
    {
        if count == 0 || count > self.operands().len() {
            0
        } else {
            proof {
                self.lemma_operand_is_smaller(count - 1);
            }
            self.operand_node_count((count - 1) as nat) + self.operands()[count - 1].node_count()
        }
    }

    /// The number of nodes on the longest path from the root to a leaf.
    pub open spec fn depth(self) -> nat
        decreases self, self.operands().len() + 1,
    {
        1 + self.operand_depth(self.operands().len())
    }

    /// The depth of the deepest of the first `count` operands.
    pub open spec fn operand_depth(self, count: nat) -> nat
        decreases self, count,
    {
        if count == 0 || count > self.operands().len() {
            0
        } else {
            proof {
                self.lemma_operand_is_smaller(count - 1);
            }
            let before = self.operand_depth((count - 1) as nat);
            let last = self.operands()[count - 1].depth();
            if last > before {
                last
            } else {
                before
            }
        }
    }

    /// The sequence that the node itself names.
    pub open spec fn own_sequence(self) -> Seq<SequenceId> {
        match self {
            StoredExpr::Nextval { sequence, .. }
            | StoredExpr::Currval { sequence, .. }
            | StoredExpr::Setval { sequence, .. } => seq![sequence],
            _ => Seq::empty(),
        }
    }

    /// The sequences that the expression names, each node before its operands.
    pub open spec fn sequences(self) -> Seq<SequenceId>
        decreases self, self.operands().len() + 1,
    {
        self.own_sequence() + self.operand_sequences(self.operands().len())
    }

    /// The sequences that the first `count` operands name.
    pub open spec fn operand_sequences(self, count: nat) -> Seq<SequenceId>
        decreases self, count,
    {
        if count == 0 || count > self.operands().len() {
            Seq::empty()
        } else {
            proof {
                self.lemma_operand_is_smaller(count - 1);
            }
            self.operand_sequences((count - 1) as nat) + self.operands()[count - 1].sequences()
        }
    }

    pub fn data_type(&self) -> (data_type: &DataType)
        ensures
            *data_type == self.spec_data_type(),
    {
        match self {
            StoredExpr::Literal { data_type, .. }
            | StoredExpr::Column { data_type, .. }
            | StoredExpr::Binary { data_type, .. }
            | StoredExpr::Unary { data_type, .. }
            | StoredExpr::Function { data_type, .. }
            | StoredExpr::Array { data_type, .. }
            | StoredExpr::ArraySubscript { data_type, .. }
            | StoredExpr::Any { data_type, .. }
            | StoredExpr::Nextval { data_type, .. }
            | StoredExpr::Currval { data_type, .. }
            | StoredExpr::Setval { data_type, .. }
            | StoredExpr::IsNull { data_type, .. }
            | StoredExpr::IsNotNull { data_type, .. }
            | StoredExpr::InList { data_type, .. }
            | StoredExpr::Between { data_type, .. }
            | StoredExpr::Like { data_type, .. }
            | StoredExpr::Case { data_type, .. }
            | StoredExpr::Cast { data_type, .. } => data_type,
        }
    }

    pub fn nullable(&self) -> (nullable: bool)
        ensures
            nullable == self.spec_nullable(),
    {
        match self {
            StoredExpr::Literal { nullable, .. }
            | StoredExpr::Column { nullable, .. }
            | StoredExpr::Binary { nullable, .. }
            | StoredExpr::Unary { nullable, .. }
            | StoredExpr::Function { nullable, .. }
            | StoredExpr::Array { nullable, .. }
            | StoredExpr::ArraySubscript { nullable, .. }
            | StoredExpr::Any { nullable, .. }
            | StoredExpr::Nextval { nullable, .. }
            | StoredExpr::Currval { nullable, .. }
            | StoredExpr::Setval { nullable, .. }
            | StoredExpr::IsNull { nullable, .. }
            | StoredExpr::IsNotNull { nullable, .. }
            | StoredExpr::InList { nullable, .. }
            | StoredExpr::Between { nullable, .. }
            | StoredExpr::Like { nullable, .. }
            | StoredExpr::Case { nullable, .. }
            | StoredExpr::Cast { nullable, .. } => *nullable,
        }
    }

    /// The direct operands of the expression, in order.
    pub(crate) fn operand_list<'a>(&'a self) -> (list: Vec<&'a StoredExpr>)
        ensures
            list@.len() == self.operands().len(),
            forall|i: int| 0 <= i < list@.len() ==> *(#[trigger] list@[i]) == self.operands()[i],
    {
        let mut list: Vec<&'a StoredExpr> = Vec::new();
        match self {
            StoredExpr::Literal { .. }
            | StoredExpr::Column { .. }
            | StoredExpr::Nextval { .. }
            | StoredExpr::Currval { .. } => {},
            StoredExpr::Binary { left, right, .. } => {
                list.push(left);
                list.push(right);
            },
            StoredExpr::Any { left, array, .. } => {
                list.push(left);
                list.push(array);
            },
            StoredExpr::Unary { expr, .. }
            | StoredExpr::IsNull { expr, .. }
            | StoredExpr::IsNotNull { expr, .. }
            | StoredExpr::Cast { expr, .. } => {
                list.push(expr);
            },
            StoredExpr::Function { args, .. } => push_all(&mut list, args),
            StoredExpr::Array { elements, .. } => push_all(&mut list, elements),
            StoredExpr::ArraySubscript { array, subscripts, .. } => {
                list.push(array);
                push_all(&mut list, subscripts);
            },
            StoredExpr::Setval { value, is_called, .. } => {
                list.push(value);
                if let Some(is_called) = is_called {
                    list.push(is_called);
                }
            },
            StoredExpr::InList { expr, list: items, .. } => {
                list.push(expr);
                push_all(&mut list, items);
            },
            StoredExpr::Between { expr, low, high, .. } => {
                list.push(expr);
                list.push(low);
                list.push(high);
            },
            StoredExpr::Like { expr, pattern, .. } => {
                list.push(expr);
                list.push(pattern);
            },
            StoredExpr::Case { operand, when_clauses, else_clause, .. } => {
                if let Some(operand) = operand {
                    list.push(operand);
                }
                push_pairs(&mut list, when_clauses);
                if let Some(else_clause) = else_clause {
                    list.push(else_clause);
                }
            },
        }
        list
    }

    /// The sequence identities embedded in this durable expression, in the order in
    /// which a visit meets them.
    pub fn sequence_references(&self) -> (references: Vec<SequenceId>)
        ensures
            references@ == self.sequences(),
        decreases *self,
    {
        let mut references: Vec<SequenceId> = Vec::new();
        match self {
            StoredExpr::Nextval { sequence, .. }
            | StoredExpr::Currval { sequence, .. }
            | StoredExpr::Setval { sequence, .. } => {
                references.push(*sequence);
            },
            _ => {},
        }
        let list: Vec<&StoredExpr> = self.operand_list();
        let mut i: usize = 0;
        assert(references@ == self.own_sequence() + self.operand_sequences(0));
        while i < list.len()
            invariant
                i <= list@.len(),
                list@.len() == self.operands().len(),
                forall|j: int|
                    0 <= j < list@.len() ==> *(#[trigger] list@[j]) == self.operands()[j],
                references@ == self.own_sequence() + self.operand_sequences(i as nat),
            decreases list@.len() - i,
        {
            proof {
                self.lemma_operand_is_smaller(i as int);
            }
            let mut found: Vec<SequenceId> = list[i].sequence_references();
            let ghost added = found@;
            references.append(&mut found);
            i += 1;
            assert(self.operand_sequences(i as nat) == self.operand_sequences((i - 1) as nat)
                + added);
        }
        references
    }

    /// Returns whether this durable expression references the given sequence.
    pub fn references_sequence(&self, target: SequenceId) -> (references: bool)
        ensures
            references == self.sequences().contains(target),
    {
        let found: Vec<SequenceId> = self.sequence_references();
        let mut i: usize = 0;
        while i < found.len()
            invariant
                i <= found@.len(),
                found@ == self.sequences(),
                forall|j: int| 0 <= j < i ==> #[trigger] found@[j] != target,
            decreases found@.len() - i,
        {
            if found[i] == target {
                assert(self.sequences()[i as int] == target);
                return true;
            }
            i += 1;
        }
        false
    }

    /// Visits every sequence identity embedded in this durable expression, in the
    /// order of [`StoredExpr::sequence_references`].
    pub fn for_each_sequence_reference<F: FnMut(SequenceId)>(&self, visitor: &mut F)
        requires
            forall|visitor: F, sequence: SequenceId| call_requires(visitor, (sequence,)),
        ensures
            exists|states: Seq<F>| #[trigger]
                visits_sequences(states, self.sequences()) && states.first() == *old(visitor)
                    && states.last() == *final(visitor),
    {
        let found: Vec<SequenceId> = self.sequence_references();
        let ghost mut states: Seq<F> = seq![*visitor];
        let mut i: usize = 0;
        while i < found.len()
            invariant
                i <= found@.len(),
                found@ == self.sequences(),
                forall|visitor: F, sequence: SequenceId| call_requires(visitor, (sequence,)),
                visits_sequences(states, found@.take(i as int)),
                states.first() == *old(visitor),
                states.last() == *visitor,
            decreases found@.len() - i,
        {
            visitor(found[i]);
            proof {
                states = states.push(*visitor);
            }
            i += 1;
        }
        assert(found@.take(i as int) =~= found@);
    }

    proof fn lemma_counts_grow(self, a: nat, b: nat)
        requires
            a <= b <= self.operands().len(),
        ensures
            self.operand_node_count(a) <= self.operand_node_count(b),
            self.operand_depth(a) <= self.operand_depth(b),
        decreases b,
    {
        if a < b {
            self.lemma_counts_grow(a, (b - 1) as nat);
        }
    }

    fn count_nodes(&self, depth: usize, nodes: usize, max_depth: usize) -> (counted: Option<
        (usize, usize),
    >)
        requires
            depth > 0,
        ensures
            match counted {
                Some((total, deepest)) => {
                    &&& nodes + self.node_count() <= usize::MAX
                    &&& depth - 1 + self.depth() < usize::MAX
                    &&& total == nodes + self.node_count()
                    &&& deepest == if depth - 1 + self.depth() > max_depth {
                        depth - 1 + self.depth()
                    } else {
                        max_depth as int
                    }
                },
                None => nodes + self.node_count() > usize::MAX || depth - 1 + self.depth()
                    >= usize::MAX,
            },
        decreases *self,
    {
        let mut total: usize = match nodes.checked_add(1) {
            Some(total) => total,
            None => return None,
        };
        let mut deepest: usize = if depth > max_depth {
            depth
        } else {
            max_depth
        };
        let next: usize = match depth.checked_add(1) {
            Some(next) => next,
            None => return None,
        };
        let list: Vec<&StoredExpr> = self.operand_list();
        let mut i: usize = 0;
        while i < list.len()
            invariant
                i <= list@.len(),
                list@.len() == self.operands().len(),
                forall|j: int|
                    0 <= j < list@.len() ==> *(#[trigger] list@[j]) == self.operands()[j],
                next == depth + 1,
                depth > 0,
                total == nodes + 1 + self.operand_node_count(i as nat),
                depth + self.operand_depth(i as nat) < usize::MAX,
                deepest == if depth + self.operand_depth(i as nat) > max_depth {
                    depth + self.operand_depth(i as nat)
                } else {
                    max_depth as int
                },
            decreases list@.len() - i,
        {
            proof {
                self.lemma_operand_is_smaller(i as int);
                self.lemma_counts_grow((i + 1) as nat, self.operands().len());
            }
            match list[i].count_nodes(next, total, deepest) {
                Some((count, reached)) => {
                    total = count;
                    deepest = reached;
                },
                None => return None,
            }
            i += 1;
        }
        Some((total, deepest))
    }

    /// The number of nodes and the depth of the expression. `None` means that they
    /// are too large to count.
    pub fn node_count_and_depth(&self) -> (counted: Option<(usize, usize)>)
        ensures
            match counted {
                Some((nodes, depth)) => nodes == self.node_count() && depth == self.depth() && depth
                    < usize::MAX,
                None => self.node_count() > usize::MAX || self.depth() >= usize::MAX,
            },
    {
        self.count_nodes(1, 0, 0)
    }
}

fn push_all<'a>(list: &mut Vec<&'a StoredExpr>, items: &'a Vec<StoredExpr>)
    ensures
        final(list)@.len() == old(list)@.len() + items@.len(),
        forall|i: int| 0 <= i < old(list)@.len() ==> #[trigger] final(list)@[i] == old(list)@[i],
        forall|i: int|
            0 <= i < items@.len() ==> *final(list)@[old(list)@.len() + i] == #[trigger] items@[i],
{
    let ghost start = list@;
    let mut i: usize = 0;
    while i < items.len()
        invariant
            i <= items@.len(),
            list@.len() == start.len() + i,
            forall|j: int| 0 <= j < start.len() ==> #[trigger] list@[j] == start[j],
            forall|j: int| 0 <= j < i ==> *list@[start.len() + j] == #[trigger] items@[j],
        decreases items@.len() - i,
    {
        list.push(&items[i]);
        i += 1;
    }
}

fn push_pairs<'a>(list: &mut Vec<&'a StoredExpr>, pairs: &'a Vec<(StoredExpr, StoredExpr)>)
    ensures
        final(list)@.len() == old(list)@.len() + 2 * pairs@.len(),
        forall|i: int| 0 <= i < old(list)@.len() ==> #[trigger] final(list)@[i] == old(list)@[i],
        forall|i: int|
            0 <= i < 2 * pairs@.len() ==> *final(list)@[old(list)@.len() + i]
                == #[trigger] flattened(pairs@)[i],
{
    let ghost start = list@;
    let mut i: usize = 0;
    while i < pairs.len()
        invariant
            i <= pairs@.len(),
            list@.len() == start.len() + 2 * i,
            forall|j: int| 0 <= j < start.len() ==> #[trigger] list@[j] == start[j],
            forall|j: int|
                0 <= j < 2 * i ==> *list@[start.len() + j] == #[trigger] flattened(pairs@)[j],
        decreases pairs@.len() - i,
    {
        list.push(&pairs[i].0);
        list.push(&pairs[i].1);
        i += 1;
        proof {
            assert(flattened(pairs@)[2 * i - 2] == pairs@[i - 1].0);
            assert(flattened(pairs@)[2 * i - 1] == pairs@[i - 1].1);
        }
    }
}

/// The declared type metadata is not what the operands give.
pub open spec fn inconsistency(declared: Typing, expected: Typing) -> Option<ErrorView> {
    if declared == expected {
        None
    } else {
        Some(error::internal_error("stored expression has inconsistent type metadata"@))
    }
}

/// A declared typing, checked against the one that a rule gives, or the error for
/// operands that the rule does not take.
pub open spec fn metadata_problem(
    declared: Typing,
    expected: Option<Typing>,
    message: Seq<char>,
) -> Option<ErrorView> {
    match expected {
        Some(expected) => inconsistency(declared, expected),
        None => Some(error::internal_error(message)),
    }
}

/// A list has too many items.
pub open spec fn list_problem(len: nat) -> Option<ErrorView> {
    if len > MAX_STORED_EXPRESSION_LIST_ITEMS {
        Some(error::internal_error("stored expression list exceeds durable size limit"@))
    } else {
        None
    }
}

/// The typings of a list of expressions.
pub open spec fn typings(list: Seq<StoredExpr>) -> Seq<Typing> {
    Seq::new(list.len(), |i: int| list[i].typing())
}

/// The types of a list of expressions.
pub open spec fn data_types(list: Seq<StoredExpr>) -> Seq<DataType> {
    Seq::new(list.len(), |i: int| list[i].spec_data_type())
}

/// The nullabilities of a list of expressions.
pub open spec fn nullabilities(list: Seq<StoredExpr>) -> Seq<bool> {
    Seq::new(list.len(), |i: int| list[i].spec_nullable())
}

/// An expression as a signature sees it.
pub open spec fn argument(expr: &StoredExpr) -> ArgType<'_> {
    ArgType {
        data_type: expr.spec_data_type(),
        literal: match expr {
            StoredExpr::Literal { value, .. } => Some(value),
            _ => None,
        },
    }
}

/// A list of expressions as a signature sees it.
pub open spec fn arguments(list: Seq<StoredExpr>) -> Seq<ArgType<'static>> {
    Seq::new(list.len(), |i: int| argument(&list[i]))
}

/// The first flaw in the metadata of a function call.
pub open spec fn call_problem(
    function: FunctionId,
    args: Seq<StoredExpr>,
    declared: Typing,
    pg_type: Option<PgType>,
) -> Option<ErrorView> {
    match registry::function_with_id(function) {
        None => Some(
            error::internal_error(
                "stored expression references unknown function id "@ + text::decimal_text(
                    function as nat,
                ),
            ),
        ),
        Some((registered, _)) => {
            if !registry::id_matches(function, data_types(args), declared.data_type, pg_type) {
                Some(
                    error::internal_error(
                        "stored function id "@ + text::decimal_text(function as nat)
                            + " does not match its durable signature"@,
                    ),
                )
            } else {
                match registered.signature.verdict(registered.name, arguments(args)) {
                    Verdict::Err(_) => Some(
                        error::internal_error(
                            "stored function id "@ + text::decimal_text(function as nat)
                                + " has invalid argument types"@,
                        ),
                    ),
                    Verdict::Ok(data_type) => inconsistency(
                        declared,
                        typing::typing(data_type, registered.result_nullable(nullabilities(args))),
                    ),
                }
            }
        },
    }
}

/// The position of the first `WHEN` among the operands of a `CASE`.
pub open spec fn first_branch(operand: Option<Box<StoredExpr>>) -> int {
    optional(operand).len() as int
}

impl StoredExpr {
    /// The declared type and nullability of the expression.
    pub open spec fn typing(self) -> Typing {
        typing::typing(self.spec_data_type(), self.spec_nullable())
    }

    /// What is wrong with the expression before its operands are looked at.
    pub open spec fn problem_before(self) -> Option<ErrorView> {
        match self {
            StoredExpr::Function { args, .. } => list_problem(args@.len()),
            StoredExpr::Array { elements, .. } => list_problem(elements@.len()),
            StoredExpr::Case { when_clauses, .. } => {
                if list_problem(when_clauses@.len()) is Some {
                    list_problem(when_clauses@.len())
                } else if when_clauses@.len() == 0 {
                    Some(error::internal_error("stored CASE has no WHEN clauses"@))
                } else {
                    None
                }
            },
            _ => None,
        }
    }

    /// What is wrong with the expression once its operand at `index` has been looked
    /// at.
    pub open spec fn problem_between(self, index: int) -> Option<ErrorView> {
        match self {
            StoredExpr::ArraySubscript { subscripts, .. } if index == 0 => list_problem(
                subscripts@.len(),
            ),
            StoredExpr::InList { list, .. } if index == 0 => list_problem(list@.len()),
            StoredExpr::Case { operand, when_clauses, else_clause, data_type, .. } => {
                let branch = index - first_branch(operand);
                let subject = match operand {
                    Some(operand) => Some(operand.spec_data_type()),
                    None => None,
                };
                if branch < 0 || (branch < 2 * when_clauses@.len() && branch % 2 == 0) {
                    None
                } else if branch < 2 * when_clauses@.len() {
                    let (when, then) = when_clauses@[branch / 2];
                    if typing::branch_fits(
                        subject,
                        when.spec_data_type(),
                        then.spec_data_type(),
                        data_type,
                    ) {
                        None
                    } else {
                        Some(error::internal_error("stored CASE has invalid branch types"@))
                    }
                } else if else_clause is Some && else_clause->0.spec_data_type() != data_type {
                    Some(error::internal_error("stored CASE has invalid ELSE type"@))
                } else {
                    None
                }
            },
            _ => None,
        }
    }

    /// What is wrong with the expression once all its operands have been looked at.
    pub open spec fn problem_after(self) -> Option<ErrorView> {
        match self {
            StoredExpr::Literal { value, data_type, nullable } => {
                if value@.matches_type(data_type) && nullable == (value@ is Null)
                    && value@.is_finite() {
                    None
                } else {
                    Some(error::internal_error("stored literal has invalid type metadata"@))
                }
            },
            StoredExpr::Column { .. } => None,
            StoredExpr::Binary { left, op, right, .. } => metadata_problem(
                self.typing(),
                typing::binary_typing(left.typing(), op, right.typing()),
                "stored binary expression has invalid operand types"@,
            ),
            StoredExpr::Unary { op, expr, .. } => metadata_problem(
                self.typing(),
                match op {
                    StoredUnaryOp::Neg => typing::negation_typing(expr.typing()),
                    StoredUnaryOp::Not => typing::not_typing(expr.typing()),
                },
                "stored unary expression has invalid operand type"@,
            ),
            StoredExpr::Function { function, args, pg_type, .. } => call_problem(
                function,
                args@,
                self.typing(),
                pg_type,
            ),
            StoredExpr::Array { elements, dimensions, element_type, .. } => {
                if list_problem(dimensions@.len()) is Some {
                    list_problem(dimensions@.len())
                } else {
                    match typing::array_typing(typings(elements@), dimensions@, element_type) {
                        Ok(expected) => metadata_problem(
                            self.typing(),
                            expected,
                            "stored array expression has invalid shape or element type"@,
                        ),
                        Err(error) => Some(error),
                    }
                }
            },
            StoredExpr::ArraySubscript { array, subscripts, .. } => {
                match array.spec_data_type() {
                    DataType::Array(array_type) => {
                        if subscripts@.len() == 0 || !typing::all_typed(
                            typings(subscripts@),
                            DataType::Integer,
                        ) {
                            Some(
                                error::internal_error("stored array subscript has invalid indexes"@),
                            )
                        } else {
                            inconsistency(
                                self.typing(),
                                typing::typing(array_type.element(), true),
                            )
                        }
                    },
                    _ => Some(
                        error::internal_error("stored array subscript has a non-array operand"@),
                    ),
                }
            },
            StoredExpr::Any { left, op, array, .. } => {
                match array.spec_data_type() {
                    DataType::Array(array_type) => {
                        if !op.spec_is_comparison() || array_type.element()
                            != left.spec_data_type() {
                            Some(error::internal_error("stored ANY has invalid operand metadata"@))
                        } else {
                            inconsistency(self.typing(), typing::typing(DataType::Boolean, true))
                        }
                    },
                    _ => Some(error::internal_error("stored ANY has a non-array operand"@)),
                }
            },
            StoredExpr::Nextval { .. } | StoredExpr::Currval { .. } => inconsistency(
                self.typing(),
                typing::typing(DataType::Integer, false),
            ),
            StoredExpr::Setval { value, is_called, .. } => metadata_problem(
                self.typing(),
                typing::setval_typing(
                    value.typing(),
                    match is_called {
                        Some(is_called) => Some(is_called.typing()),
                        None => None,
                    },
                ),
                "stored setval has invalid argument types"@,
            ),
            StoredExpr::IsNull { .. } | StoredExpr::IsNotNull { .. } => inconsistency(
                self.typing(),
                typing::typing(DataType::Boolean, false),
            ),
            StoredExpr::InList { expr, list, .. } => metadata_problem(
                self.typing(),
                typing::in_list_typing(expr.typing(), typings(list@)),
                "stored IN list has invalid item types"@,
            ),
            StoredExpr::Between { expr, low, high, .. } => metadata_problem(
                self.typing(),
                typing::between_typing(expr.typing(), low.typing(), high.typing()),
                "stored BETWEEN has invalid operand types"@,
            ),
            StoredExpr::Like { expr, pattern, .. } => metadata_problem(
                self.typing(),
                typing::like_typing(expr.typing(), pattern.typing()),
                "stored LIKE has invalid operand types"@,
            ),
            // The bound nullability of a CASE is authoritative. Branch nullability
            // alone cannot reconstruct flow-sensitive guarantees such as COALESCE's
            // `WHEN arg IS NOT NULL THEN arg` correlation.
            StoredExpr::Case { .. } => None,
            StoredExpr::Cast { expr, data_type, pg_type, nullable } => {
                if pg_type.refines(data_type) && nullable == expr.spec_nullable() {
                    None
                } else {
                    Some(error::internal_error("stored cast has invalid result metadata"@))
                }
            },
        }
    }

    /// The first problem that a walk over the expression meets.
    pub open spec fn problem(self) -> Option<ErrorView>
        decreases self, self.operands().len() + 1,
    {
        if self.problem_before() is Some {
            self.problem_before()
        } else if self.operand_problem(self.operands().len()) is Some {
            self.operand_problem(self.operands().len())
        } else {
            self.problem_after()
        }
    }

    /// The first problem among the first `count` operands.
    pub open spec fn operand_problem(self, count: nat) -> Option<ErrorView>
        decreases self, count,
    {
        if count == 0 || count > self.operands().len() {
            None
        } else {
            proof {
                self.lemma_operand_is_smaller(count - 1);
            }
            let before = self.operand_problem((count - 1) as nat);
            let last = self.operands()[count - 1].problem();
            if before is Some {
                before
            } else if last is Some {
                last
            } else {
                self.problem_between(count - 1)
            }
        }
    }

    /// The expression obeys the rules for a node of its kind.
    pub open spec fn obeys_own_rules(self) -> bool {
        &&& self.problem_before() is None
        &&& forall|i: int|
            0 <= i < self.operands().len() ==> #[trigger] self.problem_between(i) is None
        &&& self.problem_after() is None
    }

    /// Every node of the expression obeys the rules for its kind.
    pub open spec fn is_well_typed(self) -> bool
        decreases self, self.operands().len() + 1,
    {
        self.obeys_own_rules() && self.operands_are_well_typed(self.operands().len())
    }

    /// Every node of the first `count` operands obeys the rules for its kind.
    pub open spec fn operands_are_well_typed(self, count: nat) -> bool
        decreases self, count,
    {
        if count == 0 || count > self.operands().len() {
            true
        } else {
            proof {
                self.lemma_operand_is_smaller(count - 1);
            }
            self.operands_are_well_typed((count - 1) as nat)
                && self.operands()[count - 1].is_well_typed()
        }
    }

    /// A walk finds no problem exactly where every node obeys the rules for its
    /// kind.
    pub proof fn no_problem_means_well_typed(self)
        ensures
            self.problem() is None <==> self.is_well_typed(),
        decreases self, self.operands().len() + 1,
    {
        let count = self.operands().len();
        self.lemma_no_operand_problem(count);
        if self.operand_problem(count) is None {
            assert forall|i: int| 0 <= i < count implies #[trigger] self.problem_between(
                i,
            ) is None by {
                self.lemma_problem_stays((i + 1) as nat, count);
            }
        }
    }

    proof fn lemma_problem_stays(self, a: nat, b: nat)
        requires
            a <= b <= self.operands().len(),
        ensures
            self.operand_problem(a) is Some ==> self.operand_problem(b) == self.operand_problem(a),
        decreases b,
    {
        if a < b {
            self.lemma_problem_stays(a, (b - 1) as nat);
        }
    }

    proof fn lemma_no_operand_problem(self, count: nat)
        requires
            count <= self.operands().len(),
        ensures
            self.operand_problem(count) is None <==> {
                &&& self.operands_are_well_typed(count)
                &&& forall|i: int| 0 <= i < count ==> #[trigger] self.problem_between(i) is None
            },
        decreases self, count,
    {
        if count > 0 {
            self.lemma_no_operand_problem((count - 1) as nat);
            self.lemma_operand_is_smaller(count - 1);
            self.operands()[count - 1].no_problem_means_well_typed();
        }
    }
}

fn inconsistent() -> (error: DbError)
    ensures
        error@ == error::internal_error("stored expression has inconsistent type metadata"@),
{
    DbError::internal("stored expression has inconsistent type metadata")
}

fn require_typing(declared: &Typing, expected: &Typing) -> (result: Result<()>)
    ensures
        match result {
            Ok(_) => inconsistency(*declared, *expected) is None,
            Err(error) => inconsistency(*declared, *expected) == Some(error@),
        },
{
    if declared.is_same(expected) {
        Ok(())
    } else {
        Err(inconsistent())
    }
}

fn require_metadata(declared: &Typing, expected: Option<Typing>, message: &str) -> (result: Result<
    (),
>)
    ensures
        match result {
            Ok(_) => metadata_problem(*declared, expected, message@) is None,
            Err(error) => metadata_problem(*declared, expected, message@) == Some(error@),
        },
{
    match expected {
        Some(expected) => require_typing(declared, &expected),
        None => Err(DbError::internal(message)),
    }
}

fn require_list_limit(len: usize) -> (result: Result<()>)
    ensures
        match result {
            Ok(_) => list_problem(len as nat) is None,
            Err(error) => list_problem(len as nat) == Some(error@),
        },
{
    if len > MAX_STORED_EXPRESSION_LIST_ITEMS {
        Err(DbError::internal("stored expression list exceeds durable size limit"))
    } else {
        Ok(())
    }
}

fn typing_list(list: &Vec<StoredExpr>) -> (found: Vec<Typing>)
    ensures
        found@ == typings(list@),
{
    let mut found: Vec<Typing> = Vec::new();
    let mut i: usize = 0;
    while i < list.len()
        invariant
            i <= list@.len(),
            found@ == typings(list@).take(i as int),
        decreases list@.len() - i,
    {
        found.push(list[i].declared_typing());
        i += 1;
    }
    found
}

fn validate_call(
    function: FunctionId,
    args: &Vec<StoredExpr>,
    declared: &Typing,
    pg_type: &Option<PgType>,
) -> (result: Result<()>)
    ensures
        match result {
            Ok(_) => call_problem(function, args@, *declared, *pg_type) is None,
            Err(error) => call_problem(function, args@, *declared, *pg_type) == Some(error@),
        },
{
    let registered: ScalarFunction = match registry::lookup_scalar_function_by_id(function) {
        Some((registered, _)) => registered,
        None => {
            return Err(
                DbError::internal(
                    &text::numbered(
                        "stored expression references unknown function id ",
                        function as u128,
                    ),
                ),
            );
        },
    };
    let mut types: Vec<DataType> = Vec::new();
    let mut nullable: Vec<bool> = Vec::new();
    let mut passed: Vec<ArgType<'_>> = Vec::new();
    let mut i: usize = 0;
    while i < args.len()
        invariant
            i <= args@.len(),
            types@ == data_types(args@).take(i as int),
            nullable@ == nullabilities(args@).take(i as int),
            passed@ == arguments(args@).take(i as int),
        decreases args@.len() - i,
    {
        let data_type: DataType = args[i].data_type().clone();
        types.push(data_type.clone());
        nullable.push(args[i].nullable());
        let literal: Option<&Value> = match &args[i] {
            StoredExpr::Literal { value, .. } => Some(value),
            _ => None,
        };
        passed.push(ArgType { data_type, literal });
        i += 1;
    }
    assert(types@ == data_types(args@));
    assert(nullable@ == nullabilities(args@));
    assert(passed@ == arguments(args@));
    if !registry::scalar_function_id_matches(
        function,
        &types,
        &declared.data_type,
        pg_type.as_ref(),
    ) {
        return Err(
            DbError::internal(
                &text::numbered_text(
                    "stored function id ",
                    function as u128,
                    " does not match its durable signature",
                ),
            ),
        );
    }
    match registered.check_signature(&passed) {
        Ok(data_type) => require_typing(
            declared,
            &Typing::new(data_type, registered.result_nullable(&nullable)),
        ),
        Err(_) => Err(
            DbError::internal(
                &text::numbered_text(
                    "stored function id ",
                    function as u128,
                    " has invalid argument types",
                ),
            ),
        ),
    }
}

impl StoredExpr {
    pub(crate) fn declared_typing(&self) -> (typing: Typing)
        ensures
            typing == self.typing(),
    {
        Typing::new(self.data_type().clone(), self.nullable())
    }

    fn check_before(&self) -> (result: Result<()>)
        ensures
            match result {
                Ok(_) => self.problem_before() is None,
                Err(error) => self.problem_before() == Some(error@),
            },
    {
        match self {
            StoredExpr::Function { args, .. } => require_list_limit(args.len()),
            StoredExpr::Array { elements, .. } => require_list_limit(elements.len()),
            StoredExpr::Case { when_clauses, .. } => {
                if let Err(error) = require_list_limit(when_clauses.len()) {
                    return Err(error);
                }
                if when_clauses.len() == 0 {
                    return Err(DbError::internal("stored CASE has no WHEN clauses"));
                }
                Ok(())
            },
            _ => Ok(()),
        }
    }

    fn check_between(&self, index: usize) -> (result: Result<()>)
        requires
            index < self.operands().len(),
        ensures
            match result {
                Ok(_) => self.problem_between(index as int) is None,
                Err(error) => self.problem_between(index as int) == Some(error@),
            },
    {
        match self {
            StoredExpr::ArraySubscript { subscripts, .. } => {
                if index == 0 {
                    require_list_limit(subscripts.len())
                } else {
                    Ok(())
                }
            },
            StoredExpr::InList { list, .. } => {
                if index == 0 {
                    require_list_limit(list.len())
                } else {
                    Ok(())
                }
            },
            StoredExpr::Case { operand, when_clauses, else_clause, data_type, .. } => {
                let (branch, subject): (usize, Option<&DataType>) = match operand {
                    Some(operand) => {
                        if index == 0 {
                            return Ok(());
                        }
                        (index - 1, Some(operand.data_type()))
                    },
                    None => (index, None),
                };
                if branch / 2 < when_clauses.len() {
                    if branch % 2 == 0 {
                        return Ok(());
                    }
                    let clause: &(StoredExpr, StoredExpr) = &when_clauses[branch / 2];
                    if !typing::does_branch_fit(
                        subject,
                        clause.0.data_type(),
                        clause.1.data_type(),
                        data_type,
                    ) {
                        return Err(DbError::internal("stored CASE has invalid branch types"));
                    }
                    return Ok(());
                }
                if let Some(else_clause) = else_clause {
                    if *else_clause.data_type() != *data_type {
                        return Err(DbError::internal("stored CASE has invalid ELSE type"));
                    }
                }
                Ok(())
            },
            _ => Ok(()),
        }
    }

    fn check_after(&self) -> (result: Result<()>)
        ensures
            match result {
                Ok(_) => self.problem_after() is None,
                Err(error) => self.problem_after() == Some(error@),
            },
    {
        let declared: Typing = self.declared_typing();
        match self {
            StoredExpr::Literal { value, data_type, nullable } => {
                if !value_matches_type(value, data_type) || *nullable != matches!(value, Value::Null)
                    || !value_is_finite(value) {
                    return Err(DbError::internal("stored literal has invalid type metadata"));
                }
                Ok(())
            },
            StoredExpr::Column { .. } => Ok(()),
            StoredExpr::Binary { left, op, right, .. } => require_metadata(
                &declared,
                typing::type_binary(&left.declared_typing(), *op, &right.declared_typing()),
                "stored binary expression has invalid operand types",
            ),
            StoredExpr::Unary { op, expr, .. } => require_metadata(
                &declared,
                match op {
                    StoredUnaryOp::Neg => typing::type_negation(expr.declared_typing()),
                    StoredUnaryOp::Not => typing::type_not(expr.declared_typing()),
                },
                "stored unary expression has invalid operand type",
            ),
            StoredExpr::Function { function, args, pg_type, .. } => validate_call(
                *function,
                args,
                &declared,
                pg_type,
            ),
            StoredExpr::Array { elements, dimensions, element_type, .. } => {
                if let Err(error) = require_list_limit(dimensions.len()) {
                    return Err(error);
                }
                match typing::type_array(&typing_list(elements), dimensions, element_type) {
                    Ok(expected) => require_metadata(
                        &declared,
                        expected,
                        "stored array expression has invalid shape or element type",
                    ),
                    Err(error) => Err(error),
                }
            },
            StoredExpr::ArraySubscript { array, subscripts, .. } => match array.data_type() {
                DataType::Array(array_type) => {
                    if subscripts.len() == 0 || !typing::are_typed(
                        &typing_list(subscripts),
                        &DataType::Integer,
                    ) {
                        return Err(
                            DbError::internal("stored array subscript has invalid indexes"),
                        );
                    }
                    require_typing(
                        &declared,
                        &Typing::new(array_type.element_type().clone(), true),
                    )
                },
                _ => Err(DbError::internal("stored array subscript has a non-array operand")),
            },
            StoredExpr::Any { left, op, array, .. } => match array.data_type() {
                DataType::Array(array_type) => {
                    if !typing::is_comparison(*op) || *array_type.element_type()
                        != *left.data_type() {
                        return Err(DbError::internal("stored ANY has invalid operand metadata"));
                    }
                    require_typing(&declared, &Typing::new(DataType::Boolean, true))
                },
                _ => Err(DbError::internal("stored ANY has a non-array operand")),
            },
            StoredExpr::Nextval { .. } | StoredExpr::Currval { .. } => require_typing(
                &declared,
                &Typing::new(DataType::Integer, false),
            ),
            StoredExpr::Setval { value, is_called, .. } => require_metadata(
                &declared,
                typing::type_setval(
                    &value.declared_typing(),
                    &(match is_called {
                        Some(is_called) => Some(is_called.declared_typing()),
                        None => None,
                    }),
                ),
                "stored setval has invalid argument types",
            ),
            StoredExpr::IsNull { .. } | StoredExpr::IsNotNull { .. } => require_typing(
                &declared,
                &Typing::new(DataType::Boolean, false),
            ),
            StoredExpr::InList { expr, list, .. } => require_metadata(
                &declared,
                typing::type_in_list(&expr.declared_typing(), &typing_list(list)),
                "stored IN list has invalid item types",
            ),
            StoredExpr::Between { expr, low, high, .. } => require_metadata(
                &declared,
                typing::type_between(
                    &expr.declared_typing(),
                    &low.declared_typing(),
                    &high.declared_typing(),
                ),
                "stored BETWEEN has invalid operand types",
            ),
            StoredExpr::Like { expr, pattern, .. } => require_metadata(
                &declared,
                typing::type_like(&expr.declared_typing(), &pattern.declared_typing()),
                "stored LIKE has invalid operand types",
            ),
            StoredExpr::Case { .. } => Ok(()),
            StoredExpr::Cast { expr, data_type, pg_type, nullable } => {
                if !pg_type.is_refinement_of(data_type) || *nullable != expr.nullable() {
                    return Err(DbError::internal("stored cast has invalid result metadata"));
                }
                Ok(())
            },
        }
    }

    /// Checks the type and nullability of every node.
    pub(crate) fn validate_node_shape(&self) -> (result: Result<()>)
        ensures
            match result {
                Ok(_) => self.problem() is None,
                Err(error) => self.problem() == Some(error@),
            },
        decreases *self,
    {
        if let Err(error) = self.check_before() {
            return Err(error);
        }
        let list: Vec<&StoredExpr> = self.operand_list();
        let ghost count = self.operands().len();
        let mut i: usize = 0;
        while i < list.len()
            invariant
                i <= list@.len(),
                list@.len() == count,
                count == self.operands().len(),
                forall|j: int|
                    0 <= j < list@.len() ==> *(#[trigger] list@[j]) == self.operands()[j],
                self.problem_before() is None,
                self.operand_problem(i as nat) is None,
            decreases list@.len() - i,
        {
            proof {
                self.lemma_operand_is_smaller(i as int);
                self.lemma_problem_stays((i + 1) as nat, count);
            }
            if let Err(error) = list[i].validate_node_shape() {
                return Err(error);
            }
            if let Err(error) = self.check_between(i) {
                return Err(error);
            }
            i += 1;
        }
        self.check_after()
    }
}

impl StoredExpression {
    /// What is wrong with a stored expression: its version, its size, the first
    /// problem of its root, or a declared type that is not that of its root.
    pub open spec fn problem(self) -> Option<ErrorView> {
        if self.version != STORED_EXPRESSION_VERSION {
            Some(
                error::internal_error(
                    "unsupported stored expression version "@ + text::decimal_text(
                        self.version as nat,
                    ),
                ),
            )
        } else if vstd::utf8::encode_utf8(self.sql@).len() > MAX_STORED_EXPRESSION_SQL_BYTES {
            Some(error::internal_error("stored expression SQL exceeds durable size limit"@))
        } else if self.root.node_count() > usize::MAX || self.root.depth() >= usize::MAX {
            Some(error::internal_error("stored expression size overflow"@))
        } else if self.root.node_count() > MAX_STORED_EXPRESSION_NODES || self.root.depth()
            > MAX_STORED_EXPRESSION_DEPTH {
            Some(error::internal_error("stored expression exceeds durable size limits"@))
        } else if self.root.problem() is Some {
            self.root.problem()
        } else {
            inconsistency(self.root.typing(), typing::typing(self.data_type, self.nullable))
        }
    }
}

/// Validate the self-contained type/nullability contract of durable scalar IR.
/// Catalog-specific column and sequence existence checks remain the catalog's
/// responsibility.
pub fn validate_stored_expression_shape(stored: &StoredExpression) -> (result: Result<()>)
    ensures
        match result {
            Ok(_) => stored.problem() is None,
            Err(error) => stored.problem() == Some(error@),
        },
{
    if stored.version != STORED_EXPRESSION_VERSION {
        return Err(
            DbError::internal(
                &text::numbered(
                    "unsupported stored expression version ",
                    stored.version as u128,
                ),
            ),
        );
    }
    if stored.sql.as_str().as_bytes().len() > MAX_STORED_EXPRESSION_SQL_BYTES {
        return Err(DbError::internal("stored expression SQL exceeds durable size limit"));
    }
    let (nodes, depth): (usize, usize) = match stored.root.node_count_and_depth() {
        Some(size) => size,
        None => return Err(DbError::internal("stored expression size overflow")),
    };
    if nodes > MAX_STORED_EXPRESSION_NODES || depth > MAX_STORED_EXPRESSION_DEPTH {
        return Err(DbError::internal("stored expression exceeds durable size limits"));
    }
    if let Err(error) = stored.root.validate_node_shape() {
        return Err(error);
    }
    require_typing(
        &stored.root.declared_typing(),
        &Typing::new(stored.data_type.clone(), stored.nullable),
    )
}

/// Whether two optional wire types are the same.
pub(crate) fn same_wire_type(a: &Option<PgType>, b: &Option<PgType>) -> (same: bool)
    ensures
        same == (*a == *b),
{
    match (a, b) {
        (Some(a), Some(b)) => *a == *b,
        (None, None) => true,
        _ => false,
    }
}

/// Whether two optional escape characters are the same.
pub(crate) fn same_escape(a: Option<char>, b: Option<char>) -> (same: bool)
    ensures
        same == (a == b),
{
    match (a, b) {
        (Some(a), Some(b)) => a == b,
        (None, None) => true,
        _ => false,
    }
}

/// Whether two lists of dimensions are the same.
pub(crate) fn same_dimensions(a: &Vec<u32>, b: &Vec<u32>) -> (same: bool)
    ensures
        same == (a@ == b@),
{
    if a.len() != b.len() {
        return false;
    }
    let mut i: usize = 0;
    while i < a.len()
        invariant
            i <= a@.len(),
            a@.len() == b@.len(),
            forall|j: int| 0 <= j < i ==> #[trigger] a@[j] == b@[j],
        decreases a@.len() - i,
    {
        if a[i] != b[i] {
            assert(a@[i as int] != b@[i as int]);
            return false;
        }
        i += 1;
    }
    assert(a@ =~= b@);
    true
}

impl StoredExpr {
    /// The same kind of node with the same contents, operands aside.
    pub open spec fn same_node(self, other: StoredExpr) -> bool {
        &&& self.spec_data_type() == other.spec_data_type()
        &&& self.spec_nullable() == other.spec_nullable()
        &&& match (self, other) {
            (
                StoredExpr::Literal { value, .. },
                StoredExpr::Literal { value: other_value, .. },
            ) => value@.same(other_value@),
            (
                StoredExpr::Column { column, .. },
                StoredExpr::Column { column: other_column, .. },
            ) => column == other_column,
            (
                StoredExpr::Binary { op, .. },
                StoredExpr::Binary { op: other_op, .. },
            ) => op == other_op,
            (
                StoredExpr::Unary { op, .. },
                StoredExpr::Unary { op: other_op, .. },
            ) => op == other_op,
            (
                StoredExpr::Function { function, pg_type, .. },
                StoredExpr::Function { function: other_function, pg_type: other_pg_type, .. },
            ) => function == other_function && pg_type == other_pg_type,
            (
                StoredExpr::Array { dimensions, element_type, .. },
                StoredExpr::Array {
                    dimensions: other_dimensions,
                    element_type: other_element_type,
                    ..
                },
            ) => dimensions@ == other_dimensions@ && element_type == other_element_type,
            (StoredExpr::ArraySubscript { .. }, StoredExpr::ArraySubscript { .. }) => true,
            (StoredExpr::Any { op, .. }, StoredExpr::Any { op: other_op, .. }) => op == other_op,
            (
                StoredExpr::Nextval { sequence, .. },
                StoredExpr::Nextval { sequence: other_sequence, .. },
            ) => sequence == other_sequence,
            (
                StoredExpr::Currval { sequence, .. },
                StoredExpr::Currval { sequence: other_sequence, .. },
            ) => sequence == other_sequence,
            (
                StoredExpr::Setval { sequence, .. },
                StoredExpr::Setval { sequence: other_sequence, .. },
            ) => sequence == other_sequence,
            (StoredExpr::IsNull { .. }, StoredExpr::IsNull { .. }) => true,
            (StoredExpr::IsNotNull { .. }, StoredExpr::IsNotNull { .. }) => true,
            (
                StoredExpr::InList { negated, .. },
                StoredExpr::InList { negated: other_negated, .. },
            ) => negated == other_negated,
            (
                StoredExpr::Between { negated, .. },
                StoredExpr::Between { negated: other_negated, .. },
            ) => negated == other_negated,
            (
                StoredExpr::Like { negated, case_insensitive, escape, .. },
                StoredExpr::Like {
                    negated: other_negated,
                    case_insensitive: other_case_insensitive,
                    escape: other_escape,
                    ..
                },
            ) => negated == other_negated && case_insensitive == other_case_insensitive
                && escape == other_escape,
            (
                StoredExpr::Case { operand, when_clauses, .. },
                StoredExpr::Case { operand: other_operand, when_clauses: other_when_clauses, .. },
            ) => (operand is Some) == (other_operand is Some)
                && when_clauses@.len() == other_when_clauses@.len(),
            (
                StoredExpr::Cast { pg_type, .. },
                StoredExpr::Cast { pg_type: other_pg_type, .. },
            ) => pg_type == other_pg_type,
            _ => false,
        }
    }

    /// The same expression. Literals are compared as values are.
    pub open spec fn same(self, other: StoredExpr) -> bool
        decreases self, self.operands().len() + 1,
    {
        &&& self.same_node(other)
        &&& self.operands().len() == other.operands().len()
        &&& self.same_operands(other, self.operands().len())
    }

    /// The same first `count` operands.
    pub open spec fn same_operands(self, other: StoredExpr, count: nat) -> bool
        decreases self, count,
    {
        if count == 0 || count > self.operands().len() {
            true
        } else {
            proof {
                self.lemma_operand_is_smaller(count - 1);
            }
            self.same_operands(other, (count - 1) as nat) && self.operands()[count - 1].same(
                other.operands()[count - 1],
            )
        }
    }

    fn is_same_node(&self, other: &StoredExpr) -> (same: bool)
        ensures
            same == self.same_node(*other),
    {
        *self.data_type() == *other.data_type() && self.nullable() == other.nullable() && match (
            self,
            other,
        ) {
            (
                StoredExpr::Literal { value, .. },
                StoredExpr::Literal { value: other_value, .. },
            ) => *value == *other_value,
            (
                StoredExpr::Column { column, .. },
                StoredExpr::Column { column: other_column, .. },
            ) => *column == *other_column,
            (
                StoredExpr::Binary { op, .. },
                StoredExpr::Binary { op: other_op, .. },
            ) => *op == *other_op,
            (
                StoredExpr::Unary { op, .. },
                StoredExpr::Unary { op: other_op, .. },
            ) => *op == *other_op,
            (
                StoredExpr::Function { function, pg_type, .. },
                StoredExpr::Function { function: other_function, pg_type: other_pg_type, .. },
            ) => *function == *other_function && same_wire_type(pg_type, other_pg_type),
            (
                StoredExpr::Array { dimensions, element_type, .. },
                StoredExpr::Array {
                    dimensions: other_dimensions,
                    element_type: other_element_type,
                    ..
                },
            ) => same_dimensions(dimensions, other_dimensions)
                && *element_type == *other_element_type,
            (StoredExpr::ArraySubscript { .. }, StoredExpr::ArraySubscript { .. }) => true,
            (StoredExpr::Any { op, .. }, StoredExpr::Any { op: other_op, .. }) => *op == *other_op,
            (
                StoredExpr::Nextval { sequence, .. },
                StoredExpr::Nextval { sequence: other_sequence, .. },
            ) => *sequence == *other_sequence,
            (
                StoredExpr::Currval { sequence, .. },
                StoredExpr::Currval { sequence: other_sequence, .. },
            ) => *sequence == *other_sequence,
            (
                StoredExpr::Setval { sequence, .. },
                StoredExpr::Setval { sequence: other_sequence, .. },
            ) => *sequence == *other_sequence,
            (StoredExpr::IsNull { .. }, StoredExpr::IsNull { .. }) => true,
            (StoredExpr::IsNotNull { .. }, StoredExpr::IsNotNull { .. }) => true,
            (
                StoredExpr::InList { negated, .. },
                StoredExpr::InList { negated: other_negated, .. },
            ) => *negated == *other_negated,
            (
                StoredExpr::Between { negated, .. },
                StoredExpr::Between { negated: other_negated, .. },
            ) => *negated == *other_negated,
            (
                StoredExpr::Like { negated, case_insensitive, escape, .. },
                StoredExpr::Like {
                    negated: other_negated,
                    case_insensitive: other_case_insensitive,
                    escape: other_escape,
                    ..
                },
            ) => *negated == *other_negated && *case_insensitive == *other_case_insensitive
                && same_escape(*escape, *other_escape),
            (
                StoredExpr::Case { operand, when_clauses, .. },
                StoredExpr::Case { operand: other_operand, when_clauses: other_when_clauses, .. },
            ) => operand.is_some() == other_operand.is_some()
                && when_clauses.len() == other_when_clauses.len(),
            (
                StoredExpr::Cast { pg_type, .. },
                StoredExpr::Cast { pg_type: other_pg_type, .. },
            ) => *pg_type == *other_pg_type,
            _ => false,
        }
    }

    proof fn lemma_different_operands(self, other: StoredExpr, a: nat, b: nat)
        requires
            a <= b <= self.operands().len(),
            !self.same_operands(other, a),
        ensures
            !self.same_operands(other, b),
        decreases b,
    {
        if a < b {
            self.lemma_different_operands(other, a, (b - 1) as nat);
        }
    }

    /// Whether two expressions are the same.
    pub fn is_same(&self, other: &StoredExpr) -> (same: bool)
        ensures
            same == self.same(*other),
        decreases *self,
    {
        if !self.is_same_node(other) {
            return false;
        }
        let list: Vec<&StoredExpr> = self.operand_list();
        let others: Vec<&StoredExpr> = other.operand_list();
        if list.len() != others.len() {
            return false;
        }
        let mut i: usize = 0;
        while i < list.len()
            invariant
                i <= list@.len(),
                list@.len() == others@.len(),
                list@.len() == self.operands().len(),
                others@.len() == other.operands().len(),
                forall|j: int|
                    0 <= j < list@.len() ==> *(#[trigger] list@[j]) == self.operands()[j],
                forall|j: int|
                    0 <= j < others@.len() ==> *(#[trigger] others@[j]) == other.operands()[j],
                self.same_operands(*other, i as nat),
            decreases list@.len() - i,
        {
            proof {
                self.lemma_operand_is_smaller(i as int);
            }
            if !list[i].is_same(others[i]) {
                proof {
                    self.lemma_different_operands(
                        *other,
                        (i + 1) as nat,
                        self.operands().len(),
                    );
                }
                return false;
            }
            i += 1;
        }
        true
    }
}

impl PartialEq for StoredExpr {
    fn eq(&self, other: &Self) -> (equal: bool) {
        self.is_same(other)
    }
}

impl vstd::std_specs::cmp::PartialEqSpecImpl for StoredExpr {
    open spec fn obeys_eq_spec() -> bool {
        true
    }

    open spec fn eq_spec(&self, other: &Self) -> bool {
        self.same(*other)
    }
}

impl Eq for StoredExpr {

}

impl StoredExpression {
    /// The same stored expression.
    pub open spec fn same(self, other: StoredExpression) -> bool {
        &&& self.version == other.version
        &&& self.sql@ == other.sql@
        &&& self.root.same(other.root)
        &&& self.data_type == other.data_type
        &&& self.pg_type == other.pg_type
        &&& self.nullable == other.nullable
    }
}

impl PartialEq for StoredExpression {
    fn eq(&self, other: &Self) -> (equal: bool) {
        self.version == other.version && text::same_text(&self.sql, &other.sql)
            && self.root.is_same(&other.root) && self.data_type == other.data_type
            && same_wire_type(&self.pg_type, &other.pg_type) && self.nullable == other.nullable
    }
}

impl vstd::std_specs::cmp::PartialEqSpecImpl for StoredExpression {
    open spec fn obeys_eq_spec() -> bool {
        true
    }

    open spec fn eq_spec(&self, other: &Self) -> bool {
        self.same(*other)
    }
}

impl Eq for StoredExpression {

}

} // verus!
