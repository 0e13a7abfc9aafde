//! Durable, catalog-resolved query representation for view definitions.

pub mod acceptance;
pub mod aggregates;
pub mod budget;
pub mod copies;
pub mod coverage;
pub mod declarations;
pub mod node;
pub mod placement;
pub mod presentation;
pub mod ranges;
pub mod references;
pub mod sameness;
pub mod walk;
pub mod wire_answers;
pub mod wire_types;

use vstd::prelude::*;

use crate::ids::{BindingId, ColumnObjectId, FunctionId, SequenceId, TableId};
use crate::pg_type::PgType;
use crate::schema::DataType;
use crate::stored_expression::StoredBinOp;
use crate::typing::{self, Typing};
use crate::value::Value;

pub use node::stored_query_function_exists;
pub use walk::validate_stored_query_shape;

verus! {

pub const STORED_QUERY_VERSION: u32 = 1;

pub const MAX_STORED_QUERY_NODES: usize = 262_144;

pub const MAX_STORED_QUERY_LIST_ITEMS: usize = 16_384;

pub const MAX_STORED_QUERY_COLUMNS: usize = 65_536;

pub const MAX_STORED_QUERY_DECODE_ITEMS: usize = 1_048_576;

pub const MAX_STORED_QUERY_DEPTH: usize = 32;

pub const UNNEST_FUNCTION_ID: FunctionId = 2_331;

pub const GENERATE_SERIES_FUNCTION_ID: FunctionId = 1_067;

/// A durable query with every name resolved.
#[derive(Debug)]
pub struct StoredQueryV1 {
    pub version: u32,
    pub body: StoredQueryBody,
    pub order_by: Vec<StoredOrderBy>,
    pub limit: Option<u64>,
    pub offset: Option<u64>,
    pub row_lock: Option<StoredRowLock>,
    pub correlations: Vec<StoredCorrelatedColumn>,
}

/// The row lock that a query takes on its only table.
#[derive(Clone, Copy, Debug, PartialEq, Eq, Structural)]
pub struct StoredRowLock {
    pub table: TableId,
    pub mode: StoredTupleLockMode,
    pub wait_policy: StoredTupleLockWaitPolicy,
}

/// How strongly rows are locked.
#[derive(Clone, Copy, Debug, PartialEq, Eq, Structural)]
pub enum StoredTupleLockMode {
    KeyShare,
    Share,
    NoKeyUpdate,
    Update,
}

/// What to do about a row that someone else has locked.
#[derive(Clone, Copy, Debug, PartialEq, Eq, Structural)]
pub enum StoredTupleLockWaitPolicy {
    Block,
    NoWait,
    SkipLocked,
}

/// A column of an enclosing query that a query uses.
#[derive(Clone, Debug, PartialEq, Eq)]
pub struct StoredCorrelatedColumn {
    pub outer: StoredQueryExpr,
    pub data_type: DataType,
    pub nullable: bool,
}

/// What a query computes.
#[derive(Clone, Debug, PartialEq, Eq)]
pub enum StoredQueryBody {
    Select(Box<StoredSelect>),
    Values(StoredValues),
    SetOp(StoredSetOp),
}

/// A `VALUES` list.
#[derive(Clone, Debug, PartialEq, Eq)]
pub struct StoredValues {
    pub rows: Vec<Vec<StoredQueryExpr>>,
    pub output_schema: Vec<StoredQueryColumn>,
}

/// Two queries combined.
#[derive(Clone, Debug, PartialEq, Eq)]
pub struct StoredSetOp {
    pub op: StoredSetOperator,
    pub all: bool,
    pub left: Box<StoredQueryV1>,
    pub right: Box<StoredQueryV1>,
    pub output_schema: Vec<StoredQueryColumn>,
}

/// How two queries are combined.
#[derive(Clone, Copy, Debug, PartialEq, Eq, Structural)]
pub enum StoredSetOperator {
    Union,
    Intersect,
    Except,
}

/// A `SELECT`.
#[derive(Clone, Debug, PartialEq, Eq)]
pub struct StoredSelect {
    pub distinct: Option<StoredDistinct>,
    pub columns: Vec<StoredSelectItem>,
    pub from: Option<StoredFrom>,
    pub filter: Option<StoredQueryExpr>,
    pub group_by: Vec<StoredQueryExpr>,
    pub having: Option<StoredQueryExpr>,
    pub output_schema: Vec<StoredQueryColumn>,
}

/// Which duplicates a `SELECT` leaves out.
#[derive(Clone, Debug, PartialEq, Eq)]
pub enum StoredDistinct {
    All,
    On(Vec<StoredQueryExpr>),
}

/// One item of a select list.
#[derive(Clone, Debug, PartialEq, Eq)]
pub struct StoredSelectItem {
    pub expr: StoredQueryExpr,
    pub alias: String,
}

/// What a `SELECT` reads.
#[derive(Debug)]
pub enum StoredFrom {
    Table {
        table: TableId,
        range: BindingId,
        alias: Option<String>,
    },
    System {
        relation_oid: i64,
        range: BindingId,
        alias: Option<String>,
        schema: Vec<StoredRangeColumn>,
    },
    Derived {
        query: Box<StoredQueryV1>,
        range: BindingId,
        alias: String,
        schema: Vec<StoredRangeColumn>,
        lateral: bool,
    },
    TableFunction {
        function: FunctionId,
        args: Vec<StoredQueryExpr>,
        range: BindingId,
        alias: String,
        schema: Vec<StoredRangeColumn>,
    },
    Join {
        left: Box<StoredFrom>,
        right: Box<StoredFrom>,
        join_type: StoredJoinType,
        condition: Option<StoredQueryExpr>,
    },
}

/// How two inputs are joined.
#[derive(Clone, Copy, Debug, PartialEq, Eq, Structural)]
pub enum StoredJoinType {
    Inner,
    Left,
    Right,
    Full,
    Cross,
}

/// A column of an input that is not a catalog table.
#[derive(Clone, Debug, PartialEq, Eq)]
pub struct StoredRangeColumn {
    pub name: String,
    pub data_type: DataType,
    pub pg_type: PgType,
    pub nullable: bool,
}

/// A column of a query's output.
#[derive(Clone, Debug, PartialEq, Eq)]
pub struct StoredQueryColumn {
    pub name: String,
    pub data_type: DataType,
    pub pg_type: PgType,
}

/// A sort key.
#[derive(Clone, Debug, PartialEq, Eq)]
pub struct StoredOrderBy {
    pub expr: StoredQueryExpr,
    pub ascending: bool,
    pub nulls_first: Option<bool>,
}

/// A column of an input, by catalog identity or by position.
#[derive(Clone, Copy, Debug, PartialEq, Eq, Structural)]
pub enum StoredColumnReference {
    Catalog(ColumnObjectId),
    Position(u32),
}

/// A node of an expression in a query, with the type and nullability that the
/// binder gave it.
#[derive(Debug)]
pub enum StoredQueryExpr {
    Literal {
        value: Value,
        data_type: DataType,
        nullable: bool,
    },
    InputRef {
        range: BindingId,
        column: StoredColumnReference,
        data_type: DataType,
        nullable: bool,
    },
    Binary {
        left: Box<StoredQueryExpr>,
        op: StoredQueryBinOp,
        right: Box<StoredQueryExpr>,
        data_type: DataType,
        nullable: bool,
    },
    Unary {
        op: StoredQueryUnaryOp,
        expr: Box<StoredQueryExpr>,
        data_type: DataType,
        nullable: bool,
    },
    Function {
        function: FunctionId,
        args: Vec<StoredQueryExpr>,
        data_type: DataType,
        pg_type: Option<PgType>,
        nullable: bool,
    },
    Array {
        elements: Vec<StoredQueryExpr>,
        dimensions: Vec<u32>,
        element_type: DataType,
        data_type: DataType,
        nullable: bool,
    },
    ArraySubscript {
        array: Box<StoredQueryExpr>,
        subscripts: Vec<StoredQueryExpr>,
        data_type: DataType,
        nullable: bool,
    },
    Any {
        left: Box<StoredQueryExpr>,
        op: StoredQueryBinOp,
        array: Box<StoredQueryExpr>,
        data_type: DataType,
        nullable: bool,
    },
    Nextval {
        sequence: SequenceId,
        data_type: DataType,
        nullable: bool,
    },
    Currval {
        sequence: SequenceId,
        data_type: DataType,
        nullable: bool,
    },
    Setval {
        sequence: SequenceId,
        value: Box<StoredQueryExpr>,
        is_called: Option<Box<StoredQueryExpr>>,
        data_type: DataType,
        nullable: bool,
    },
    Aggregate {
        function: FunctionId,
        arg: Option<Box<StoredQueryExpr>>,
        distinct: bool,
        data_type: DataType,
        nullable: bool,
    },
    LocalRef {
        output: u32,
        data_type: DataType,
        nullable: bool,
    },
    OuterRef {
        correlation: u32,
        data_type: DataType,
        nullable: bool,
    },
    IsNull {
        expr: Box<StoredQueryExpr>,
        data_type: DataType,
        nullable: bool,
    },
    IsNotNull {
        expr: Box<StoredQueryExpr>,
        data_type: DataType,
        nullable: bool,
    },
    InList {
        expr: Box<StoredQueryExpr>,
        list: Vec<StoredQueryExpr>,
        negated: bool,
        data_type: DataType,
        nullable: bool,
    },
    Between {
        expr: Box<StoredQueryExpr>,
        low: Box<StoredQueryExpr>,
        high: Box<StoredQueryExpr>,
        negated: bool,
        data_type: DataType,
        nullable: bool,
    },
    Like {
        expr: Box<StoredQueryExpr>,
        pattern: Box<StoredQueryExpr>,
        negated: bool,
        case_insensitive: bool,
        escape: Option<char>,
        data_type: DataType,
        nullable: bool,
    },
    Case {
        operand: Option<Box<StoredQueryExpr>>,
        when_clauses: Vec<(StoredQueryExpr, StoredQueryExpr)>,
        else_clause: Option<Box<StoredQueryExpr>>,
        flow_sensitive_nullable: bool,
        data_type: DataType,
        nullable: bool,
    },
    Cast {
        expr: Box<StoredQueryExpr>,
        data_type: DataType,
        pg_type: PgType,
        nullable: bool,
    },
    ScalarSubquery {
        query: Box<StoredQueryV1>,
        data_type: DataType,
        nullable: bool,
    },
    Exists {
        query: Box<StoredQueryV1>,
        negated: bool,
        data_type: DataType,
        nullable: bool,
    },
    InSubquery {
        expr: Box<StoredQueryExpr>,
        query: Box<StoredQueryV1>,
        negated: bool,
        data_type: DataType,
        nullable: bool,
    },
}

/// A binary operator.
#[derive(Clone, Copy, Debug, PartialEq, Eq, Structural)]
pub enum StoredQueryBinOp {
    Add,
    Sub,
    Mul,
    Div,
    Mod,
    Eq,
    Neq,
    Lt,
    LtEq,
    Gt,
    GtEq,
    And,
    Or,
    Concat,
    IsDistinctFrom,
    IsNotDistinctFrom,
}

/// A unary operator.
#[derive(Clone, Copy, Debug, PartialEq, Eq, Structural)]
pub enum StoredQueryUnaryOp {
    Neg,
    Not,
}

/// The operator as durable scalar expressions name it.
pub open spec fn scalar_operator(op: StoredQueryBinOp) -> StoredBinOp {
    match op {
        StoredQueryBinOp::Add => StoredBinOp::Add,
        StoredQueryBinOp::Sub => StoredBinOp::Sub,
        StoredQueryBinOp::Mul => StoredBinOp::Mul,
        StoredQueryBinOp::Div => StoredBinOp::Div,
        StoredQueryBinOp::Mod => StoredBinOp::Mod,
        StoredQueryBinOp::Eq => StoredBinOp::Eq,
        StoredQueryBinOp::Neq => StoredBinOp::Neq,
        StoredQueryBinOp::Lt => StoredBinOp::Lt,
        StoredQueryBinOp::LtEq => StoredBinOp::LtEq,
        StoredQueryBinOp::Gt => StoredBinOp::Gt,
        StoredQueryBinOp::GtEq => StoredBinOp::GtEq,
        StoredQueryBinOp::And => StoredBinOp::And,
        StoredQueryBinOp::Or => StoredBinOp::Or,
        StoredQueryBinOp::Concat => StoredBinOp::Concat,
        StoredQueryBinOp::IsDistinctFrom => StoredBinOp::IsDistinctFrom,
        StoredQueryBinOp::IsNotDistinctFrom => StoredBinOp::IsNotDistinctFrom,
    }
}

pub(crate) fn query_stored_binop(op: StoredQueryBinOp) -> (scalar: StoredBinOp)
    ensures
        scalar == scalar_operator(op),
{
    match op {
        StoredQueryBinOp::Add => StoredBinOp::Add,
        StoredQueryBinOp::Sub => StoredBinOp::Sub,
        StoredQueryBinOp::Mul => StoredBinOp::Mul,
        StoredQueryBinOp::Div => StoredBinOp::Div,
        StoredQueryBinOp::Mod => StoredBinOp::Mod,
        StoredQueryBinOp::Eq => StoredBinOp::Eq,
        StoredQueryBinOp::Neq => StoredBinOp::Neq,
        StoredQueryBinOp::Lt => StoredBinOp::Lt,
        StoredQueryBinOp::LtEq => StoredBinOp::LtEq,
        StoredQueryBinOp::Gt => StoredBinOp::Gt,
        StoredQueryBinOp::GtEq => StoredBinOp::GtEq,
        StoredQueryBinOp::And => StoredBinOp::And,
        StoredQueryBinOp::Or => StoredBinOp::Or,
        StoredQueryBinOp::Concat => StoredBinOp::Concat,
        StoredQueryBinOp::IsDistinctFrom => StoredBinOp::IsDistinctFrom,
        StoredQueryBinOp::IsNotDistinctFrom => StoredBinOp::IsNotDistinctFrom,
    }
}

/// No expression or one.
pub open spec fn optional(expr: Option<Box<StoredQueryExpr>>) -> Seq<StoredQueryExpr> {
    match expr {
        Some(expr) => seq![*expr],
        None => Seq::empty(),
    }
}

/// No clause or one.
pub open spec fn clause(expr: Option<StoredQueryExpr>) -> Seq<StoredQueryExpr> {
    match expr {
        Some(expr) => seq![expr],
        None => Seq::empty(),
    }
}

/// The members of a list of pairs, in order.
pub open spec fn flattened(pairs: Seq<(StoredQueryExpr, StoredQueryExpr)>) -> Seq<StoredQueryExpr> {
    Seq::new(
        2 * pairs.len(),
        |i: int|
            if i % 2 == 0 {
                pairs[i / 2].0
            } else {
                pairs[i / 2].1
            },
    )
}

impl StoredQueryExpr {
    /// The declared type of the expression.
    pub open spec fn spec_data_type(self) -> DataType {
        match self {
            StoredQueryExpr::Literal { data_type, .. }
            | StoredQueryExpr::InputRef { data_type, .. }
            | StoredQueryExpr::Binary { data_type, .. }
            | StoredQueryExpr::Unary { data_type, .. }
            | StoredQueryExpr::Function { data_type, .. }
            | StoredQueryExpr::Array { data_type, .. }
            | StoredQueryExpr::ArraySubscript { data_type, .. }
            | StoredQueryExpr::Any { data_type, .. }
            | StoredQueryExpr::Nextval { data_type, .. }
            | StoredQueryExpr::Currval { data_type, .. }
            | StoredQueryExpr::Setval { data_type, .. }
            | StoredQueryExpr::Aggregate { data_type, .. }
            | StoredQueryExpr::LocalRef { data_type, .. }
            | StoredQueryExpr::OuterRef { data_type, .. }
            | StoredQueryExpr::IsNull { data_type, .. }
            | StoredQueryExpr::IsNotNull { data_type, .. }
            | StoredQueryExpr::InList { data_type, .. }
            | StoredQueryExpr::Between { data_type, .. }
            | StoredQueryExpr::Like { data_type, .. }
            | StoredQueryExpr::Case { data_type, .. }
            | StoredQueryExpr::Cast { data_type, .. }
            | StoredQueryExpr::ScalarSubquery { data_type, .. }
            | StoredQueryExpr::Exists { data_type, .. }
            | StoredQueryExpr::InSubquery { data_type, .. } => data_type,
        }
    }

    /// Whether the expression is declared to be able to be NULL.
    pub open spec fn spec_nullable(self) -> bool {
        match self {
            StoredQueryExpr::Literal { nullable, .. }
            | StoredQueryExpr::InputRef { nullable, .. }
            | StoredQueryExpr::Binary { nullable, .. }
            | StoredQueryExpr::Unary { nullable, .. }
            | StoredQueryExpr::Function { nullable, .. }
            | StoredQueryExpr::Array { nullable, .. }
            | StoredQueryExpr::ArraySubscript { nullable, .. }
            | StoredQueryExpr::Any { nullable, .. }
            | StoredQueryExpr::Nextval { nullable, .. }
            | StoredQueryExpr::Currval { nullable, .. }
            | StoredQueryExpr::Setval { nullable, .. }
            | StoredQueryExpr::Aggregate { nullable, .. }
            | StoredQueryExpr::LocalRef { nullable, .. }
            | StoredQueryExpr::OuterRef { nullable, .. }
            | StoredQueryExpr::IsNull { nullable, .. }
            | StoredQueryExpr::IsNotNull { nullable, .. }
            | StoredQueryExpr::InList { nullable, .. }
            | StoredQueryExpr::Between { nullable, .. }
            | StoredQueryExpr::Like { nullable, .. }
            | StoredQueryExpr::Case { nullable, .. }
            | StoredQueryExpr::Cast { nullable, .. }
            | StoredQueryExpr::ScalarSubquery { nullable, .. }
            | StoredQueryExpr::Exists { nullable, .. }
            | StoredQueryExpr::InSubquery { nullable, .. } => nullable,
        }
    }

    /// The declared type and nullability of the expression.
    pub open spec fn typing(self) -> Typing {
        typing::typing(self.spec_data_type(), self.spec_nullable())
    }

    /// The direct operands of the expression, in order. Subqueries are not operands.
    pub open spec fn operands(self) -> Seq<StoredQueryExpr> {
        match self {
            StoredQueryExpr::Literal { .. }
            | StoredQueryExpr::InputRef { .. }
            | StoredQueryExpr::LocalRef { .. }
            | StoredQueryExpr::OuterRef { .. }
            | StoredQueryExpr::Nextval { .. }
            | StoredQueryExpr::Currval { .. }
            | StoredQueryExpr::ScalarSubquery { .. }
            | StoredQueryExpr::Exists { .. } => Seq::empty(),
            StoredQueryExpr::Binary { left, right, .. } => seq![*left, *right],
            StoredQueryExpr::Any { left, array, .. } => seq![*left, *array],
            StoredQueryExpr::Unary { expr, .. }
            | StoredQueryExpr::IsNull { expr, .. }
            | StoredQueryExpr::IsNotNull { expr, .. }
            | StoredQueryExpr::Cast { expr, .. }
            | StoredQueryExpr::InSubquery { expr, .. } => seq![*expr],
            StoredQueryExpr::Function { args, .. } => args@,
            StoredQueryExpr::Array { elements, .. } => elements@,
            StoredQueryExpr::ArraySubscript { array, subscripts, .. } => seq![*array]
                + subscripts@,
            StoredQueryExpr::Setval { value, is_called, .. } => seq![*value] + optional(is_called),
            StoredQueryExpr::Aggregate { arg, .. } => optional(arg),
            StoredQueryExpr::InList { expr, list, .. } => seq![*expr] + list@,
            StoredQueryExpr::Between { expr, low, high, .. } => seq![*expr, *low, *high],
            StoredQueryExpr::Like { expr, pattern, .. } => seq![*expr, *pattern],
            StoredQueryExpr::Case { operand, when_clauses, else_clause, .. } => optional(operand)
                + flattened(when_clauses@) + optional(else_clause),
        }
    }

    /// The query that stands in the expression.
    pub open spec fn subquery(self) -> Option<StoredQueryV1> {
        match self {
            StoredQueryExpr::ScalarSubquery { query, .. }
            | StoredQueryExpr::Exists { query, .. }
            | StoredQueryExpr::InSubquery { query, .. } => Some(*query),
            _ => None,
        }
    }

    /// Operands are smaller than the expression they belong to.
    pub proof fn lemma_operand_is_smaller(self, index: int)
        requires
            0 <= index < self.operands().len(),
        ensures
            decreases_to!(self => self.operands()[index]),
    {
        let operand = self.operands()[index];
        match self {
            StoredQueryExpr::Function { args, .. } => {
                assert(operand == args@[index]);
            },
            StoredQueryExpr::Array { elements, .. } => {
                assert(operand == elements@[index]);
            },
            StoredQueryExpr::ArraySubscript { array, subscripts, .. } => {
                if index > 0 {
                    assert(operand == subscripts@[index - 1]);
                }
            },
            StoredQueryExpr::Setval { value, is_called, .. } => {
                if index > 0 {
                    assert(operand == *is_called->0);
                }
            },
            StoredQueryExpr::Aggregate { arg, .. } => {
                assert(operand == *arg->0);
            },
            StoredQueryExpr::InList { expr, list, .. } => {
                if index > 0 {
                    assert(operand == list@[index - 1]);
                }
            },
            StoredQueryExpr::Case { operand: subject, when_clauses, else_clause, .. } => {
                let first = optional(subject).len() as int;
                let pairs = when_clauses@.len() as int;
                if index < first {
                    assert(operand == *subject->0);
                } else if index < first + 2 * pairs {
                    let j = index - first;
                    if j % 2 == 0 {
                        assert(operand == when_clauses@[j / 2].0);
                    } else {
                        assert(operand == when_clauses@[j / 2].1);
                    }
                } else {
                    assert(operand == *else_clause->0);
                }
            },
            _ => {},
        }
    }

    pub fn data_type(&self) -> (data_type: &DataType)
        ensures
            *data_type == self.spec_data_type(),
    {
        match self {
            StoredQueryExpr::Literal { data_type, .. }
            | StoredQueryExpr::InputRef { data_type, .. }
            | StoredQueryExpr::Binary { data_type, .. }
            | StoredQueryExpr::Unary { data_type, .. }
            | StoredQueryExpr::Function { data_type, .. }
            | StoredQueryExpr::Array { data_type, .. }
            | StoredQueryExpr::ArraySubscript { data_type, .. }
            | StoredQueryExpr::Any { data_type, .. }
            | StoredQueryExpr::Nextval { data_type, .. }
            | StoredQueryExpr::Currval { data_type, .. }
            | StoredQueryExpr::Setval { data_type, .. }
            | StoredQueryExpr::Aggregate { data_type, .. }
            | StoredQueryExpr::LocalRef { data_type, .. }
            | StoredQueryExpr::OuterRef { data_type, .. }
            | StoredQueryExpr::IsNull { data_type, .. }
            | StoredQueryExpr::IsNotNull { data_type, .. }
            | StoredQueryExpr::InList { data_type, .. }
            | StoredQueryExpr::Between { data_type, .. }
            | StoredQueryExpr::Like { data_type, .. }
            | StoredQueryExpr::Case { data_type, .. }
            | StoredQueryExpr::Cast { data_type, .. }
            | StoredQueryExpr::ScalarSubquery { data_type, .. }
            | StoredQueryExpr::Exists { data_type, .. }
            | StoredQueryExpr::InSubquery { data_type, .. } => data_type,
        }
    }

    pub fn nullable(&self) -> (nullable: bool)
        ensures
            nullable == self.spec_nullable(),
    {
        match self {
            StoredQueryExpr::Literal { nullable, .. }
            | StoredQueryExpr::InputRef { nullable, .. }
            | StoredQueryExpr::Binary { nullable, .. }
            | StoredQueryExpr::Unary { nullable, .. }
            | StoredQueryExpr::Function { nullable, .. }
            | StoredQueryExpr::Array { nullable, .. }
            | StoredQueryExpr::ArraySubscript { nullable, .. }
            | StoredQueryExpr::Any { nullable, .. }
            | StoredQueryExpr::Nextval { nullable, .. }
            | StoredQueryExpr::Currval { nullable, .. }
            | StoredQueryExpr::Setval { nullable, .. }
            | StoredQueryExpr::Aggregate { nullable, .. }
            | StoredQueryExpr::LocalRef { nullable, .. }
            | StoredQueryExpr::OuterRef { nullable, .. }
            | StoredQueryExpr::IsNull { nullable, .. }
            | StoredQueryExpr::IsNotNull { nullable, .. }
            | StoredQueryExpr::InList { nullable, .. }
            | StoredQueryExpr::Between { nullable, .. }
            | StoredQueryExpr::Like { nullable, .. }
            | StoredQueryExpr::Case { nullable, .. }
            | StoredQueryExpr::Cast { nullable, .. }
            | StoredQueryExpr::ScalarSubquery { nullable, .. }
            | StoredQueryExpr::Exists { nullable, .. }
            | StoredQueryExpr::InSubquery { nullable, .. } => *nullable,
        }
    }

    pub(crate) fn declared_typing(&self) -> (typing: Typing)
        ensures
            typing == self.typing(),
    {
        Typing::new(self.data_type().clone(), self.nullable())
    }

    /// The direct operands of the expression, in order.
    pub(crate) fn operand_list<'a>(&'a self) -> (list: Vec<&'a StoredQueryExpr>)
        ensures
            refers_to(list@, self.operands()),
    {
        let mut list: Vec<&'a StoredQueryExpr> = Vec::new();
        match self {
            StoredQueryExpr::Literal { .. }
            | StoredQueryExpr::InputRef { .. }
            | StoredQueryExpr::LocalRef { .. }
            | StoredQueryExpr::OuterRef { .. }
            | StoredQueryExpr::Nextval { .. }
            | StoredQueryExpr::Currval { .. }
            | StoredQueryExpr::ScalarSubquery { .. }
            | StoredQueryExpr::Exists { .. } => {},
            StoredQueryExpr::Binary { left, right, .. } => {
                list.push(left);
                list.push(right);
            },
            StoredQueryExpr::Any { left, array, .. } => {
                list.push(left);
                list.push(array);
            },
            StoredQueryExpr::Unary { expr, .. }
            | StoredQueryExpr::IsNull { expr, .. }
            | StoredQueryExpr::IsNotNull { expr, .. }
            | StoredQueryExpr::Cast { expr, .. }
            | StoredQueryExpr::InSubquery { expr, .. } => {
                list.push(expr);
            },
            StoredQueryExpr::Function { args, .. } => push_all(&mut list, args),
            StoredQueryExpr::Array { elements, .. } => push_all(&mut list, elements),
            StoredQueryExpr::ArraySubscript { array, subscripts, .. } => {
                list.push(array);
                push_all(&mut list, subscripts);
            },
            StoredQueryExpr::Setval { value, is_called, .. } => {
                list.push(value);
                if let Some(is_called) = is_called {
                    list.push(is_called);
                }
            },
            StoredQueryExpr::Aggregate { arg, .. } => {
                if let Some(arg) = arg {
                    list.push(arg);
                }
            },
            StoredQueryExpr::InList { expr, list: items, .. } => {
                list.push(expr);
                push_all(&mut list, items);
            },
            StoredQueryExpr::Between { expr, low, high, .. } => {
                list.push(expr);
                list.push(low);
                list.push(high);
            },
            StoredQueryExpr::Like { expr, pattern, .. } => {
                list.push(expr);
                list.push(pattern);
            },
            StoredQueryExpr::Case { operand, when_clauses, else_clause, .. } => {
                if let Some(operand) = operand {
                    list.push(operand);
                }
                push_pairs(&mut list, when_clauses);
                if let Some(else_clause) = else_clause {
                    list.push(else_clause);
                }
            },
        }
        list
    }

    /// The query that stands in the expression.
    pub(crate) fn subquery_in<'a>(&'a self) -> (query: Option<&'a StoredQueryV1>)
        ensures
            match query {
                Some(query) => self.subquery() == Some(*query),
                None => self.subquery() is None,
            },
    {
        match self {
            StoredQueryExpr::ScalarSubquery { query, .. }
            | StoredQueryExpr::Exists { query, .. }
            | StoredQueryExpr::InSubquery { query, .. } => Some(query),
            _ => None,
        }
    }
}

/// A list of references stands for a list of expressions.
pub open spec fn refers_to(list: Seq<&StoredQueryExpr>, exprs: Seq<StoredQueryExpr>) -> bool {
    &&& list.len() == exprs.len()
    &&& forall|i: int| 0 <= i < list.len() ==> *(#[trigger] list[i]) == exprs[i]
}

pub(crate) fn push_all<'a>(
    list: &mut Vec<&'a StoredQueryExpr>,
    items: &'a Vec<StoredQueryExpr>,
)
    ensures
        final(list)@.len() == old(list)@.len() + items@.len(),
        forall|i: int| 0 <= i < old(list)@.len() ==> #[trigger] final(list)@[i] == old(list)@[i],
        forall|i: int|
            0 <= i < items@.len() ==> *final(list)@[old(list)@.len() + i] == #[trigger] items@[i],
{
    let ghost start = list@;
    let mut i: usize = 0;
    while i < items.len()
        invariant
            i <= items@.len(),
            list@.len() == start.len() + i,
            forall|j: int| 0 <= j < start.len() ==> #[trigger] list@[j] == start[j],
            forall|j: int| 0 <= j < i ==> *list@[start.len() + j] == #[trigger] items@[j],
        decreases items@.len() - i,
    {
        list.push(&items[i]);
        i += 1;
    }
}

fn push_pairs<'a>(
    list: &mut Vec<&'a StoredQueryExpr>,
    pairs: &'a Vec<(StoredQueryExpr, StoredQueryExpr)>,
)
    ensures
        final(list)@.len() == old(list)@.len() + 2 * pairs@.len(),
        forall|i: int| 0 <= i < old(list)@.len() ==> #[trigger] final(list)@[i] == old(list)@[i],
        forall|i: int|
            0 <= i < 2 * pairs@.len() ==> *final(list)@[old(list)@.len() + i]
                == #[trigger] flattened(pairs@)[i],
{
    let ghost start = list@;
    let mut i: usize = 0;
    while i < pairs.len()
        invariant
            i <= pairs@.len(),
            list@.len() == start.len() + 2 * i,
            forall|j: int| 0 <= j < start.len() ==> #[trigger] list@[j] == start[j],
            forall|j: int|
                0 <= j < 2 * i ==> *list@[start.len() + j] == #[trigger] flattened(pairs@)[j],
        decreases pairs@.len() - i,
    {
        list.push(&pairs[i].0);
        list.push(&pairs[i].1);
        i += 1;
        proof {
            assert(flattened(pairs@)[2 * i - 2] == pairs@[i - 1].0);
            assert(flattened(pairs@)[2 * i - 1] == pairs@[i - 1].1);
        }
    }
}

/// The expressions of a select list.
pub open spec fn item_exprs(items: Seq<StoredSelectItem>) -> Seq<StoredQueryExpr> {
    Seq::new(items.len(), |i: int| items[i].expr)
}

/// The expressions of a list of sort keys.
pub open spec fn key_exprs(keys: Seq<StoredOrderBy>) -> Seq<StoredQueryExpr> {
    Seq::new(keys.len(), |i: int| keys[i].expr)
}

/// The outer expressions of a list of correlations.
pub open spec fn outer_exprs(correlations: Seq<StoredCorrelatedColumn>) -> Seq<StoredQueryExpr> {
    Seq::new(correlations.len(), |i: int| correlations[i].outer)
}

/// The keys of `DISTINCT ON`.
pub open spec fn distinct_keys(distinct: Option<StoredDistinct>) -> Seq<StoredQueryExpr> {
    match distinct {
        Some(StoredDistinct::On(keys)) => keys@,
        _ => Seq::empty(),
    }
}

pub(crate) fn push_items<'a>(
    list: &mut Vec<&'a StoredQueryExpr>,
    items: &'a Vec<StoredSelectItem>,
)
    ensures
        final(list)@.len() == old(list)@.len() + items@.len(),
        forall|i: int| 0 <= i < old(list)@.len() ==> #[trigger] final(list)@[i] == old(list)@[i],
        forall|i: int|
            0 <= i < items@.len() ==> *final(list)@[old(list)@.len() + i]
                == (#[trigger] items@[i]).expr,
{
    let ghost start = list@;
    let mut i: usize = 0;
    while i < items.len()
        invariant
            i <= items@.len(),
            list@.len() == start.len() + i,
            forall|j: int| 0 <= j < start.len() ==> #[trigger] list@[j] == start[j],
            forall|j: int| 0 <= j < i ==> *list@[start.len() + j] == (#[trigger] items@[j]).expr,
        decreases items@.len() - i,
    {
        list.push(&items[i].expr);
        i += 1;
    }
}

pub(crate) fn push_keys<'a>(list: &mut Vec<&'a StoredQueryExpr>, keys: &'a [StoredOrderBy])
    ensures
        final(list)@.len() == old(list)@.len() + keys@.len(),
        forall|i: int| 0 <= i < old(list)@.len() ==> #[trigger] final(list)@[i] == old(list)@[i],
        forall|i: int|
            0 <= i < keys@.len() ==> *final(list)@[old(list)@.len() + i]
                == (#[trigger] keys@[i]).expr,
{
    let ghost start = list@;
    let mut i: usize = 0;
    while i < keys.len()
        invariant
            i <= keys@.len(),
            list@.len() == start.len() + i,
            forall|j: int| 0 <= j < start.len() ==> #[trigger] list@[j] == start[j],
            forall|j: int| 0 <= j < i ==> *list@[start.len() + j] == (#[trigger] keys@[j]).expr,
        decreases keys@.len() - i,
    {
        list.push(&keys[i].expr);
        i += 1;
    }
}

pub(crate) fn push_outer<'a>(
    list: &mut Vec<&'a StoredQueryExpr>,
    correlations: &'a Vec<StoredCorrelatedColumn>,
)
    ensures
        final(list)@.len() == old(list)@.len() + correlations@.len(),
        forall|i: int| 0 <= i < old(list)@.len() ==> #[trigger] final(list)@[i] == old(list)@[i],
        forall|i: int|
            0 <= i < correlations@.len() ==> *final(list)@[old(list)@.len() + i]
                == (#[trigger] correlations@[i]).outer,
{
    let ghost start = list@;
    let mut i: usize = 0;
    while i < correlations.len()
        invariant
            i <= correlations@.len(),
            list@.len() == start.len() + i,
            forall|j: int| 0 <= j < start.len() ==> #[trigger] list@[j] == start[j],
            forall|j: int|
                0 <= j < i ==> *list@[start.len() + j] == (#[trigger] correlations@[j]).outer,
        decreases correlations@.len() - i,
    {
        list.push(&correlations[i].outer);
        i += 1;
    }
}

impl StoredQueryV1 {
    /// The columns of the query's output.
    pub open spec fn outputs(self) -> Seq<StoredQueryColumn> {
        match self.body {
            StoredQueryBody::Select(select) => select.output_schema@,
            StoredQueryBody::Values(values) => values.output_schema@,
            StoredQueryBody::SetOp(set_op) => set_op.output_schema@,
        }
    }

    pub fn output_schema(&self) -> (schema: &[StoredQueryColumn])
        ensures
            schema@ == self.outputs(),
    {
        match &self.body {
            StoredQueryBody::Select(select) => select.output_schema.as_slice(),
            StoredQueryBody::Values(values) => values.output_schema.as_slice(),
            StoredQueryBody::SetOp(set_op) => set_op.output_schema.as_slice(),
        }
    }
}

/// The expressions of the first `count` rows of a `VALUES` list.
pub open spec fn row_exprs(rows: Seq<Vec<StoredQueryExpr>>, count: nat) -> Seq<StoredQueryExpr>
    decreases count,
{
    if count == 0 {
        Seq::empty()
    } else {
        row_exprs(rows, (count - 1) as nat) + rows[count - 1]@
    }
}

impl StoredSelect {
    /// The expressions that stand in the `SELECT` itself.
    pub open spec fn direct_exprs(self) -> Seq<StoredQueryExpr> {
        distinct_keys(self.distinct) + item_exprs(self.columns@) + clause(self.filter)
            + self.group_by@ + clause(self.having)
    }

    proof fn lemma_direct_expr_is_smaller(self, index: int)
        requires
            0 <= index < self.direct_exprs().len(),
        ensures
            decreases_to!(self => self.direct_exprs()[index]),
    {
        let expr = self.direct_exprs()[index];
        let a = distinct_keys(self.distinct).len() as int;
        let b = a + self.columns@.len();
        let c = b + clause(self.filter).len();
        let d = c + self.group_by@.len();
        if index < a {
            let keys = self.distinct->0->On_0;
            assert(expr == keys@[index]);
            assert(decreases_to!(self => self.distinct));
            assert(decreases_to!(self.distinct => self.distinct->0));
            assert(decreases_to!(self.distinct->0 => keys));
        } else if index < b {
            assert(expr == self.columns@[index - a].expr);
            assert(decreases_to!(self => self.columns));
            assert(decreases_to!(self.columns => self.columns@));
            assert(decreases_to!(self.columns@ => self.columns@[index - a]));
        } else if index < c {
            assert(expr == self.filter->0);
            assert(decreases_to!(self => self.filter));
        } else if index < d {
            assert(expr == self.group_by@[index - c]);
            assert(decreases_to!(self => self.group_by));
            assert(decreases_to!(self.group_by => self.group_by@));
        } else {
            assert(expr == self.having->0);
            assert(decreases_to!(self => self.having));
        }
    }

    fn push_direct<'a>(&'a self, list: &mut Vec<&'a StoredQueryExpr>)
        requires
            old(list)@.len() == 0,
        ensures
            refers_to(final(list)@, self.direct_exprs()),
    {
        if let Some(StoredDistinct::On(keys)) = &self.distinct {
            push_all(list, keys);
        }
        assert(refers_to(list@, distinct_keys(self.distinct)));
        push_items(list, &self.columns);
        if let Some(filter) = &self.filter {
            list.push(filter);
        }
        push_all(list, &self.group_by);
        if let Some(having) = &self.having {
            list.push(having);
        }
        let ghost exprs = self.direct_exprs();
        assert forall|i: int| 0 <= i < list@.len() implies *(#[trigger] list@[i]) == exprs[i] by {
            let a = distinct_keys(self.distinct).len() as int;
            let b = a + self.columns@.len();
            let c = b + clause(self.filter).len();
            let d = c + self.group_by@.len();
            if a <= i < b {
                assert(*list@[a + (i - a)] == self.columns@[i - a].expr);
            } else if c <= i < d {
                assert(*list@[c + (i - c)] == self.group_by@[i - c]);
            }
        }
    }
}

proof fn lemma_row_expr(rows: Seq<Vec<StoredQueryExpr>>, count: nat, index: int)
    requires
        count <= rows.len(),
        0 <= index < row_exprs(rows, count).len(),
    ensures
        decreases_to!(rows => row_exprs(rows, count)[index]),
    decreases count,
{
    let before = row_exprs(rows, (count - 1) as nat);
    if index < before.len() {
        lemma_row_expr(rows, (count - 1) as nat, index);
    } else {
        let row = rows[count - 1];
        assert(row_exprs(rows, count)[index] == row@[index - before.len()]);
        assert(decreases_to!(rows => row));
        assert(decreases_to!(row => row@));
    }
}

impl StoredQueryV1 {
    /// The expressions that stand in the query's body itself.
    pub open spec fn body_exprs(self) -> Seq<StoredQueryExpr> {
        match self.body {
            StoredQueryBody::Select(select) => select.direct_exprs(),
            StoredQueryBody::Values(values) => row_exprs(values.rows@, values.rows@.len()),
            StoredQueryBody::SetOp(_) => Seq::empty(),
        }
    }

    /// The expressions that stand in the query itself, without its correlations.
    pub open spec fn direct_exprs(self) -> Seq<StoredQueryExpr> {
        self.body_exprs() + key_exprs(self.order_by@)
    }

    /// The expressions of a query are smaller than the query.
    pub proof fn lemma_direct_expr_is_smaller(self, index: int)
        requires
            0 <= index < self.direct_exprs().len(),
        ensures
            decreases_to!(self => self.direct_exprs()[index]),
    {
        let expr = self.direct_exprs()[index];
        let a = self.body_exprs().len() as int;
        if index < a {
            assert(expr == self.body_exprs()[index]);
            assert(decreases_to!(self => self.body));
            match self.body {
                StoredQueryBody::Select(select) => {
                    select.lemma_direct_expr_is_smaller(index);
                    assert(decreases_to!(self.body => select));
                },
                StoredQueryBody::Values(values) => {
                    lemma_row_expr(values.rows@, values.rows@.len(), index);
                    assert(decreases_to!(self.body => values));
                    assert(decreases_to!(values => values.rows));
                    assert(decreases_to!(values.rows => values.rows@));
                },
                StoredQueryBody::SetOp(_) => {},
            }
        } else {
            assert(expr == self.order_by@[index - a].expr);
            assert(decreases_to!(self => self.order_by));
            assert(decreases_to!(self.order_by => self.order_by@));
            assert(decreases_to!(self.order_by@ => self.order_by@[index - a]));
        }
    }

    /// The outer columns that a query uses are smaller than the query.
    pub proof fn lemma_outer_expr_is_smaller(self, index: int)
        requires
            0 <= index < self.correlations@.len(),
        ensures
            decreases_to!(self => self.correlations@[index].outer),
    {
        assert(decreases_to!(self => self.correlations));
        assert(decreases_to!(self.correlations => self.correlations@));
        assert(decreases_to!(self.correlations@ => self.correlations@[index]));
    }

    /// The input of a `SELECT` is smaller than the query.
    pub proof fn lemma_from_is_smaller(self)
        requires
            self.body is Select,
            self.body->Select_0.from is Some,
        ensures
            decreases_to!(self => self.body->Select_0.from->0),
    {
        let select = self.body->Select_0;
        assert(decreases_to!(self => self.body));
        assert(decreases_to!(self.body => select));
        assert(decreases_to!(select => select.from));
    }

    /// The expressions that stand in the query itself, without its correlations.
    pub(crate) fn direct_expr_list<'a>(&'a self) -> (list: Vec<&'a StoredQueryExpr>)
        ensures
            refers_to(list@, self.direct_exprs()),
    {
        let mut list: Vec<&'a StoredQueryExpr> = Vec::new();
        match &self.body {
            StoredQueryBody::Select(select) => select.push_direct(&mut list),
            StoredQueryBody::Values(values) => {
                let mut i: usize = 0;
                while i < values.rows.len()
                    invariant
                        i <= values.rows@.len(),
                        refers_to(list@, row_exprs(values.rows@, i as nat)),
                    decreases values.rows@.len() - i,
                {
                    let ghost start = list@;
                    push_all(&mut list, &values.rows[i]);
                    i += 1;
                    proof {
                        let exprs = row_exprs(values.rows@, i as nat);
                        assert forall|j: int| 0 <= j < list@.len() implies *(#[trigger] list@[j])
                            == exprs[j] by {
                            if j < start.len() {
                                assert(list@[j] == start[j]);
                            } else {
                                assert(*list@[start.len() + (j - start.len())] == values.rows@[i
                                    - 1]@[j - start.len()]);
                            }
                        }
                    }
                }
            },
            StoredQueryBody::SetOp(_) => {},
        }
        let ghost start = list@;
        assert(refers_to(start, self.body_exprs()));
        push_keys(&mut list, &self.order_by);
        proof {
            let exprs = self.direct_exprs();
            assert forall|j: int| 0 <= j < list@.len() implies *(#[trigger] list@[j])
                == exprs[j] by {
                if j < start.len() {
                    assert(list@[j] == start[j]);
                } else {
                    assert(*list@[start.len() + (j - start.len())] == self.order_by@[j
                        - start.len()].expr);
                }
            }
        }
        list
    }

    /// The outer columns that the query uses.
    pub(crate) fn outer_expr_list<'a>(&'a self) -> (list: Vec<&'a StoredQueryExpr>)
        ensures
            refers_to(list@, outer_exprs(self.correlations@)),
    {
        let mut list: Vec<&'a StoredQueryExpr> = Vec::new();
        push_outer(&mut list, &self.correlations);
        proof {
            assert forall|j: int| 0 <= j < list@.len() implies *(#[trigger] list@[j])
                == outer_exprs(self.correlations@)[j] by {
                assert(*list@[0 + j] == self.correlations@[j].outer);
            }
        }
        list
    }
}

} // verus!
