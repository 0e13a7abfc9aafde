//! The rules for a single node of an expression in a query.

use vstd::prelude::*;

use crate::array::value_matches_type;
use crate::catalog_change::{CatalogObjectId, CatalogObjectSet};
use crate::error::{self, DbError, ErrorView, Result, SqlState};
use crate::functions::registry::{self, ScalarFunction};
use crate::functions::signature::{ArgType, Verdict};
use crate::ids::FunctionId;
use crate::pg_type::PgType;
use crate::schema::{ArrayType, DataType};
use crate::statistics::value_is_finite;
use crate::stored_query::ranges::{RangeTable, RangeTarget, Ranges, StoredRangeTarget};
use crate::stored_query::{
    self, StoredColumnReference, StoredCorrelatedColumn, StoredQueryColumn, StoredQueryExpr,
    StoredQueryUnaryOp, StoredQueryV1, GENERATE_SERIES_FUNCTION_ID, MAX_STORED_QUERY_COLUMNS,
    MAX_STORED_QUERY_LIST_ITEMS, UNNEST_FUNCTION_ID,
};
use crate::text;
use crate::typing::{self, Typing};
use crate::value::Value;

verus! {

/// A limit of the query format is exceeded.
pub open spec fn limit_error(message: Seq<char>) -> ErrorView {
    error::plan_error(SqlState::ProgramLimitExceeded, message)
}

pub(crate) fn limit_exceeded(message: &str) -> (error: DbError)
    ensures
        error@ == limit_error(message@),
{
    DbError::plan(SqlState::ProgramLimitExceeded, message)
}

/// A list has too many items.
pub open spec fn list_problem(len: nat) -> Option<ErrorView> {
    if len > MAX_STORED_QUERY_LIST_ITEMS {
        Some(limit_error("stored query list exceeds limit"@))
    } else {
        None
    }
}

pub(crate) fn check_list(len: usize) -> (result: Result<()>)
    ensures
        match result {
            Ok(_) => list_problem(len as nat) is None,
            Err(error) => list_problem(len as nat) == Some(error@),
        },
{
    if len > MAX_STORED_QUERY_LIST_ITEMS {
        return Err(limit_exceeded("stored query list exceeds limit"));
    }
    Ok(())
}

/// A list has too many columns.
pub open spec fn columns_problem(len: nat) -> Option<ErrorView> {
    if len > MAX_STORED_QUERY_COLUMNS {
        Some(limit_error("stored query column list exceeds limit"@))
    } else {
        None
    }
}

pub(crate) fn check_columns(len: usize) -> (result: Result<()>)
    ensures
        match result {
            Ok(_) => columns_problem(len as nat) is None,
            Err(error) => columns_problem(len as nat) == Some(error@),
        },
{
    if len > MAX_STORED_QUERY_COLUMNS {
        return Err(limit_exceeded("stored query column list exceeds limit"));
    }
    Ok(())
}

/// A condition is not boolean.
pub open spec fn condition_problem(expr: StoredQueryExpr, context: Seq<char>) -> Option<ErrorView> {
    if expr.spec_data_type() is Boolean {
        None
    } else {
        Some(
            error::internal_error(
                "stored query "@ + context + " expression is not boolean"@,
            ),
        )
    }
}

pub(crate) fn require_boolean_expression(expr: &StoredQueryExpr, context: &str) -> (result: Result<
    (),
>)
    ensures
        match result {
            Ok(_) => condition_problem(*expr, context@) is None,
            Err(error) => condition_problem(*expr, context@) == Some(error@),
        },
{
    if !matches!(expr.data_type(), DataType::Boolean) {
        return Err(
            DbError::internal(
                &text::joined_text("stored query ", context, " expression is not boolean"),
            ),
        );
    }
    Ok(())
}

/// The built-in aggregate functions.
pub open spec fn is_aggregate_function(id: FunctionId) -> bool {
    ||| id == 2_147
    ||| id == 2_107
    ||| id == 2_100
    ||| id == 2_131
    ||| id == 2_115
    ||| id == 2_713
    ||| id == 2_712
    ||| id == 2_644
    ||| id == 2_643
    ||| id == 2_517
    ||| id == 2_518
    ||| id == 2_335
    ||| id == 3_538
}

fn stored_aggregate_function_exists(id: FunctionId) -> (exists_: bool)
    ensures
        exists_ == is_aggregate_function(id),
{
    id == 2_147 || id == 2_107 || id == 2_100 || id == 2_131 || id == 2_115 || id == 2_713 || id
        == 2_712 || id == 2_644 || id == 2_643 || id == 2_517 || id == 2_518 || id == 2_335 || id
        == 3_538
}

/// Whether a stored query can call the function: a registered scalar function, a
/// table function or an aggregate.
pub fn stored_query_function_exists(id: FunctionId) -> (known: bool)
    ensures
        known == (registry::function_with_id(id) is Some || id == UNNEST_FUNCTION_ID || id
            == GENERATE_SERIES_FUNCTION_ID || is_aggregate_function(id)),
{
    registry::lookup_scalar_function_by_id(id).is_some() || id == UNNEST_FUNCTION_ID || id
        == GENERATE_SERIES_FUNCTION_ID || stored_aggregate_function_exists(id)
}

/// What the columns of a query's expressions refer to.
pub ghost struct ScopeView {
    pub ranges: Ranges,
    pub output: Seq<StoredQueryColumn>,
    pub correlations: Seq<StoredCorrelatedColumn>,
}

/// What the columns of a query's expressions refer to.
#[derive(Clone, Copy)]
pub struct StoredExprScope<'s, 'a> {
    pub ranges: &'s RangeTable<'a>,
    pub output: &'s [StoredQueryColumn],
    pub correlations: &'s [StoredCorrelatedColumn],
}

impl<'s, 'a> View for StoredExprScope<'s, 'a> {
    type V = ScopeView;

    open spec fn view(&self) -> ScopeView {
        ScopeView {
            ranges: self.ranges@,
            output: self.output@,
            correlations: self.correlations@,
        }
    }
}

/// The declared type metadata is not what the operands give.
pub open spec fn inconsistency(declared: Typing, expected: Typing) -> Option<ErrorView> {
    if declared == expected {
        None
    } else {
        Some(error::internal_error("stored query expression has inconsistent type metadata"@))
    }
}

/// A declared typing, checked against the one that a rule gives, or the error for
/// operands that the rule does not take.
pub open spec fn metadata_problem(
    declared: Typing,
    expected: Option<Typing>,
    message: Seq<char>,
) -> Option<ErrorView> {
    match expected {
        Some(expected) => inconsistency(declared, expected),
        None => Some(error::internal_error(message)),
    }
}

fn require_typing(declared: &Typing, expected: &Typing) -> (result: Result<()>)
    ensures
        match result {
            Ok(_) => inconsistency(*declared, *expected) is None,
            Err(error) => inconsistency(*declared, *expected) == Some(error@),
        },
{
    if !declared.is_same(expected) {
        return Err(
            DbError::internal("stored query expression has inconsistent type metadata"),
        );
    }
    Ok(())
}

fn require_query_metadata(declared: &Typing, expected: Option<Typing>, message: &str) -> (result:
    Result<()>)
    ensures
        match result {
            Ok(_) => metadata_problem(*declared, expected, message@) is None,
            Err(error) => metadata_problem(*declared, expected, message@) == Some(error@),
        },
{
    match expected {
        Some(expected) => require_typing(declared, &expected),
        None => Err(DbError::internal(message)),
    }
}

/// The typings of a list of expressions.
pub open spec fn typings(list: Seq<StoredQueryExpr>) -> Seq<Typing> {
    Seq::new(list.len(), |i: int| list[i].typing())
}

/// The types of a list of expressions.
pub open spec fn data_types(list: Seq<StoredQueryExpr>) -> Seq<DataType> {
    Seq::new(list.len(), |i: int| list[i].spec_data_type())
}

/// The nullabilities of a list of expressions.
pub open spec fn nullabilities(list: Seq<StoredQueryExpr>) -> Seq<bool> {
    Seq::new(list.len(), |i: int| list[i].spec_nullable())
}

/// An expression as a signature sees it.
pub open spec fn argument(expr: &StoredQueryExpr) -> ArgType<'_> {
    ArgType {
        data_type: expr.spec_data_type(),
        literal: match expr {
            StoredQueryExpr::Literal { value, .. } => Some(value),
            _ => None,
        },
    }
}

/// A list of expressions as a signature sees it.
pub open spec fn arguments(list: Seq<StoredQueryExpr>) -> Seq<ArgType<'static>> {
    Seq::new(list.len(), |i: int| argument(&list[i]))
}

fn typing_list(list: &Vec<StoredQueryExpr>) -> (found: Vec<Typing>)
    ensures
        found@ == typings(list@),
{
    let mut found: Vec<Typing> = Vec::new();
    let mut i: usize = 0;
    while i < list.len()
        invariant
            i <= list@.len(),
            found@ == typings(list@).take(i as int),
        decreases list@.len() - i,
    {
        found.push(list[i].declared_typing());
        i += 1;
    }
    found
}

/// The first flaw in the metadata of a call of a scalar function.
pub open spec fn call_problem(
    function: FunctionId,
    args: Seq<StoredQueryExpr>,
    declared: Typing,
    pg_type: Option<PgType>,
) -> Option<ErrorView> {
    if !registry::id_matches(function, data_types(args), declared.data_type, pg_type) {
        Some(
            error::internal_error(
                "stored query scalar function "@ + text::decimal_text(function as nat)
                    + " has invalid arguments or result type"@,
            ),
        )
    } else {
        let (registered, _) = registry::function_with_id(function)->0;
        match registered.signature.verdict(registered.name, arguments(args)) {
            Verdict::Err(_) => Some(
                error::internal_error(
                    "stored query scalar function "@ + text::decimal_text(function as nat)
                        + " has invalid argument values"@,
                ),
            ),
            Verdict::Ok(data_type) => {
                if data_type != declared.data_type {
                    Some(
                        error::internal_error(
                            "stored query scalar function has inconsistent result metadata"@,
                        ),
                    )
                } else if declared.nullable != registered.result_nullable(nullabilities(args)) {
                    Some(
                        error::internal_error(
                            "stored query scalar function has invalid nullability metadata"@,
                        ),
                    )
                } else {
                    None
                }
            },
        }
    }
}

fn validate_call(
    function: FunctionId,
    args: &Vec<StoredQueryExpr>,
    declared: &Typing,
    pg_type: &Option<PgType>,
) -> (result: Result<()>)
    ensures
        match result {
            Ok(_) => call_problem(function, args@, *declared, *pg_type) is None,
            Err(error) => call_problem(function, args@, *declared, *pg_type) == Some(error@),
        },
{
    let mut types: Vec<DataType> = Vec::new();
    let mut nullable: Vec<bool> = Vec::new();
    let mut passed: Vec<ArgType<'_>> = Vec::new();
    let mut i: usize = 0;
    while i < args.len()
        invariant
            i <= args@.len(),
            types@ == data_types(args@).take(i as int),
            nullable@ == nullabilities(args@).take(i as int),
            passed@ == arguments(args@).take(i as int),
        decreases args@.len() - i,
    {
        let data_type: DataType = args[i].data_type().clone();
        types.push(data_type.clone());
        nullable.push(args[i].nullable());
        let literal: Option<&Value> = match &args[i] {
            StoredQueryExpr::Literal { value, .. } => Some(value),
            _ => None,
        };
        passed.push(ArgType { data_type, literal });
        i += 1;
    }
    assert(types@ == data_types(args@));
    assert(nullable@ == nullabilities(args@));
    assert(passed@ == arguments(args@));
    let matching: bool = registry::scalar_function_id_matches(
        function,
        &types,
        &declared.data_type,
        pg_type.as_ref(),
    );
    let found: Option<ScalarFunction> = match registry::lookup_scalar_function_by_id(function) {
        Some((registered, _)) => Some(registered),
        None => None,
    };
    let registered: ScalarFunction = match found {
        Some(registered) if matching => registered,
        _ => {
            return Err(
                DbError::internal(
                    &text::numbered_text(
                        "stored query scalar function ",
                        function as u128,
                        " has invalid arguments or result type",
                    ),
                ),
            );
        },
    };
    match registered.check_signature(&passed) {
        Ok(data_type) => {
            if data_type != declared.data_type {
                return Err(
                    DbError::internal(
                        "stored query scalar function has inconsistent result metadata",
                    ),
                );
            }
            if declared.nullable != registered.result_nullable(&nullable) {
                return Err(
                    DbError::internal(
                        "stored query scalar function has invalid nullability metadata",
                    ),
                );
            }
            Ok(())
        },
        Err(_) => Err(
            DbError::internal(
                &text::numbered_text(
                    "stored query scalar function ",
                    function as u128,
                    " has invalid argument values",
                ),
            ),
        ),
    }
}

/// The typing of an aggregate, if the function takes the argument.
pub open spec fn aggregate_typing(
    function: FunctionId,
    arg: Option<Typing>,
    distinct: bool,
) -> Option<Typing> {
    if function == 2_147 {
        if arg is None && distinct {
            None
        } else {
            Some(typing::typing(DataType::Integer, false))
        }
    } else {
        match arg {
            None => None,
            Some(arg) => {
                if function == 2_107 || function == 2_100 {
                    match arg.data_type {
                        DataType::Integer | DataType::Double | DataType::Real => Some(
                            typing::typing(arg.data_type, true),
                        ),
                        DataType::Numeric { .. } => Some(
                            typing::typing(DataType::Numeric { precision: None, scale: 0 }, true),
                        ),
                        _ => None,
                    }
                } else if function == 2_131 || function == 2_115 {
                    Some(typing::typing(arg.data_type, true))
                } else if function == 2_713 || function == 2_712 || function == 2_644 || function
                    == 2_643 {
                    if typing::family_of(arg.data_type) is Some {
                        Some(typing::typing(DataType::Double, true))
                    } else {
                        None
                    }
                } else if function == 2_517 || function == 2_518 {
                    if arg.data_type is Boolean {
                        Some(typing::typing(DataType::Boolean, true))
                    } else {
                        None
                    }
                } else if function == 2_335 {
                    if arg.data_type is Array {
                        None
                    } else {
                        Some(
                            typing::typing(DataType::Array(ArrayType::of(arg.data_type)), true),
                        )
                    }
                } else if function == 3_538 {
                    match arg.data_type {
                        DataType::Array(array) if array.element() is Text => Some(
                            typing::typing(DataType::Text, true),
                        ),
                        _ => None,
                    }
                } else {
                    None
                }
            },
        }
    }
}

fn type_aggregate(function: FunctionId, arg: Option<Typing>, distinct: bool) -> (result: Option<
    Typing,
>)
    ensures
        result == aggregate_typing(function, arg, distinct),
{
    if function == 2_147 {
        if arg.is_none() && distinct {
            return None;
        }
        return Some(Typing::new(DataType::Integer, false));
    }
    let data_type: DataType = match arg {
        Some(arg) => arg.data_type,
        None => return None,
    };
    if function == 2_107 || function == 2_100 {
        match data_type {
            DataType::Integer | DataType::Double | DataType::Real => Some(
                Typing::new(data_type, true),
            ),
            DataType::Numeric { .. } => Some(
                Typing::new(DataType::Numeric { precision: None, scale: 0 }, true),
            ),
            _ => None,
        }
    } else if function == 2_131 || function == 2_115 {
        Some(Typing::new(data_type, true))
    } else if function == 2_713 || function == 2_712 || function == 2_644 || function == 2_643 {
        if typing::numeric_family(&data_type).is_some() {
            Some(Typing::new(DataType::Double, true))
        } else {
            None
        }
    } else if function == 2_517 || function == 2_518 {
        if matches!(data_type, DataType::Boolean) {
            Some(Typing::new(DataType::Boolean, true))
        } else {
            None
        }
    } else if function == 2_335 {
        if matches!(data_type, DataType::Array(_)) {
            None
        } else {
            Some(
                Typing::new(DataType::Array(ArrayType::from_validated_scalar(data_type)), true),
            )
        }
    } else if function == 3_538 {
        match &data_type {
            DataType::Array(array) => {
                if matches!(array.element_type(), DataType::Text) {
                    Some(Typing::new(DataType::Text, true))
                } else {
                    None
                }
            },
            _ => None,
        }
    } else {
        None
    }
}

/// A query gives one column of the given type.
pub open spec fn gives_one_column(query: StoredQueryV1, data_type: DataType) -> bool {
    query.outputs().len() == 1 && query.outputs()[0].data_type == data_type
}

fn does_give_one_column(query: &StoredQueryV1, data_type: &DataType) -> (gives: bool)
    ensures
        gives == gives_one_column(*query, *data_type),
{
    let output: &[StoredQueryColumn] = query.output_schema();
    output.len() == 1 && output[0].data_type == *data_type
}

/// Each branch tests that its own result is not NULL, as `COALESCE` does.
pub open spec fn is_coalesce(when_clauses: Seq<(StoredQueryExpr, StoredQueryExpr)>) -> bool {
    forall|i: int|
        0 <= i < when_clauses.len() ==> {
            &&& (#[trigger] when_clauses[i]).0 is IsNotNull
            &&& when_clauses[i].0->IsNotNull_expr.same(when_clauses[i].1)
        }
}

/// The nullability of a `CASE` in the form of a `COALESCE`: it is NULL only where
/// every branch and the last alternative are. `None` if it does not have that form.
pub open spec fn coalesce_nullable(
    operand: Option<Box<StoredQueryExpr>>,
    when_clauses: Seq<(StoredQueryExpr, StoredQueryExpr)>,
    else_clause: Option<Box<StoredQueryExpr>>,
) -> Option<bool> {
    if operand is None && else_clause is Some && is_coalesce(when_clauses) {
        Some(
            else_clause->0.spec_nullable() && forall|i: int|
                0 <= i < when_clauses.len() ==> (#[trigger] when_clauses[i]).1.spec_nullable(),
        )
    } else {
        None
    }
}

fn coalesce_case_nullable(
    operand: &Option<Box<StoredQueryExpr>>,
    when_clauses: &Vec<(StoredQueryExpr, StoredQueryExpr)>,
    else_clause: &Option<Box<StoredQueryExpr>>,
) -> (nullable: Option<bool>)
    ensures
        nullable == coalesce_nullable(*operand, when_clauses@, *else_clause),
{
    if operand.is_some() {
        return None;
    }
    let else_nullable: bool = match else_clause {
        Some(else_clause) => else_clause.nullable(),
        None => return None,
    };
    let mut all_nullable: bool = true;
    let mut i: usize = 0;
    while i < when_clauses.len()
        invariant
            i <= when_clauses@.len(),
            forall|j: int|
                0 <= j < i ==> {
                    &&& (#[trigger] when_clauses@[j]).0 is IsNotNull
                    &&& when_clauses@[j].0->IsNotNull_expr.same(when_clauses@[j].1)
                },
            all_nullable == forall|j: int|
                0 <= j < i ==> (#[trigger] when_clauses@[j]).1.spec_nullable(),
        decreases when_clauses@.len() - i,
    {
        let then: &StoredQueryExpr = &when_clauses[i].1;
        let tested: bool = match &when_clauses[i].0 {
            StoredQueryExpr::IsNotNull { expr, .. } => expr.is_same(then),
            _ => false,
        };
        if !tested {
            assert(when_clauses@[i as int] == when_clauses@[i as int]);
            return None;
        }
        assert(when_clauses@[i as int].1 == *then);
        all_nullable = all_nullable && then.nullable();
        i += 1;
    }
    Some(all_nullable && else_nullable)
}

/// Some branch or the last alternative of a `CASE` can be NULL, or there is no
/// last alternative.
pub open spec fn branches_nullable(
    when_clauses: Seq<(StoredQueryExpr, StoredQueryExpr)>,
    else_clause: Option<Box<StoredQueryExpr>>,
) -> bool {
    ||| else_clause is None
    ||| else_clause->0.spec_nullable()
    ||| exists|i: int|
        0 <= i < when_clauses.len() && (#[trigger] when_clauses[i]).1.spec_nullable()
}

fn are_branches_nullable(
    when_clauses: &Vec<(StoredQueryExpr, StoredQueryExpr)>,
    else_clause: &Option<Box<StoredQueryExpr>>,
) -> (nullable: bool)
    ensures
        nullable == branches_nullable(when_clauses@, *else_clause),
{
    match else_clause {
        Some(else_clause) => {
            if else_clause.nullable() {
                return true;
            }
        },
        None => return true,
    }
    let mut i: usize = 0;
    while i < when_clauses.len()
        invariant
            i <= when_clauses@.len(),
            forall|j: int| 0 <= j < i ==> !(#[trigger] when_clauses@[j]).1.spec_nullable(),
        decreases when_clauses@.len() - i,
    {
        if when_clauses[i].1.nullable() {
            assert(when_clauses@[i as int].1.spec_nullable());
            return true;
        }
        i += 1;
    }
    false
}

/// What is wrong with a reference to a column of an input.
pub open spec fn input_problem(
    expr: StoredQueryExpr,
    target: RangeTarget,
    column: StoredColumnReference,
) -> Option<ErrorView> {
    match (target, column) {
        (RangeTarget::Catalog { .. }, StoredColumnReference::Catalog(_)) => None,
        (
            RangeTarget::Position { columns, null_extended },
            StoredColumnReference::Position(position),
        ) => {
            if position >= columns.len() {
                Some(error::internal_error("stored query column position is out of range"@))
            } else if columns[position as int].data_type != expr.spec_data_type() || (
            columns[position as int].nullable || null_extended) != expr.spec_nullable() {
                Some(
                    error::internal_error(
                        "stored query positional column type does not match its range"@,
                    ),
                )
            } else {
                None
            }
        },
        _ => Some(
            error::internal_error("stored query column reference kind does not match range"@),
        ),
    }
}

/// The catalog objects that the node itself names.
pub open spec fn own_objects(expr: StoredQueryExpr, ranges: Ranges) -> Set<CatalogObjectId> {
    match expr {
        StoredQueryExpr::InputRef { range, column: StoredColumnReference::Catalog(column), .. } => {
            match ranges[range] {
                RangeTarget::Catalog { table, .. } if ranges.contains_key(range) => Set::empty().insert(
                    CatalogObjectId::Table(table),
                ).insert(CatalogObjectId::Column { relation: table, column }),
                _ => Set::empty(),
            }
        },
        StoredQueryExpr::Function { function, .. }
        | StoredQueryExpr::Aggregate { function, .. } => Set::empty().insert(
            CatalogObjectId::Function(function),
        ),
        StoredQueryExpr::Nextval { sequence, .. }
        | StoredQueryExpr::Currval { sequence, .. }
        | StoredQueryExpr::Setval { sequence, .. } => Set::empty().insert(
            CatalogObjectId::Sequence(sequence),
        ),
        _ => Set::empty(),
    }
}

impl StoredQueryExpr {
    /// What is wrong with the expression before its operands are looked at.
    pub open spec fn problem_before(self, scope: ScopeView) -> Option<ErrorView> {
        match self {
            StoredQueryExpr::Literal { value, data_type, nullable } => {
                if value@.matches_type(data_type) && nullable == (value@ is Null)
                    && value@.is_finite() {
                    None
                } else {
                    Some(error::internal_error("stored query literal has invalid type metadata"@))
                }
            },
            StoredQueryExpr::LocalRef { output, data_type, .. } => {
                if output < scope.output.len() && scope.output[output as int].data_type
                    == data_type {
                    None
                } else {
                    Some(
                        error::internal_error(
                            "stored query output reference is out of range or has a stale type"@,
                        ),
                    )
                }
            },
            StoredQueryExpr::OuterRef { correlation, data_type, nullable } => {
                if correlation < scope.correlations.len() && scope.correlations[
                correlation as int].data_type == data_type && scope.correlations[
                correlation as int].nullable == nullable {
                    None
                } else {
                    Some(
                        error::internal_error(
                            "stored query correlation reference is out of range or has stale metadata"@,
                        ),
                    )
                }
            },
            StoredQueryExpr::InputRef { range, column, .. } => {
                if !scope.ranges.contains_key(range) {
                    Some(
                        error::internal_error("stored query expression references unknown range"@),
                    )
                } else {
                    input_problem(self, scope.ranges[range], column)
                }
            },
            StoredQueryExpr::Function { function, args, pg_type, .. } => {
                if list_problem(args@.len()) is Some {
                    list_problem(args@.len())
                } else {
                    call_problem(function, args@, self.typing(), pg_type)
                }
            },
            StoredQueryExpr::Array { elements, dimensions, .. } => {
                if list_problem(elements@.len()) is Some {
                    list_problem(elements@.len())
                } else {
                    list_problem(dimensions@.len())
                }
            },
            StoredQueryExpr::ArraySubscript { subscripts, .. } => list_problem(subscripts@.len()),
            StoredQueryExpr::InList { list, .. } => list_problem(list@.len()),
            StoredQueryExpr::Aggregate { function, .. } => {
                if is_aggregate_function(function) {
                    None
                } else {
                    Some(
                        error::internal_error(
                            "stored query references unknown aggregate function "@
                                + text::decimal_text(function as nat),
                        ),
                    )
                }
            },
            StoredQueryExpr::Case { when_clauses, flow_sensitive_nullable, .. } => {
                if list_problem(when_clauses@.len()) is Some {
                    list_problem(when_clauses@.len())
                } else if when_clauses@.len() == 0 && !flow_sensitive_nullable {
                    Some(error::internal_error("stored query CASE has no WHEN clauses"@))
                } else {
                    None
                }
            },
            _ => None,
        }
    }

    /// What is wrong with the expression once its operand at `index` has been looked
    /// at.
    pub open spec fn problem_between(self, index: int) -> Option<ErrorView> {
        match self {
            StoredQueryExpr::Case { operand, when_clauses, else_clause, data_type, .. } => {
                let branch = index - stored_query::optional(operand).len();
                let subject = match operand {
                    Some(operand) => Some(operand.spec_data_type()),
                    None => None,
                };
                if branch < 0 || (branch < 2 * when_clauses@.len() && branch % 2 == 0) {
                    None
                } else if branch < 2 * when_clauses@.len() {
                    let (when, then) = when_clauses@[branch / 2];
                    if typing::branch_fits(
                        subject,
                        when.spec_data_type(),
                        then.spec_data_type(),
                        data_type,
                    ) {
                        None
                    } else {
                        Some(error::internal_error("stored query CASE has invalid branch types"@))
                    }
                } else if else_clause is Some && else_clause->0.spec_data_type() != data_type {
                    Some(error::internal_error("stored query CASE has invalid ELSE type"@))
                } else {
                    None
                }
            },
            _ => None,
        }
    }

    /// What is wrong with the expression once all its operands have been looked at.
    pub open spec fn problem_after(self) -> Option<ErrorView> {
        match self {
            StoredQueryExpr::Literal { .. }
            | StoredQueryExpr::LocalRef { .. }
            | StoredQueryExpr::OuterRef { .. }
            | StoredQueryExpr::InputRef { .. }
            | StoredQueryExpr::Function { .. } => None,
            StoredQueryExpr::Binary { left, op, right, .. } => metadata_problem(
                self.typing(),
                typing::binary_typing(
                    left.typing(),
                    stored_query::scalar_operator(op),
                    right.typing(),
                ),
                "stored query binary expression has invalid operand types"@,
            ),
            StoredQueryExpr::Unary { op, expr, .. } => metadata_problem(
                self.typing(),
                match op {
                    StoredQueryUnaryOp::Neg => typing::negation_typing(expr.typing()),
                    StoredQueryUnaryOp::Not => typing::not_typing(expr.typing()),
                },
                "stored query unary expression has invalid operand type"@,
            ),
            StoredQueryExpr::Array { elements, dimensions, element_type, .. } => {
                match typing::array_typing(typings(elements@), dimensions@, element_type) {
                    Ok(expected) => metadata_problem(
                        self.typing(),
                        expected,
                        "stored query array has invalid shape or element type"@,
                    ),
                    Err(error) => Some(error),
                }
            },
            StoredQueryExpr::ArraySubscript { array, subscripts, .. } => {
                match array.spec_data_type() {
                    DataType::Array(array_type) => {
                        if subscripts@.len() == 0 || !typing::all_typed(
                            typings(subscripts@),
                            DataType::Integer,
                        ) {
                            Some(
                                error::internal_error(
                                    "stored query array subscript has invalid indexes"@,
                                ),
                            )
                        } else {
                            inconsistency(
                                self.typing(),
                                typing::typing(array_type.element(), true),
                            )
                        }
                    },
                    _ => Some(
                        error::internal_error(
                            "stored query array subscript has a non-array operand"@,
                        ),
                    ),
                }
            },
            StoredQueryExpr::Any { left, op, array, .. } => {
                match array.spec_data_type() {
                    DataType::Array(array_type) => {
                        if !stored_query::scalar_operator(op).spec_is_comparison()
                            || array_type.element() != left.spec_data_type() {
                            Some(error::internal_error("stored query ANY has invalid operands"@))
                        } else {
                            inconsistency(self.typing(), typing::typing(DataType::Boolean, true))
                        }
                    },
                    _ => Some(error::internal_error("stored query ANY has a non-array operand"@)),
                }
            },
            StoredQueryExpr::Nextval { .. } | StoredQueryExpr::Currval { .. } => inconsistency(
                self.typing(),
                typing::typing(DataType::Integer, false),
            ),
            StoredQueryExpr::Setval { value, is_called, .. } => metadata_problem(
                self.typing(),
                typing::setval_typing(
                    value.typing(),
                    match is_called {
                        Some(is_called) => Some(is_called.typing()),
                        None => None,
                    },
                ),
                "stored query setval has invalid argument types"@,
            ),
            StoredQueryExpr::Aggregate { function, arg, distinct, .. } => metadata_problem(
                self.typing(),
                aggregate_typing(
                    function,
                    match arg {
                        Some(arg) => Some(arg.typing()),
                        None => None,
                    },
                    distinct,
                ),
                "stored query aggregate function "@ + text::decimal_text(function as nat)
                    + " has invalid arguments"@,
            ),
            StoredQueryExpr::IsNull { .. } | StoredQueryExpr::IsNotNull { .. } => inconsistency(
                self.typing(),
                typing::typing(DataType::Boolean, false),
            ),
            StoredQueryExpr::InList { expr, list, .. } => metadata_problem(
                self.typing(),
                typing::in_list_typing(expr.typing(), typings(list@)),
                "stored query IN list has invalid item types"@,
            ),
            StoredQueryExpr::Between { expr, low, high, .. } => metadata_problem(
                self.typing(),
                typing::between_typing(expr.typing(), low.typing(), high.typing()),
                "stored query BETWEEN has invalid operand types"@,
            ),
            StoredQueryExpr::Like { expr, pattern, .. } => metadata_problem(
                self.typing(),
                typing::like_typing(expr.typing(), pattern.typing()),
                "stored query LIKE has invalid operand types"@,
            ),
            StoredQueryExpr::Case {
                operand,
                when_clauses,
                else_clause,
                flow_sensitive_nullable,
                nullable,
                ..
            } => {
                let expected = if flow_sensitive_nullable {
                    coalesce_nullable(operand, when_clauses@, else_clause)
                } else {
                    Some(branches_nullable(when_clauses@, else_clause))
                };
                match expected {
                    None => Some(
                        error::internal_error(
                            "stored query CASE has invalid flow-sensitive nullability metadata"@,
                        ),
                    ),
                    Some(expected) => {
                        if nullable == expected {
                            None
                        } else {
                            Some(
                                error::internal_error(
                                    "stored query CASE has inconsistent nullability metadata"@,
                                ),
                            )
                        }
                    },
                }
            },
            StoredQueryExpr::Cast { expr, data_type, pg_type, nullable } => {
                if pg_type.refines(data_type) && nullable == expr.spec_nullable() {
                    None
                } else {
                    Some(error::internal_error("stored query cast has invalid result metadata"@))
                }
            },
            StoredQueryExpr::ScalarSubquery { query, data_type, nullable } => {
                if gives_one_column(*query, data_type) && nullable {
                    None
                } else {
                    Some(
                        error::internal_error("stored scalar subquery has invalid output metadata"@),
                    )
                }
            },
            StoredQueryExpr::Exists { .. } => inconsistency(
                self.typing(),
                typing::typing(DataType::Boolean, false),
            ),
            StoredQueryExpr::InSubquery { expr, query, data_type, nullable, .. } => {
                if gives_one_column(*query, expr.spec_data_type()) && data_type is Boolean
                    && nullable {
                    None
                } else {
                    Some(error::internal_error("stored IN subquery has invalid output metadata"@))
                }
            },
        }
    }

    /// Adds the catalog objects that the node itself names.
    pub(crate) fn note_objects(&self, ranges: &RangeTable<'_>, objects: &mut CatalogObjectSet)
        requires
            ranges.well_formed(),
        ensures
            final(objects)@ == old(objects)@.union(own_objects(*self, ranges@)),
    {
        match self {
            StoredQueryExpr::InputRef {
                range,
                column: StoredColumnReference::Catalog(column),
                ..
            } => {
                if let Some(StoredRangeTarget::Catalog { table, .. }) = ranges.get(*range) {
                    objects.insert(CatalogObjectId::Table(table));
                    objects.insert(CatalogObjectId::Column { relation: table, column: *column });
                }
            },
            StoredQueryExpr::Function { function, .. }
            | StoredQueryExpr::Aggregate { function, .. } => {
                objects.insert(CatalogObjectId::Function(*function));
            },
            StoredQueryExpr::Nextval { sequence, .. }
            | StoredQueryExpr::Currval { sequence, .. }
            | StoredQueryExpr::Setval { sequence, .. } => {
                objects.insert(CatalogObjectId::Sequence(*sequence));
            },
            _ => {},
        }
        assert(objects@ =~= old(objects)@.union(own_objects(*self, ranges@)));
    }

    fn check_input(&self, target: StoredRangeTarget<'_>, column: StoredColumnReference) -> (result:
        Result<()>)
        ensures
            match result {
                Ok(_) => input_problem(*self, target@, column) is None,
                Err(error) => input_problem(*self, target@, column) == Some(error@),
            },
    {
        match (target, column) {
            (StoredRangeTarget::Catalog { .. }, StoredColumnReference::Catalog(_)) => Ok(()),
            (
                StoredRangeTarget::Position { columns, null_extended },
                StoredColumnReference::Position(position),
            ) => {
                if position as usize >= columns.len() {
                    return Err(DbError::internal("stored query column position is out of range"));
                }
                let stored = &columns[position as usize];
                if stored.data_type != *self.data_type() || (stored.nullable || null_extended)
                    != self.nullable() {
                    return Err(
                        DbError::internal(
                            "stored query positional column type does not match its range",
                        ),
                    );
                }
                Ok(())
            },
            _ => Err(DbError::internal("stored query column reference kind does not match range")),
        }
    }

    pub(crate) fn check_before(&self, scope: &StoredExprScope<'_, '_>) -> (result: Result<()>)
        requires
            scope.ranges.well_formed(),
        ensures
            match result {
                Ok(_) => self.problem_before(scope@) is None,
                Err(error) => self.problem_before(scope@) == Some(error@),
            },
    {
        match self {
            StoredQueryExpr::Literal { value, data_type, nullable } => {
                if !value_matches_type(value, data_type) || *nullable != matches!(value, Value::Null)
                    || !value_is_finite(value) {
                    return Err(
                        DbError::internal("stored query literal has invalid type metadata"),
                    );
                }
                Ok(())
            },
            StoredQueryExpr::LocalRef { output, data_type, .. } => {
                let output: usize = *output as usize;
                if output >= scope.output.len() || scope.output[output].data_type != *data_type {
                    return Err(
                        DbError::internal(
                            "stored query output reference is out of range or has a stale type",
                        ),
                    );
                }
                Ok(())
            },
            StoredQueryExpr::OuterRef { correlation, data_type, nullable } => {
                let correlation: usize = *correlation as usize;
                if correlation >= scope.correlations.len()
                    || scope.correlations[correlation].data_type != *data_type
                    || scope.correlations[correlation].nullable != *nullable {
                    return Err(
                        DbError::internal(
                            "stored query correlation reference is out of range or has stale metadata",
                        ),
                    );
                }
                Ok(())
            },
            StoredQueryExpr::InputRef { range, column, .. } => match scope.ranges.get(*range) {
                Some(target) => self.check_input(target, *column),
                None => Err(DbError::internal("stored query expression references unknown range")),
            },
            StoredQueryExpr::Function { function, args, pg_type, .. } => {
                if let Err(error) = check_list(args.len()) {
                    return Err(error);
                }
                validate_call(*function, args, &self.declared_typing(), pg_type)
            },
            StoredQueryExpr::Array { elements, dimensions, .. } => {
                if let Err(error) = check_list(elements.len()) {
                    return Err(error);
                }
                check_list(dimensions.len())
            },
            StoredQueryExpr::ArraySubscript { subscripts, .. } => check_list(subscripts.len()),
            StoredQueryExpr::InList { list, .. } => check_list(list.len()),
            StoredQueryExpr::Aggregate { function, .. } => {
                if !stored_aggregate_function_exists(*function) {
                    return Err(
                        DbError::internal(
                            &text::numbered(
                                "stored query references unknown aggregate function ",
                                *function as u128,
                            ),
                        ),
                    );
                }
                Ok(())
            },
            StoredQueryExpr::Case { when_clauses, flow_sensitive_nullable, .. } => {
                if let Err(error) = check_list(when_clauses.len()) {
                    return Err(error);
                }
                if when_clauses.len() == 0 && !*flow_sensitive_nullable {
                    return Err(DbError::internal("stored query CASE has no WHEN clauses"));
                }
                Ok(())
            },
            _ => Ok(()),
        }
    }

    pub(crate) fn check_between(&self, index: usize) -> (result: Result<()>)
        requires
            index < self.operands().len(),
        ensures
            match result {
                Ok(_) => self.problem_between(index as int) is None,
                Err(error) => self.problem_between(index as int) == Some(error@),
            },
    {
        match self {
            StoredQueryExpr::Case { operand, when_clauses, else_clause, data_type, .. } => {
                let (branch, subject): (usize, Option<&DataType>) = match operand {
                    Some(operand) => {
                        if index == 0 {
                            return Ok(());
                        }
                        (index - 1, Some(operand.data_type()))
                    },
                    None => (index, None),
                };
                if branch / 2 < when_clauses.len() {
                    if branch % 2 == 0 {
                        return Ok(());
                    }
                    let branch_clause: &(StoredQueryExpr, StoredQueryExpr) = &when_clauses[branch
                        / 2];
                    if !typing::does_branch_fit(
                        subject,
                        branch_clause.0.data_type(),
                        branch_clause.1.data_type(),
                        data_type,
                    ) {
                        return Err(DbError::internal("stored query CASE has invalid branch types"));
                    }
                    return Ok(());
                }
                if let Some(else_clause) = else_clause {
                    if *else_clause.data_type() != *data_type {
                        return Err(DbError::internal("stored query CASE has invalid ELSE type"));
                    }
                }
                Ok(())
            },
            _ => Ok(()),
        }
    }

    pub(crate) fn check_after(&self) -> (result: Result<()>)
        ensures
            match result {
                Ok(_) => self.problem_after() is None,
                Err(error) => self.problem_after() == Some(error@),
            },
    {
        let declared: Typing = self.declared_typing();
        match self {
            StoredQueryExpr::Literal { .. }
            | StoredQueryExpr::LocalRef { .. }
            | StoredQueryExpr::OuterRef { .. }
            | StoredQueryExpr::InputRef { .. }
            | StoredQueryExpr::Function { .. } => Ok(()),
            StoredQueryExpr::Binary { left, op, right, .. } => require_query_metadata(
                &declared,
                typing::type_binary(
                    &left.declared_typing(),
                    stored_query::query_stored_binop(*op),
                    &right.declared_typing(),
                ),
                "stored query binary expression has invalid operand types",
            ),
            StoredQueryExpr::Unary { op, expr, .. } => require_query_metadata(
                &declared,
                match op {
                    StoredQueryUnaryOp::Neg => typing::type_negation(expr.declared_typing()),
                    StoredQueryUnaryOp::Not => typing::type_not(expr.declared_typing()),
                },
                "stored query unary expression has invalid operand type",
            ),
            StoredQueryExpr::Array { elements, dimensions, element_type, .. } => {
                match typing::type_array(&typing_list(elements), dimensions, element_type) {
                    Ok(expected) => require_query_metadata(
                        &declared,
                        expected,
                        "stored query array has invalid shape or element type",
                    ),
                    Err(error) => Err(error),
                }
            },
            StoredQueryExpr::ArraySubscript { array, subscripts, .. } => match array.data_type() {
                DataType::Array(array_type) => {
                    if subscripts.len() == 0 || !typing::are_typed(
                        &typing_list(subscripts),
                        &DataType::Integer,
                    ) {
                        return Err(
                            DbError::internal("stored query array subscript has invalid indexes"),
                        );
                    }
                    require_typing(
                        &declared,
                        &Typing::new(array_type.element_type().clone(), true),
                    )
                },
                _ => Err(DbError::internal("stored query array subscript has a non-array operand")),
            },
            StoredQueryExpr::Any { left, op, array, .. } => match array.data_type() {
                DataType::Array(array_type) => {
                    if !typing::is_comparison(stored_query::query_stored_binop(*op))
                        || *array_type.element_type() != *left.data_type() {
                        return Err(DbError::internal("stored query ANY has invalid operands"));
                    }
                    require_typing(&declared, &Typing::new(DataType::Boolean, true))
                },
                _ => Err(DbError::internal("stored query ANY has a non-array operand")),
            },
            StoredQueryExpr::Nextval { .. } | StoredQueryExpr::Currval { .. } => require_typing(
                &declared,
                &Typing::new(DataType::Integer, false),
            ),
            StoredQueryExpr::Setval { value, is_called, .. } => require_query_metadata(
                &declared,
                typing::type_setval(
                    &value.declared_typing(),
                    &(match is_called {
                        Some(is_called) => Some(is_called.declared_typing()),
                        None => None,
                    }),
                ),
                "stored query setval has invalid argument types",
            ),
            StoredQueryExpr::Aggregate { function, arg, distinct, .. } => require_query_metadata(
                &declared,
                type_aggregate(
                    *function,
                    match arg {
                        Some(arg) => Some(arg.declared_typing()),
                        None => None,
                    },
                    *distinct,
                ),
                &text::numbered_text(
                    "stored query aggregate function ",
                    *function as u128,
                    " has invalid arguments",
                ),
            ),
            StoredQueryExpr::IsNull { .. } | StoredQueryExpr::IsNotNull { .. } => require_typing(
                &declared,
                &Typing::new(DataType::Boolean, false),
            ),
            StoredQueryExpr::InList { expr, list, .. } => require_query_metadata(
                &declared,
                typing::type_in_list(&expr.declared_typing(), &typing_list(list)),
                "stored query IN list has invalid item types",
            ),
            StoredQueryExpr::Between { expr, low, high, .. } => require_query_metadata(
                &declared,
                typing::type_between(
                    &expr.declared_typing(),
                    &low.declared_typing(),
                    &high.declared_typing(),
                ),
                "stored query BETWEEN has invalid operand types",
            ),
            StoredQueryExpr::Like { expr, pattern, .. } => require_query_metadata(
                &declared,
                typing::type_like(&expr.declared_typing(), &pattern.declared_typing()),
                "stored query LIKE has invalid operand types",
            ),
            StoredQueryExpr::Case {
                operand,
                when_clauses,
                else_clause,
                flow_sensitive_nullable,
                nullable,
                ..
            } => {
                let expected: bool = if *flow_sensitive_nullable {
                    match coalesce_case_nullable(operand, when_clauses, else_clause) {
                        Some(expected) => expected,
                        None => {
                            return Err(
                                DbError::internal(
                                    "stored query CASE has invalid flow-sensitive nullability metadata",
                                ),
                            );
                        },
                    }
                } else {
                    are_branches_nullable(when_clauses, else_clause)
                };
                if *nullable != expected {
                    return Err(
                        DbError::internal("stored query CASE has inconsistent nullability metadata"),
                    );
                }
                Ok(())
            },
            StoredQueryExpr::Cast { expr, data_type, pg_type, nullable } => {
                if !pg_type.is_refinement_of(data_type) || *nullable != expr.nullable() {
                    return Err(DbError::internal("stored query cast has invalid result metadata"));
                }
                Ok(())
            },
            StoredQueryExpr::ScalarSubquery { query, data_type, nullable } => {
                if !does_give_one_column(query, data_type) || !*nullable {
                    return Err(
                        DbError::internal("stored scalar subquery has invalid output metadata"),
                    );
                }
                Ok(())
            },
            StoredQueryExpr::Exists { .. } => require_typing(
                &declared,
                &Typing::new(DataType::Boolean, false),
            ),
            StoredQueryExpr::InSubquery { expr, query, data_type, nullable, .. } => {
                if !does_give_one_column(query, expr.data_type()) || !matches!(
                    data_type,
                    DataType::Boolean
                ) || !*nullable {
                    return Err(DbError::internal("stored IN subquery has invalid output metadata"));
                }
                Ok(())
            },
        }
    }
}

} // verus!
