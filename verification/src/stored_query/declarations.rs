//! What the expressions of a query declare: the laws of their types and nullability.

use vstd::prelude::*;

use crate::error::ErrorView;
use crate::functions::{catalog, registry};
use crate::ids::FunctionId;
use crate::pg_type::PgType;
use crate::schema::DataType;
use crate::stored_query::node::{self, ScopeView};
use crate::stored_query::StoredQueryExpr;
use crate::typing::{self, operators};

verus! {

/// Tests for NULL are booleans that are never NULL themselves.
pub proof fn null_tests_are_never_null(test: StoredQueryExpr)
    requires
        test is IsNull || test is IsNotNull || test is Exists,
    ensures
        test.problem_after() is None <==> test.spec_data_type() is Boolean && !test.spec_nullable(),
{
}

/// The next and the current value of a sequence are integers, never NULL; `setval` gives
/// the integer that it sets and can be NULL exactly if one of its arguments can.
pub proof fn sequence_values_are_integers(value: StoredQueryExpr)
    ensures
        value is Nextval || value is Currval ==> (value.problem_after() is None <==> value.spec_data_type()
            is Integer && !value.spec_nullable()),
        value is Setval ==> (value.problem_after() is None <==> {
            let called = value->is_called;
            &&& value->Setval_value.spec_data_type() is Integer
            &&& called matches Some(called) ==> called.spec_data_type() is Boolean
            &&& value.spec_data_type() is Integer
            &&& value.spec_nullable() == (value->Setval_value.spec_nullable() || (called is Some
                && called->0.spec_nullable()))
        }),
{
}

/// A subscript takes an element out of an array: there is at least one index, all of them
/// are integers, the array is one, and the result has the type of its elements and can be
/// NULL, because there may be no such element.
pub proof fn subscripts_take_elements(expr: StoredQueryExpr)
    requires
        expr is ArraySubscript,
    ensures
        expr.problem_after() is None <==> {
            let subscripts = expr->subscripts@;
            &&& expr->ArraySubscript_array.spec_data_type() matches DataType::Array(array_type)
            &&& expr.spec_data_type() == array_type.element()
            &&& expr.spec_nullable()
            &&& subscripts.len() > 0
            &&& forall|i: int|
                0 <= i < subscripts.len() ==> (#[trigger] subscripts[i]).spec_data_type() is Integer
        },
{
    let subscripts = expr->subscripts@;
    let types = node::typings(subscripts);
    assert forall|i: int| 0 <= i < subscripts.len() implies (#[trigger] types[i]).data_type
        == subscripts[i].spec_data_type() by {}
    if typing::all_typed(types, DataType::Integer) {
        assert forall|i: int| 0 <= i < subscripts.len() implies (
        #[trigger] subscripts[i]).spec_data_type() is Integer by {
            assert(types[i].data_type == DataType::Integer);
        }
    }
    if forall|i: int|
        0 <= i < subscripts.len() ==> (#[trigger] subscripts[i]).spec_data_type() is Integer {
        assert forall|i: int| 0 <= i < types.len() implies (#[trigger] types[i]).data_type
            == DataType::Integer by {
            assert(subscripts[i].spec_data_type() is Integer);
        }
    }
}

/// `ANY` compares a value with the elements of an array of its type, by one of the six
/// comparisons, and is a boolean that can be NULL.
pub proof fn any_compares_with_elements(expr: StoredQueryExpr)
    requires
        expr is Any,
    ensures
        expr.problem_after() is None <==> {
            let op = expr->Any_op;
            &&& op is Eq || op is Neq || op is Lt || op is LtEq || op is Gt || op is GtEq
            &&& expr->Any_array.spec_data_type() matches DataType::Array(array_type)
            &&& array_type.element() == expr->Any_left.spec_data_type()
            &&& expr.spec_data_type() is Boolean
            &&& expr.spec_nullable()
        },
{
}

/// A cast is NULL exactly where its operand is, and its wire type stands for its type.
pub proof fn casts_keep_nulls(cast: StoredQueryExpr)
    requires
        cast is Cast,
    ensures
        cast.problem_after() is None <==> cast.spec_nullable()
            == cast->Cast_expr.spec_nullable() && cast->Cast_pg_type.refines(cast.spec_data_type()),
{
}

/// A literal declares the type that its value belongs to, that it can be NULL exactly if
/// it is, and no number that is not finite.
pub proof fn literals_declare_their_value(literal: StoredQueryExpr, scope: ScopeView)
    requires
        literal is Literal,
    ensures
        literal.problem_before(scope) is None <==> {
            let value = literal->Literal_value@;
            &&& value.matches_type(literal.spec_data_type())
            &&& literal.spec_nullable() <==> value is Null
            &&& value.is_finite()
        },
{
}

/// A binary expression declares what its operator gives of its operands, and so does a
/// negation.
pub proof fn operators_declare_what_they_give(expr: StoredQueryExpr)
    ensures
        expr is Binary && expr.problem_after() is None ==> {
            let (left, right) = (expr->Binary_left, expr->Binary_right);
            let op = expr->Binary_op;
            let compares = op is Eq || op is Neq || op is Lt || op is LtEq || op is Gt || op is GtEq;
            let answers = op is IsDistinctFrom || op is IsNotDistinctFrom;
            &&& expr.spec_nullable() == (!answers && (left.spec_nullable() || right.spec_nullable()))
            &&& compares || answers ==> left.spec_data_type() == right.spec_data_type()
                && expr.spec_data_type() is Boolean
            &&& op is And || op is Or ==> left.spec_data_type() is Boolean && right.spec_data_type()
                is Boolean && expr.spec_data_type() is Boolean
            &&& op is Concat ==> left.spec_data_type() is Text && right.spec_data_type() is Text
                && expr.spec_data_type() is Text
            &&& (op is Add || op is Sub || op is Mul || op is Div || op is Mod)
                && left.spec_data_type() is Integer && right.spec_data_type() is Integer
                ==> expr.spec_data_type() is Integer
        },
        expr is Unary ==> (expr.problem_after() is None <==> {
            let operand = expr->Unary_expr;
            let t = operand.spec_data_type();
            &&& expr.spec_data_type() == t
            &&& expr.spec_nullable() == operand.spec_nullable()
            &&& expr->Unary_op is Not ==> t is Boolean
            &&& expr->Unary_op is Neg ==> t is Integer || t is Double || t is Real || t is Numeric
                || t is Interval
        }),
{
}

/// `BETWEEN` and `LIKE` are booleans that can be NULL exactly if one of their operands can;
/// `BETWEEN` compares values of one type, and `LIKE` matches texts.
pub proof fn comparisons_declare_booleans(expr: StoredQueryExpr)
    ensures
        expr is Between ==> (expr.problem_after() is None <==> {
            let (value, low, high) = (expr->Between_expr, expr->low, expr->high);
            &&& expr.spec_data_type() is Boolean
            &&& low.spec_data_type() == value.spec_data_type()
            &&& high.spec_data_type() == value.spec_data_type()
            &&& expr.spec_nullable() == (value.spec_nullable() || low.spec_nullable()
                || high.spec_nullable())
        }),
        expr is Like ==> (expr.problem_after() is None <==> {
            let (value, pattern) = (expr->Like_expr, expr->pattern);
            &&& expr.spec_data_type() is Boolean
            &&& value.spec_data_type() is Text
            &&& pattern.spec_data_type() is Text
            &&& expr.spec_nullable() == (value.spec_nullable() || pattern.spec_nullable())
        }),
{
}

/// A `CASE` can be NULL exactly if one of its branches or its last alternative can, or
/// there is no last alternative. Where each branch gives what its own condition finds not
/// to be NULL, as in a `COALESCE`, it can be declared to be NULL only if all of them can.
pub proof fn cases_are_null_where_branches_are(case: StoredQueryExpr)
    requires
        case is Case,
        case.problem_after() is None,
    ensures
        ({
            let branches = case->when_clauses@;
            let last = case->else_clause;
            &&& !case->flow_sensitive_nullable ==> (case.spec_nullable() <==> last is None
                || last->0.spec_nullable() || exists|i: int|
                0 <= i < branches.len() && (#[trigger] branches[i]).1.spec_nullable())
            &&& case->flow_sensitive_nullable ==> {
                &&& case->operand is None
                &&& last is Some
                &&& case.spec_nullable() <==> last->0.spec_nullable() && forall|i: int|
                    0 <= i < branches.len() ==> (#[trigger] branches[i]).1.spec_nullable()
                &&& forall|i: int|
                    0 <= i < branches.len() ==> (#[trigger] branches[i]).0 is IsNotNull
                        && branches[i].0->IsNotNull_expr.same(branches[i].1)
            }
        }),
{
}

/// A subquery that stands for a value gives one column of the declared type, and can be
/// NULL because it may give no row; `IN` compares with the one column of its subquery,
/// which has the type of its expression, and is a boolean that can be NULL.
pub proof fn subqueries_give_one_column(expr: StoredQueryExpr)
    ensures
        expr is ScalarSubquery ==> (expr.problem_after() is None <==> {
            let outputs = expr->ScalarSubquery_query.outputs();
            &&& outputs.len() == 1
            &&& outputs[0].data_type == expr.spec_data_type()
            &&& expr.spec_nullable()
        }),
        expr is InSubquery ==> (expr.problem_after() is None <==> {
            let outputs = expr->InSubquery_query.outputs();
            &&& outputs.len() == 1
            &&& outputs[0].data_type == expr->InSubquery_expr.spec_data_type()
            &&& expr.spec_data_type() is Boolean
            &&& expr.spec_nullable()
        }),
{
}

/// Equal expressions declare the same type and nullability, are of one kind, and have
/// equal operands in the same places.
pub proof fn equal_expressions_have_equal_parts(a: StoredQueryExpr, b: StoredQueryExpr, i: int)
    requires
        a.same(b),
    ensures
        a.spec_data_type() == b.spec_data_type(),
        a.spec_nullable() == b.spec_nullable(),
        a.operands().len() == b.operands().len(),
        0 <= i < a.operands().len() ==> a.operands()[i].same(b.operands()[i]),
        a is Literal ==> b is Literal && a->Literal_value@.same(b->Literal_value@),
        a is InputRef ==> b is InputRef && a->range == b->range && a->column == b->column,
        a is Binary ==> b is Binary && a->Binary_op == b->Binary_op,
        a is Unary ==> b is Unary && a->Unary_op == b->Unary_op,
        a is Function ==> b is Function && a->Function_function == b->Function_function,
        a is Aggregate ==> b is Aggregate && a->Aggregate_function == b->Aggregate_function
            && a->distinct == b->distinct,
        a is Between ==> b is Between && a->Between_negated == b->Between_negated,
        a is InList ==> b is InList && a->InList_negated == b->InList_negated,
        a is Like ==> b is Like && a->Like_negated == b->Like_negated && a->case_insensitive
            == b->case_insensitive && a->escape == b->escape,
        a is Exists ==> b is Exists && a->Exists_negated == b->Exists_negated,
        a is InSubquery ==> b is InSubquery && a->InSubquery_negated == b->InSubquery_negated,
        a is Cast ==> b is Cast && a->Cast_pg_type == b->Cast_pg_type,
        a is LocalRef ==> b is LocalRef && a->output == b->output,
        a is OuterRef ==> b is OuterRef && a->correlation == b->correlation,
        a.subquery() is Some ==> b.subquery() is Some && a.subquery()->0.same(b.subquery()->0),
{
    lemma_same_operand(a, b, a.operands().len(), i);
}

proof fn lemma_same_operand(a: StoredQueryExpr, b: StoredQueryExpr, count: nat, i: int)
    requires
        count <= a.operands().len(),
        a.same_operands(b, count),
    ensures
        0 <= i < count ==> a.operands()[i].same(b.operands()[i]),
    decreases count,
{
    if count > 0 && i < count - 1 {
        lemma_same_operand(a, b, (count - 1) as nat, i);
    }
}

/// `IN` compares with one or more items of the type of its expression; it is a boolean that
/// can be NULL exactly if the expression or an item can.
pub proof fn in_lists_declare_booleans(expr: StoredQueryExpr)
    requires
        expr is InList,
    ensures
        expr.problem_after() is None <==> {
            let (value, items) = (expr->InList_expr, expr->list@);
            &&& items.len() > 0
            &&& forall|i: int|
                0 <= i < items.len() ==> (#[trigger] items[i]).spec_data_type()
                    == value.spec_data_type()
            &&& expr.spec_data_type() is Boolean
            &&& expr.spec_nullable() <==> value.spec_nullable() || exists|i: int|
                0 <= i < items.len() && (#[trigger] items[i]).spec_nullable()
        },
{
    let items = expr->list@;
    let types = node::typings(items);
    let value = expr->InList_expr;
    operators::in_lists_are_of_one_type(value.typing(), types);
    if forall|i: int|
        0 <= i < items.len() ==> (#[trigger] items[i]).spec_data_type() == value.spec_data_type() {
        assert forall|i: int| 0 <= i < types.len() implies (#[trigger] types[i]).data_type
            == value.typing().data_type by {
            assert(items[i].spec_data_type() == value.spec_data_type());
        }
    }
    if forall|i: int| 0 <= i < types.len() ==> (#[trigger] types[i]).data_type
        == value.typing().data_type {
        assert forall|i: int| 0 <= i < items.len() implies (#[trigger] items[i]).spec_data_type()
            == value.spec_data_type() by {
            assert(types[i].data_type == value.typing().data_type);
        }
    }
    if exists|i: int| 0 <= i < items.len() && (#[trigger] items[i]).spec_nullable() {
        let i = choose|i: int| 0 <= i < items.len() && (#[trigger] items[i]).spec_nullable();
        assert(types[i].nullable);
    }
    if exists|i: int| 0 <= i < types.len() && (#[trigger] types[i]).nullable {
        let i = choose|i: int| 0 <= i < types.len() && (#[trigger] types[i]).nullable;
        assert(items[i].spec_nullable());
    }
}

/// Each branch of a `CASE` compares with its operand, or tests a condition where it has
/// none, and gives the type of the whole; so does the last alternative.
pub proof fn branches_give_the_type_of_the_case(case: StoredQueryExpr, i: int)
    requires
        case is Case,
        0 <= i < case->when_clauses@.len(),
    ensures
        ({
            let (when, then) = case->when_clauses@[i];
            let before = if case->operand is Some {
                1int
            } else {
                0int
            };
            &&& case.problem_between(before + 2 * i + 1) is None <==> {
                &&& then.spec_data_type() == case.spec_data_type()
                &&& case->operand is None ==> when.spec_data_type() is Boolean
                &&& case->operand is Some ==> when.spec_data_type()
                    == case->operand->0.spec_data_type()
            }
            &&& case->else_clause is Some ==> (case.problem_between(
                before + 2 * case->when_clauses@.len(),
            ) is None <==> case->else_clause->0.spec_data_type() == case.spec_data_type())
        }),
{
    assert((2 * i + 1) / 2 == i);
    assert((2 * i + 1) % 2 == 1);
}

/// An accepted call is of a known function, which takes the arguments, and declares the type
/// that the function gives of them and whether it can be NULL.
pub proof fn calls_declare_what_the_function_gives(
    function: FunctionId,
    args: Seq<StoredQueryExpr>,
    declared: typing::Typing,
    pg_type: Option<PgType>,
)
    requires
        node::call_problem(function, args, declared, pg_type) is None,
    ensures
        registry::function_with_id(function) is Some,
        ({
            let (known, entry) = registry::function_with_id(function)->0;
            &&& known.signature.verdict(known.name, node::arguments(args)) == Ok::<
                DataType,
                ErrorView,
            >(declared.data_type)
            &&& declared.nullable == known.result_nullable(node::nullabilities(args))
            &&& entry.accepts(node::data_types(args))
            &&& catalog::oid_has_type(entry.ret_oid as int, declared.data_type)
        }),
{
}

} // verus!
