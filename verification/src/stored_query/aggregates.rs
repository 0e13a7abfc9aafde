//! What the aggregates of a query give: the laws of their types.
//!
//! The aggregates have fixed ids: `COUNT` 2147, `SUM` 2107, `AVG` 2100, `MAX` 2131, `MIN`
//! 2115, `STDDEV_SAMP` 2713, `STDDEV_POP` 2712, `VAR_SAMP` 2644, `VAR_POP` 2643,
//! `BOOL_AND` 2517, `BOOL_OR` 2518, `ARRAY_AGG` 2335 and `STRING_AGG` 3538.

use vstd::prelude::*;

use crate::ids::FunctionId;
use crate::numeric::arithmetic;
use crate::numeric::DecimalView;
use crate::schema::{ArrayType, DataType};
use crate::stored_query::node::aggregate_typing;
use crate::stored_query::StoredQueryExpr;
use crate::typing::Typing;

verus! {

/// `SUM` and `AVG` of any `NUMERIC(p, s)` have the same type, whatever the precision and
/// the scale of the argument, and that type admits every number as it is: so it admits
/// every sum of values of the argument's type, also those with more digits.
pub proof fn sums_of_numerics_are_unconstrained(
    function: FunctionId,
    argument: Typing,
    other: Typing,
    distinct: bool,
    other_distinct: bool,
    sum: DecimalView,
)
    requires
        function == 2_107 || function == 2_100,
        argument.data_type is Numeric,
        other.data_type is Numeric,
    ensures
        ({
            let typing = aggregate_typing(function, Some(argument), distinct);
            &&& typing == aggregate_typing(function, Some(other), other_distinct)
            &&& typing matches Some(typing)
            &&& typing.nullable
            &&& typing.data_type matches DataType::Numeric { precision, scale }
            &&& arithmetic::with_typmod(sum, precision, scale) == Some(sum)
        }),
{
}

/// A value ten times as large as the largest `NUMERIC(p, s)` does not belong to the
/// argument's type, and belongs to the type of its `SUM`.
pub proof fn sums_may_outgrow_their_argument(
    precision: u32,
    scale: u32,
    nullable: bool,
    distinct: bool,
    sum: DecimalView,
)
    requires
        1 <= precision <= 27,
        scale <= precision,
        sum == (DecimalView {
            negative: false,
            magnitude: vstd::arithmetic::power::pow(10, precision as nat + 1) as nat,
            scale: scale as nat,
        }),
    ensures
        arithmetic::with_typmod(sum, Some(precision), scale) is None,
        ({
            let argument = Typing {
                data_type: DataType::Numeric { precision: Some(precision), scale },
                nullable,
            };
            let typing = aggregate_typing(2_107, Some(argument), distinct);
            &&& typing matches Some(typing)
            &&& typing.data_type matches DataType::Numeric { precision: p, scale: s }
            &&& arithmetic::with_typmod(sum, p, s) == Some(sum)
        }),
{
    let power = vstd::arithmetic::power::pow(10, precision as nat + 1);
    vstd::arithmetic::power::lemma_pow_positive(10, precision as nat + 1);
    lemma_power(precision as nat);
    lemma_power(precision as nat + 1);
    crate::numeric::lemma_pow10_monotonic(precision as nat, precision as nat + 1);
    assert((precision - scale) as nat + scale == precision);
}

proof fn lemma_power(n: nat)
    ensures
        crate::numeric::pow10(n) == vstd::arithmetic::power::pow(10, n),
    decreases n,
{
    reveal(vstd::arithmetic::power::pow);
    if n > 0 {
        lemma_power((n - 1) as nat);
    }
}

/// `SUM` and `AVG` keep the types of integers and of floating-point numbers, and take
/// nothing that is not a number.
pub proof fn sums_are_of_numbers(function: FunctionId, argument: Typing, distinct: bool)
    requires
        function == 2_107 || function == 2_100,
    ensures
        ({
            let typing = aggregate_typing(function, Some(argument), distinct);
            let number = argument.data_type is Integer || argument.data_type is Double
                || argument.data_type is Real;
            &&& number ==> typing == Some(Typing { data_type: argument.data_type, nullable: true })
            &&& typing is Some <==> number || argument.data_type is Numeric
        }),
{
}

/// `COUNT` gives an integer, never NULL, of whatever is counted; only the distinct rows
/// of `COUNT(*)` cannot be asked for.
pub proof fn counts_are_integers(argument: Option<Typing>, distinct: bool)
    ensures
        ({
            let typing = aggregate_typing(2_147, argument, distinct);
            &&& typing is None <==> argument is None && distinct
            &&& typing is Some ==> typing->0.data_type is Integer && !typing->0.nullable
        }),
{
}

/// Every aggregate but `COUNT` needs an argument, can be NULL, whatever the argument, and
/// takes distinct values where it takes all.
pub proof fn aggregates_of_no_rows_are_null(function: FunctionId, argument: Typing, distinct: bool)
    requires
        function != 2_147,
    ensures
        aggregate_typing(function, None, distinct) is None,
        aggregate_typing(function, Some(argument), true) == aggregate_typing(
            function,
            Some(argument),
            false,
        ),
        aggregate_typing(function, Some(argument), distinct) is Some ==> aggregate_typing(
            function,
            Some(argument),
            distinct,
        )->0.nullable,
{
}

/// `MAX` and `MIN` give a value of their argument, so its type, for every type.
pub proof fn extremes_keep_the_type(function: FunctionId, argument: Typing, distinct: bool)
    requires
        function == 2_131 || function == 2_115,
    ensures
        aggregate_typing(function, Some(argument), distinct) is Some,
        aggregate_typing(function, Some(argument), distinct)->0.data_type == argument.data_type,
{
}

/// Deviations and variances are doubles, of numbers of any kind and of nothing else.
pub proof fn deviations_are_doubles(function: FunctionId, argument: Typing, distinct: bool)
    requires
        function == 2_713 || function == 2_712 || function == 2_644 || function == 2_643,
    ensures
        ({
            let typing = aggregate_typing(function, Some(argument), distinct);
            let number = argument.data_type is Integer || argument.data_type is Double
                || argument.data_type is Real || argument.data_type is Numeric;
            &&& typing is Some <==> number
            &&& number ==> typing->0.data_type is Double
        }),
{
}

/// `BOOL_AND` and `BOOL_OR` give a boolean of booleans, `ARRAY_AGG` an array whose
/// elements have the type of its argument, which is not an array itself, and
/// `STRING_AGG` a text of texts and separators collected in a text array.
pub proof fn other_aggregates_have_their_types(argument: Typing, distinct: bool)
    ensures
        ({
            let conjunction = aggregate_typing(2_517, Some(argument), distinct);
            let disjunction = aggregate_typing(2_518, Some(argument), distinct);
            let array = aggregate_typing(2_335, Some(argument), distinct);
            let string = aggregate_typing(3_538, Some(argument), distinct);
            &&& conjunction == disjunction
            &&& conjunction is Some <==> argument.data_type is Boolean
            &&& conjunction is Some ==> conjunction->0.data_type is Boolean
            &&& array is Some <==> !(argument.data_type is Array)
            &&& array is Some ==> (array->0.data_type matches DataType::Array(array_type)
                && array_type.element() == argument.data_type)
            &&& string is Some <==> (argument.data_type matches DataType::Array(array_type)
                && array_type.element() is Text)
            &&& string is Some ==> string->0.data_type is Text
        }),
{
    broadcast use ArrayType::array_type_is_its_element;

}

/// No other id names an aggregate.
pub proof fn other_functions_are_no_aggregates(
    function: FunctionId,
    argument: Option<Typing>,
    distinct: bool,
)
    requires
        aggregate_typing(function, argument, distinct) is Some,
    ensures
        function == 2_147 || function == 2_107 || function == 2_100 || function == 2_131 || function
            == 2_115 || function == 2_713 || function == 2_712 || function == 2_644 || function
            == 2_643 || function == 2_517 || function == 2_518 || function == 2_335 || function
            == 3_538,
{
}

/// An aggregate of a query is sound exactly if it declares the type and the nullability
/// that the aggregate gives of its argument's.
pub proof fn aggregates_declare_what_they_give(aggregate: StoredQueryExpr)
    requires
        aggregate is Aggregate,
    ensures
        ({
            let argument = match aggregate->Aggregate_arg {
                Some(argument) => Some(
                    Typing {
                        data_type: argument.spec_data_type(),
                        nullable: argument.spec_nullable(),
                    },
                ),
                None => None,
            };
            aggregate.problem_after() is None <==> aggregate_typing(
                aggregate->Aggregate_function,
                argument,
                aggregate->Aggregate_distinct,
            ) == Some(
                Typing {
                    data_type: aggregate->Aggregate_data_type,
                    nullable: aggregate->Aggregate_nullable,
                },
            )
        }),
{
}

} // verus!
