//! What holds of every built-in function: a call whose signature was checked has its
//! arguments, comes to a result of the checked type, and is NULL only where the function
//! is declared to be nullable.

use vstd::prelude::*;

use crate::context::StatementContext;
use crate::error::SqlState;
use crate::functions::evaluate::{self, CatalogQueryView, EvaluationView};
use crate::functions::registry::{self, Evaluator, FunctionView, NullHandling};
use crate::functions::signature::{self, ArgType, Signature, Verdict};
use crate::schema::DataType;
use crate::value::ValueView;

verus! {

/// The evaluators that go with a signature.
pub(crate) open(crate) spec fn goes_with(signature: Signature, eval: Evaluator) -> bool {
    match signature {
        Signature::TextToText => eval == Evaluator::Upper || eval == Evaluator::Lower || eval
            == Evaluator::Trim || eval == Evaluator::CurrentSetting || eval
            == Evaluator::Oidvectortypes,
        Signature::Length => eval == Evaluator::Length,
        Signature::NumericSame => eval == Evaluator::Abs || eval == Evaluator::Floor || eval
            == Evaluator::Ceil || eval == Evaluator::Round,
        Signature::NumericToDouble => eval == Evaluator::Sqrt,
        Signature::Power => eval == Evaluator::Power,
        Signature::Mod => eval == Evaluator::Mod,
        Signature::Replace => eval == Evaluator::Replace,
        Signature::Position => eval == Evaluator::Position,
        Signature::TextIntegerToText => eval == Evaluator::Left || eval == Evaluator::Right,
        Signature::Concat => eval == Evaluator::Concat,
        Signature::Substring => eval == Evaluator::Substring,
        Signature::Extract => eval == Evaluator::Extract,
        Signature::NoArgsTimestamptz => eval == Evaluator::StatementTimestamp,
        Signature::NoArgsText => eval == Evaluator::Version || eval == Evaluator::CurrentDatabase
            || eval == Evaluator::CurrentSchema || eval == Evaluator::CurrentUser,
        Signature::NoArgsInteger => eval == Evaluator::PgBackendPid || eval == Evaluator::Zero,
        Signature::FormatType => eval == Evaluator::FormatType,
        Signature::PgGetIndexdef => eval == Evaluator::PgGetIndexdef,
        Signature::IntegerToBoolean => eval == Evaluator::PgTableIsVisible || eval
            == Evaluator::False || eval == Evaluator::PgFunctionIsVisible,
        Signature::PgGetExpr => eval == Evaluator::PgGetExpr,
        Signature::PgGetConstraintdef => eval == Evaluator::PgGetConstraintdef,
        Signature::IntegerToText => eval == Evaluator::PgGetUserbyid || eval
            == Evaluator::PgGetFunctiondef || eval == Evaluator::PgGetFunctionArguments || eval
            == Evaluator::PgGetFunctionResult || eval == Evaluator::Null,
        Signature::Privilege2Or3 | Signature::Privilege3Or4 => eval == Evaluator::True,
        Signature::ObjDescription
        | Signature::TwoIntegersToText
        | Signature::OidOptionalBoolToText => eval == Evaluator::Null,
        Signature::TwoTextToText => eval == Evaluator::PgGetSerialSequence,
        Signature::IntegerToInteger => eval == Evaluator::Zero,
        Signature::TextToInteger => eval == Evaluator::ToRegclass || eval == Evaluator::ToRegtype,
    }
}

/// The evaluators that never come to NULL.
pub(crate) open(crate) spec fn is_never_null(eval: Evaluator) -> bool {
    match eval {
        Evaluator::FormatType
        | Evaluator::PgGetIndexdef
        | Evaluator::PgGetExpr
        | Evaluator::PgGetConstraintdef
        | Evaluator::PgGetUserbyid
        | Evaluator::Null
        | Evaluator::PgGetSerialSequence
        | Evaluator::ToRegclass
        | Evaluator::ToRegtype
        | Evaluator::PgGetFunctiondef
        | Evaluator::PgGetFunctionArguments
        | Evaluator::PgGetFunctionResult => false,
        _ => true,
    }
}

#[verifier::rlimit(50)]
pub(crate) proof fn lemma_registered(name: Seq<char>, function: FunctionView)
    requires
        registry::function_named(name) == Some(function),
    ensures
        goes_with(function.signature, function.eval),
        function.null_handling == NullHandling::Propagate || function.null_handling
            == NullHandling::NeverNull ==> is_never_null(function.eval),
        function.null_handling == NullHandling::NeverNull ==> function.signature
            == Signature::Concat || function.signature == Signature::NoArgsTimestamptz
            || function.signature == Signature::NoArgsText || function.signature
            == Signature::NoArgsInteger,
        function.null_handling == NullHandling::EvaluateNullable ==> function.signature
            == Signature::FormatType,
{
    reveal(registry::function_named);
}

proof fn lemma_typed(
    args: Seq<ArgType<'_>>,
    parameters: Seq<DataType>,
    start: int,
    accepted: Verdict,
)
    requires
        0 <= start,
        accepted is Ok,
        signature::typed(args, parameters, start, accepted) is Ok,
    ensures
        signature::typed(args, parameters, start, accepted) == accepted,
        forall|i: int|
            start <= i < args.len() && i < parameters.len() ==> (#[trigger] args[i]).data_type
                == parameters[i],
    decreases args.len() - start,
{
    if start < args.len() && start < parameters.len() {
        lemma_typed(args, parameters, start + 1, accepted);
    }
}

/// A call whose signature was checked has the arguments that its evaluator reads.
pub proof fn checked_calls_have_their_arguments(
    name: Seq<char>,
    function: FunctionView,
    args: Seq<ArgType<'_>>,
)
    requires
        registry::function_named(name) == Some(function),
        function.signature.verdict(name, args) is Ok,
    ensures
        args.len() >= function.eval.least_arguments(),
{
    lemma_registered(name, function);
}

impl EvaluationView {
    /// A computation, setting or answer of the catalog may turn out to be NULL.
    pub open spec fn may_be_null(self) -> bool {
        match self {
            EvaluationView::Done(value) => value is Null,
            EvaluationView::Float(_) | EvaluationView::Setting(_) => false,
            EvaluationView::Catalog(query) => !(query is TableIsVisible),
        }
    }

    /// The result, once it is known, belongs to the type.
    pub open spec fn has_type(self, data_type: DataType) -> bool {
        match self {
            EvaluationView::Done(value) => value.matches_type(data_type),
            EvaluationView::Float(_) => data_type is Double,
            EvaluationView::Setting(_) => data_type is Text,
            EvaluationView::Catalog(query) => match query {
                CatalogQueryView::TableIsVisible(_) => data_type is Boolean,
                CatalogQueryView::RegClass(_) => data_type is Integer,
                _ => data_type is Text,
            },
        }
    }
}

proof fn lemma_concat(values: Seq<ValueView>, index: nat, so_far: Seq<char>)
    requires
        index <= values.len(),
    ensures
        match evaluate::concat_outcome(values, index, so_far) {
            Ok(evaluation) => evaluation matches EvaluationView::Done(value) && value is Text,
            Err(_) => exists|i: int|
                index <= i < values.len() && !((#[trigger] values[i]) is Null) && !(
                values[i] is Text),
        },
    decreases values.len() - index,
{
    if index < values.len() {
        match values[index as int] {
            ValueView::Null => {
                lemma_concat(values, index + 1, so_far);
            },
            ValueView::Text(text) => {
                lemma_concat(values, index + 1, so_far + text);
            },
            _ => {},
        }
    }
}

proof fn lemma_never_null(
    eval: Evaluator,
    values: Seq<ValueView>,
    context: StatementContext,
    product_version: Seq<char>,
)
    requires
        is_never_null(eval),
    ensures
        eval.outcome(values, context, product_version) matches Ok(evaluation)
            ==> !evaluation.may_be_null(),
{
    if eval == Evaluator::Concat {
        lemma_concat(values, 0, Seq::empty());
    }
}

/// A call comes to NULL only where the function declares its result nullable: a function
/// that propagates NULL is NULL only for a NULL argument, which it is not called with, and
/// a function that is never NULL is never NULL, whatever its arguments.
pub proof fn results_are_null_only_where_declared(
    name: Seq<char>,
    function: FunctionView,
    values: Seq<ValueView>,
    context: StatementContext,
    product_version: Seq<char>,
)
    requires
        registry::function_named(name) == Some(function),
        !function.result_nullable(Seq::new(values.len(), |i: int| values[i] is Null)),
    ensures
        function.eval.outcome(values, context, product_version) matches Ok(evaluation)
            ==> !evaluation.may_be_null(),
{
    lemma_registered(name, function);
    lemma_never_null(function.eval, values, context, product_version);
}

/// The outcome of a call with a result of the type, or with an error that is not about
/// the types of its arguments. `SUBSTRING` reports a negative length as such an error.
pub open spec fn is_typed_outcome(
    eval: Evaluator,
    outcome: evaluate::Outcome,
    data_type: DataType,
) -> bool {
    match outcome {
        Ok(evaluation) => evaluation.has_type(data_type),
        Err(error) => error.code == SqlState::DatatypeMismatch ==> eval == Evaluator::Substring,
    }
}

/// Accepted arguments have the types of the parameters.
proof fn lemma_parameters(
    signature: Signature,
    name: Seq<char>,
    args: Seq<ArgType<'_>>,
    parameters: Seq<DataType>,
    result: DataType,
)
    requires
        signature.verdict(name, args) is Ok,
        signature.verdict(name, args) == signature::typed(args, parameters, 0, Ok(result)),
    ensures
        signature.verdict(name, args) == Verdict::Ok(result),
        forall|i: int|
            0 <= i < args.len() && i < parameters.len() ==> (#[trigger] args[i]).data_type
                == parameters[i],
{
    lemma_typed(args, parameters, 0, Ok(result));
}

proof fn lemma_text_functions(
    signature: Signature,
    eval: Evaluator,
    name: Seq<char>,
    args: Seq<ArgType<'_>>,
    values: Seq<ValueView>,
    context: StatementContext,
    product_version: Seq<char>,
)
    requires
        goes_with(signature, eval),
        signature == Signature::TextToText || signature == Signature::Length || signature
            == Signature::Replace || signature == Signature::Position || signature
            == Signature::TextIntegerToText || signature == Signature::TwoTextToText || signature
            == Signature::TextToInteger,
        signature.verdict(name, args) is Ok,
        values.len() == args.len(),
        forall|i: int|
            0 <= i < values.len() ==> (#[trigger] values[i]).matches_type(args[i].data_type)
                && !(values[i] is Null),
    ensures
        is_typed_outcome(
            eval,
            eval.outcome(values, context, product_version),
            signature.verdict(name, args)->Ok_0,
        ),
{
    let text = DataType::Text;
    let integer = DataType::Integer;
    match signature {
        Signature::TextToText => {
            lemma_parameters(signature, name, args, seq![text], text);
            assert(values[0].matches_type(args[0].data_type));
        },
        Signature::Length => {
            lemma_parameters(signature, name, args, seq![text], integer);
            assert(values[0].matches_type(args[0].data_type));
        },
        Signature::Replace => {
            lemma_parameters(signature, name, args, seq![text, text, text], text);
            assert(values[0].matches_type(args[0].data_type));
            assert(values[1].matches_type(args[1].data_type));
            assert(values[2].matches_type(args[2].data_type));
        },
        Signature::Position => {
            lemma_parameters(signature, name, args, seq![text, text], integer);
            assert(values[0].matches_type(args[0].data_type));
            assert(values[1].matches_type(args[1].data_type));
        },
        Signature::TextIntegerToText => {
            lemma_parameters(signature, name, args, seq![text, integer], text);
            assert(values[0].matches_type(args[0].data_type));
            assert(values[1].matches_type(args[1].data_type));
        },
        Signature::TwoTextToText => {
            lemma_parameters(signature, name, args, seq![text, text], text);
            assert(values[0].matches_type(args[0].data_type));
            assert(values[1].matches_type(args[1].data_type));
        },
        Signature::TextToInteger => {
            lemma_parameters(signature, name, args, seq![text], integer);
            assert(values[0].matches_type(args[0].data_type));
        },
        _ => {},
    }
}

proof fn lemma_number_functions(
    signature: Signature,
    eval: Evaluator,
    name: Seq<char>,
    args: Seq<ArgType<'_>>,
    values: Seq<ValueView>,
    context: StatementContext,
    product_version: Seq<char>,
)
    requires
        goes_with(signature, eval),
        signature == Signature::NumericSame || signature == Signature::NumericToDouble || signature
            == Signature::Power || signature == Signature::Mod || signature == Signature::Substring
            || signature == Signature::Extract || signature == Signature::IntegerToInteger,
        signature.verdict(name, args) is Ok,
        values.len() == args.len(),
        forall|i: int|
            0 <= i < values.len() ==> (#[trigger] values[i]).matches_type(args[i].data_type)
                && !(values[i] is Null),
    ensures
        is_typed_outcome(
            eval,
            eval.outcome(values, context, product_version),
            signature.verdict(name, args)->Ok_0,
        ),
{
    let text = DataType::Text;
    let integer = DataType::Integer;
    match signature {
        Signature::NumericSame | Signature::NumericToDouble => {
            assert(values[0].matches_type(args[0].data_type));
        },
        Signature::Power => {
            assert(values[0].matches_type(args[0].data_type));
            assert(values[1].matches_type(args[1].data_type));
        },
        Signature::Mod => {
            lemma_parameters(signature, name, args, seq![integer, integer], integer);
            assert(values[0].matches_type(args[0].data_type));
            assert(values[1].matches_type(args[1].data_type));
        },
        Signature::Substring => {
            lemma_parameters(signature, name, args, seq![text, integer, integer], text);
        },
        Signature::Extract => {
            assert(values[0].matches_type(args[0].data_type));
            assert(values[1].matches_type(args[1].data_type));
        },
        Signature::IntegerToInteger => {
            lemma_parameters(signature, name, args, seq![integer], integer);
        },
        _ => {},
    }
}

proof fn lemma_catalog_functions(
    signature: Signature,
    eval: Evaluator,
    name: Seq<char>,
    args: Seq<ArgType<'_>>,
    values: Seq<ValueView>,
    context: StatementContext,
    product_version: Seq<char>,
)
    requires
        goes_with(signature, eval),
        signature == Signature::PgGetIndexdef || signature == Signature::IntegerToBoolean
            || signature == Signature::PgGetExpr || signature == Signature::PgGetConstraintdef
            || signature == Signature::IntegerToText || signature == Signature::ObjDescription
            || signature == Signature::TwoIntegersToText || signature
            == Signature::OidOptionalBoolToText,
        signature.verdict(name, args) is Ok,
        values.len() == args.len(),
        forall|i: int|
            0 <= i < values.len() ==> (#[trigger] values[i]).matches_type(args[i].data_type)
                && !(values[i] is Null),
    ensures
        is_typed_outcome(
            eval,
            eval.outcome(values, context, product_version),
            signature.verdict(name, args)->Ok_0,
        ),
{
    let text = DataType::Text;
    let integer = DataType::Integer;
    let boolean = DataType::Boolean;
    assert(values.len() > 0 ==> values[0].matches_type(args[0].data_type));
    assert(values.len() > 1 ==> values[1].matches_type(args[1].data_type));
    assert(values.len() > 2 ==> values[2].matches_type(args[2].data_type));
    match signature {
        Signature::PgGetIndexdef => {
            lemma_parameters(signature, name, args, seq![integer, integer, boolean], text);
        },
        Signature::IntegerToBoolean => {
            lemma_parameters(signature, name, args, seq![integer], boolean);
        },
        Signature::PgGetExpr => {
            lemma_parameters(signature, name, args, seq![text, integer, boolean], text);
        },
        Signature::PgGetConstraintdef | Signature::OidOptionalBoolToText => {
            lemma_parameters(signature, name, args, seq![integer, boolean], text);
        },
        Signature::IntegerToText => {
            lemma_parameters(signature, name, args, seq![integer], text);
        },
        Signature::ObjDescription => {
            lemma_parameters(signature, name, args, seq![integer, text], text);
        },
        Signature::TwoIntegersToText => {
            lemma_parameters(signature, name, args, seq![integer, integer], text);
        },
        _ => {},
    }
}

proof fn lemma_privilege(name: Seq<char>, args: Seq<ArgType<'_>>, start: int)
    requires
        0 <= start,
        signature::text_or_integer(name, args, start) is Ok,
    ensures
        signature::text_or_integer(name, args, start) == Verdict::Ok(DataType::Boolean),
    decreases args.len() - start,
{
    if start < args.len() {
        lemma_privilege(name, args, start + 1);
    }
}

proof fn lemma_other_functions(
    signature: Signature,
    eval: Evaluator,
    name: Seq<char>,
    args: Seq<ArgType<'_>>,
    values: Seq<ValueView>,
    context: StatementContext,
    product_version: Seq<char>,
)
    requires
        goes_with(signature, eval),
        signature == Signature::Concat || signature == Signature::NoArgsTimestamptz || signature
            == Signature::NoArgsText || signature == Signature::NoArgsInteger || signature
            == Signature::FormatType || signature == Signature::Privilege2Or3 || signature
            == Signature::Privilege3Or4,
        signature.verdict(name, args) is Ok,
        values.len() == args.len(),
        forall|i: int|
            0 <= i < values.len() ==> (#[trigger] values[i]).matches_type(args[i].data_type),
    ensures
        is_typed_outcome(
            eval,
            eval.outcome(values, context, product_version),
            signature.verdict(name, args)->Ok_0,
        ),
{
    let text = DataType::Text;
    let integer = DataType::Integer;
    match signature {
        Signature::Concat => {
            let texts = signature::all_texts(args.len());
            lemma_parameters(signature, name, args, texts, text);
            lemma_concat(values, 0, Seq::empty());
            assert forall|i: int| 0 <= i < values.len() implies (#[trigger] values[i]) is Null
                || values[i] is Text by {
                assert(values[i].matches_type(args[i].data_type));
            }
        },
        Signature::FormatType => {
            lemma_parameters(signature, name, args, seq![integer, integer], text);
            assert(values[0].matches_type(args[0].data_type));
            assert(values[1].matches_type(args[1].data_type));
        },
        Signature::Privilege2Or3 | Signature::Privilege3Or4 => {
            lemma_privilege(name, args, 0);
        },
        _ => {},
    }
}

/// A call whose signature was checked, on arguments of the checked types, comes to a
/// result of the type that the check gave: no argument has a type that its evaluator does
/// not expect. A function that propagates NULL is not called with a NULL.
pub proof fn checked_calls_have_the_checked_type(
    name: Seq<char>,
    function: FunctionView,
    args: Seq<ArgType<'_>>,
    values: Seq<ValueView>,
    context: StatementContext,
    product_version: Seq<char>,
)
    requires
        registry::function_named(name) == Some(function),
        function.signature.verdict(name, args) is Ok,
        values.len() == args.len(),
        forall|i: int|
            0 <= i < values.len() ==> (#[trigger] values[i]).matches_type(args[i].data_type),
        function.null_handling == NullHandling::Propagate || function.null_handling
            == NullHandling::Nullable ==> forall|i: int|
            0 <= i < values.len() ==> !((#[trigger] values[i]) is Null),
    ensures
        is_typed_outcome(
            function.eval,
            function.eval.outcome(values, context, product_version),
            function.signature.verdict(name, args)->Ok_0,
        ),
{
    lemma_registered(name, function);
    let signature = function.signature;
    let eval = function.eval;
    match signature {
        Signature::TextToText
        | Signature::Length
        | Signature::Replace
        | Signature::Position
        | Signature::TextIntegerToText
        | Signature::TwoTextToText
        | Signature::TextToInteger => {
            lemma_text_functions(signature, eval, name, args, values, context, product_version);
        },
        Signature::NumericSame
        | Signature::NumericToDouble
        | Signature::Power
        | Signature::Mod
        | Signature::Substring
        | Signature::Extract
        | Signature::IntegerToInteger => {
            lemma_number_functions(signature, eval, name, args, values, context, product_version);
        },
        Signature::PgGetIndexdef
        | Signature::IntegerToBoolean
        | Signature::PgGetExpr
        | Signature::PgGetConstraintdef
        | Signature::IntegerToText
        | Signature::ObjDescription
        | Signature::TwoIntegersToText
        | Signature::OidOptionalBoolToText => {
            lemma_catalog_functions(signature, eval, name, args, values, context, product_version);
        },
        _ => {
            lemma_other_functions(signature, eval, name, args, values, context, product_version);
        },
    }
}

} // verus!
