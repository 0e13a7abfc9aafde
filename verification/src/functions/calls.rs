//! What the built-in functions may be called with, and what such a call gives.

use vstd::prelude::*;

use crate::functions::registry::{self, FunctionView};
use crate::functions::signature::{self, ArgType};
use crate::functions::soundness;
use crate::schema::DataType;

verus! {

/// Parameters accept the arguments exactly if each argument has the type of its
/// parameter, and then the result is the given one.
proof fn lemma_parameters_accept(
    args: Seq<ArgType<'_>>,
    parameters: Seq<DataType>,
    start: int,
    result: DataType,
)
    requires
        0 <= start,
    ensures
        signature::typed(args, parameters, start, Ok(result)) is Ok <==> forall|i: int|
            start <= i < args.len() && i < parameters.len() ==> (#[trigger] args[i]).data_type
                == parameters[i],
        signature::typed(args, parameters, start, Ok(result)) matches Ok(data_type)
            ==> data_type == result,
    decreases args.len() - start,
{
    if start < args.len() && start < parameters.len() {
        lemma_parameters_accept(args, parameters, start + 1, result);
        if args[start].data_type == parameters[start] {
            if forall|i: int|
                start + 1 <= i < args.len() && i < parameters.len() ==> (
                #[trigger] args[i]).data_type == parameters[i] {
                assert forall|i: int|
                    start <= i < args.len() && i < parameters.len() implies (
                #[trigger] args[i]).data_type == parameters[i] by {}
            }
        }
    }
}

/// `UPPER`, `LOWER`, `TRIM`, `LENGTH`, `REPLACE`, `POSITION`, `LEFT` and `RIGHT` take
/// texts, and counts where they have any, and give a text or a count.
pub proof fn text_functions_take_texts(
    name: Seq<char>,
    function: FunctionView,
    args: Seq<ArgType<'_>>,
)
    requires
        registry::function_named(name) == Some(function),
    ensures
        ({
            let verdict = function.signature.verdict(name, args);
            let eval = function.eval;
            &&& eval is Upper || eval is Lower || eval is Trim || eval is CurrentSetting
                || eval is Oidvectortypes ==> {
                &&& verdict is Ok <==> args.len() == 1 && args[0].data_type is Text
                &&& verdict matches Ok(data_type) ==> data_type is Text
            }
            &&& eval is Length ==> {
                &&& verdict is Ok <==> args.len() == 1 && args[0].data_type is Text
                &&& verdict matches Ok(data_type) ==> data_type is Integer
            }
            &&& eval is Replace ==> {
                &&& verdict is Ok <==> args.len() == 3 && args[0].data_type is Text
                    && args[1].data_type is Text && args[2].data_type is Text
                &&& verdict matches Ok(data_type) ==> data_type is Text
            }
            &&& eval is Position ==> {
                &&& verdict is Ok <==> args.len() == 2 && args[0].data_type is Text
                    && args[1].data_type is Text
                &&& verdict matches Ok(data_type) ==> data_type is Integer
            }
            &&& eval is Left || eval is Right ==> {
                &&& verdict is Ok <==> args.len() == 2 && args[0].data_type is Text
                    && args[1].data_type is Integer
                &&& verdict matches Ok(data_type) ==> data_type is Text
            }
        }),
{
    let (text, integer) = (DataType::Text, DataType::Integer);
    soundness::lemma_registered(name, function);
    lemma_parameters_accept(args, seq![text], 0, text);
    lemma_parameters_accept(args, seq![text], 0, integer);
    lemma_parameters_accept(args, seq![text, text, text], 0, text);
    lemma_parameters_accept(args, seq![text, text], 0, integer);
    lemma_parameters_accept(args, seq![text, integer], 0, text);
}

/// `ABS`, `FLOOR`, `CEIL` and `ROUND` keep the type of their number, `SQRT` and `POWER`
/// give doubles, and `MOD` is of integers.
pub proof fn number_functions_take_numbers(
    name: Seq<char>,
    function: FunctionView,
    args: Seq<ArgType<'_>>,
)
    requires
        registry::function_named(name) == Some(function),
    ensures
        ({
            let verdict = function.signature.verdict(name, args);
            let eval = function.eval;
            let is_number = |arg: ArgType<'_>| arg.data_type is Integer || arg.data_type is Double;
            &&& eval is Abs || eval is Floor || eval is Ceil || eval is Round ==> {
                &&& verdict is Ok <==> args.len() == 1 && is_number(args[0])
                &&& verdict matches Ok(data_type) ==> data_type == args[0].data_type
            }
            &&& eval is Sqrt ==> {
                &&& verdict is Ok <==> args.len() == 1 && is_number(args[0])
                &&& verdict matches Ok(data_type) ==> data_type is Double
            }
            &&& eval is Power ==> {
                &&& verdict is Ok <==> args.len() == 2 && is_number(args[0]) && is_number(args[1])
                &&& verdict matches Ok(data_type) ==> data_type is Double
            }
            &&& eval is Mod ==> {
                &&& verdict is Ok <==> args.len() == 2 && args[0].data_type is Integer
                    && args[1].data_type is Integer
                &&& verdict matches Ok(data_type) ==> data_type is Integer
            }
        }),
{
    let integer = DataType::Integer;
    soundness::lemma_registered(name, function);
    lemma_parameters_accept(args, seq![integer, integer], 0, integer);
}

/// `CONCAT` puts one or more texts together, `SUBSTRING` takes a text, a start and
/// perhaps a length, and `EXTRACT` takes a component, which it must support where it is
/// known, out of a date or a timestamp.
pub proof fn calls_may_vary(name: Seq<char>, function: FunctionView, args: Seq<ArgType<'_>>)
    requires
        registry::function_named(name) == Some(function),
    ensures
        ({
            let verdict = function.signature.verdict(name, args);
            let eval = function.eval;
            &&& eval is Concat ==> {
                &&& verdict is Ok <==> args.len() > 0 && forall|i: int|
                    0 <= i < args.len() ==> (#[trigger] args[i]).data_type is Text
                &&& verdict matches Ok(data_type) ==> data_type is Text
            }
            &&& eval is Substring ==> {
                &&& verdict is Ok <==> (args.len() == 2 || args.len() == 3)
                    && args[0].data_type is Text && args[1].data_type is Integer && (args.len() == 3
                    ==> args[2].data_type is Integer)
                &&& verdict matches Ok(data_type) ==> data_type is Text
            }
            &&& eval is Extract ==> {
                &&& verdict is Ok <==> {
                    let field = signature::literal_text(args[0]);
                    &&& args.len() == 2
                    &&& args[0].data_type is Text
                    &&& args[1].data_type is Date || args[1].data_type is Timestamp
                    &&& field is Some ==> field->0 == "year"@ || field->0 == "month"@ || field->0
                        == "day"@ || field->0 == "hour"@ || field->0 == "minute"@ || field->0
                        == "second"@
                }
                &&& verdict matches Ok(data_type) ==> data_type is Double
            }
        }),
{
    let (text, integer) = (DataType::Text, DataType::Integer);
    soundness::lemma_registered(name, function);
    lemma_parameters_accept(args, signature::all_texts(args.len()), 0, text);
    if function.eval is Concat {
        let texts = signature::all_texts(args.len());
        assert forall|i: int| 0 <= i < args.len() implies texts[i] == text by {}
        if function.signature.verdict(name, args) is Ok {
            assert forall|i: int| 0 <= i < args.len() implies (
            #[trigger] args[i]).data_type is Text by {}
        }
    }
    lemma_parameters_accept(args, seq![text, integer, integer], 0, text);
}

/// The functions that report on the session take no arguments and are never NULL; `NOW`
/// gives a timestamp with time zone, the process a number, and the others a text.
pub proof fn session_functions_take_nothing(
    name: Seq<char>,
    function: FunctionView,
    args: Seq<ArgType<'_>>,
    arg_nullable: Seq<bool>,
)
    requires
        registry::function_named(name) == Some(function),
    ensures
        ({
            let verdict = function.signature.verdict(name, args);
            let eval = function.eval;
            let is_text = eval is Version || eval is CurrentDatabase || eval is CurrentSchema
                || eval is CurrentUser;
            eval is StatementTimestamp || eval is PgBackendPid || is_text ==> {
                &&& verdict is Ok <==> args.len() == 0
                &&& verdict matches Ok(data_type) ==> (eval is StatementTimestamp ==> data_type
                    is TimestampTz) && (eval is PgBackendPid ==> data_type is Integer) && (is_text
                    ==> data_type is Text)
                &&& !function.result_nullable(arg_nullable)
            }
        }),
{
    soundness::lemma_registered(name, function);
    lemma_null_handling(name, function);
    lemma_parameters_accept(args, Seq::<DataType>::empty(), 0, DataType::Text);
    lemma_parameters_accept(args, Seq::<DataType>::empty(), 0, DataType::Integer);
    lemma_parameters_accept(args, Seq::<DataType>::empty(), 0, DataType::TimestampTz);
}

#[verifier::rlimit(50)]
proof fn lemma_null_handling(name: Seq<char>, function: FunctionView)
    requires
        registry::function_named(name) == Some(function),
    ensures
        ({
            let eval = function.eval;
            let handling = function.null_handling;
            &&& eval is StatementTimestamp || eval is PgBackendPid || eval is Version
                || eval is CurrentDatabase || eval is CurrentSchema || eval is CurrentUser
                || eval is Concat ==> handling is NeverNull
            &&& eval is Upper || eval is Lower || eval is Trim || eval is Length || eval is Abs
                || eval is Floor || eval is Ceil || eval is Round || eval is Sqrt || eval is Power
                || eval is Mod || eval is Replace || eval is Position || eval is Left
                || eval is Right || eval is Substring || eval is Extract || eval is CurrentSetting
                || eval is PgTableIsVisible || eval is True || eval is False ==> handling is Propagate
            &&& eval is Null || eval is PgGetIndexdef || eval is PgGetExpr
                || eval is PgGetConstraintdef || eval is PgGetUserbyid
                || eval is PgGetSerialSequence || eval is ToRegclass || eval is ToRegtype
                || eval is PgGetFunctiondef || eval is PgGetFunctionArguments
                || eval is PgGetFunctionResult ==> handling is Nullable
            &&& eval is FormatType <==> handling is EvaluateNullable
        }),
{
    reveal(registry::function_named);
}

/// A function of texts, numbers or times can be NULL exactly if one of its arguments can;
/// `CONCAT` passes over NULLs and never is; what is looked up in the catalog can be NULL
/// whatever the arguments, because it may not be there.
pub proof fn nulls_come_from_arguments(
    name: Seq<char>,
    function: FunctionView,
    arg_nullable: Seq<bool>,
)
    requires
        registry::function_named(name) == Some(function),
    ensures
        ({
            let eval = function.eval;
            let nullable = function.result_nullable(arg_nullable);
            &&& eval is Concat ==> !nullable
            &&& eval is Upper || eval is Lower || eval is Trim || eval is Length || eval is Abs
                || eval is Floor || eval is Ceil || eval is Round || eval is Sqrt || eval is Power
                || eval is Mod || eval is Replace || eval is Position || eval is Left
                || eval is Right || eval is Substring || eval is Extract || eval is CurrentSetting
                || eval is PgTableIsVisible ==> (nullable <==> exists|i: int|
                0 <= i < arg_nullable.len() && #[trigger] arg_nullable[i])
            &&& eval is FormatType || eval is PgGetIndexdef || eval is PgGetExpr
                || eval is PgGetConstraintdef || eval is PgGetUserbyid
                || eval is PgGetSerialSequence || eval is ToRegclass || eval is ToRegtype
                || eval is PgGetFunctiondef || eval is PgGetFunctionArguments
                || eval is PgGetFunctionResult ==> nullable
        }),
{
    lemma_null_handling(name, function);
    if arg_nullable.contains(true) {
        let i = choose|i: int| 0 <= i < arg_nullable.len() && arg_nullable[i] == true;
        assert(arg_nullable[i]);
    }
    if exists|i: int| 0 <= i < arg_nullable.len() && #[trigger] arg_nullable[i] {
        let i = choose|i: int| 0 <= i < arg_nullable.len() && #[trigger] arg_nullable[i];
        assert(arg_nullable[i] == true);
    }
}

/// The functions that look something up by a number take that number, with the options
/// that they have, and give a text; the tests of visibility give a boolean; the names of
/// relations and types are looked up to give a number.
pub proof fn lookups_take_keys(name: Seq<char>, function: FunctionView, args: Seq<ArgType<'_>>)
    requires
        registry::function_named(name) == Some(function),
    ensures
        ({
            let verdict = function.signature.verdict(name, args);
            let eval = function.eval;
            &&& eval is FormatType ==> {
                &&& verdict is Ok <==> args.len() == 2 && args[0].data_type is Integer
                    && args[1].data_type is Integer
                &&& verdict matches Ok(data_type) ==> data_type is Text
            }
            &&& eval is PgGetIndexdef ==> {
                &&& verdict is Ok <==> args[0].data_type is Integer && (args.len() == 1 || (args.len()
                    == 3 && args[1].data_type is Integer && args[2].data_type is Boolean))
                &&& verdict matches Ok(data_type) ==> data_type is Text
            }
            &&& eval is PgGetExpr ==> {
                &&& verdict is Ok <==> args[0].data_type is Text && args[1].data_type is Integer && (
                args.len() == 2 || (args.len() == 3 && args[2].data_type is Boolean))
                &&& verdict matches Ok(data_type) ==> data_type is Text
            }
            &&& eval is PgGetConstraintdef ==> {
                &&& verdict is Ok <==> args[0].data_type is Integer && (args.len() == 1 || (args.len()
                    == 2 && args[1].data_type is Boolean))
                &&& verdict matches Ok(data_type) ==> data_type is Text
            }
            &&& eval is PgGetUserbyid || eval is PgGetFunctiondef || eval is PgGetFunctionArguments
                || eval is PgGetFunctionResult ==> {
                &&& verdict is Ok <==> args.len() == 1 && args[0].data_type is Integer
                &&& verdict matches Ok(data_type) ==> data_type is Text
            }
            &&& eval is PgTableIsVisible || eval is PgFunctionIsVisible || eval is False ==> {
                &&& verdict is Ok <==> args.len() == 1 && args[0].data_type is Integer
                &&& verdict matches Ok(data_type) ==> data_type is Boolean
            }
            &&& eval is PgGetSerialSequence ==> {
                &&& verdict is Ok <==> args.len() == 2 && args[0].data_type is Text
                    && args[1].data_type is Text
                &&& verdict matches Ok(data_type) ==> data_type is Text
            }
            &&& eval is ToRegclass || eval is ToRegtype ==> {
                &&& verdict is Ok <==> args.len() == 1 && args[0].data_type is Text
                &&& verdict matches Ok(data_type) ==> data_type is Integer
            }
        }),
{
    let (text, integer, boolean) = (DataType::Text, DataType::Integer, DataType::Boolean);
    soundness::lemma_registered(name, function);
    lemma_parameters_accept(args, seq![integer, integer], 0, text);
    lemma_parameters_accept(args, seq![integer, integer, boolean], 0, text);
    lemma_parameters_accept(args, seq![text, integer, boolean], 0, text);
    lemma_parameters_accept(args, seq![integer, boolean], 0, text);
    lemma_parameters_accept(args, seq![integer], 0, text);
    lemma_parameters_accept(args, seq![integer], 0, boolean);
    lemma_parameters_accept(args, seq![text, text], 0, text);
    lemma_parameters_accept(args, seq![text], 0, integer);
}

proof fn lemma_texts_and_integers(name: Seq<char>, args: Seq<ArgType<'_>>, start: int)
    requires
        0 <= start,
    ensures
        signature::text_or_integer(name, args, start) is Ok <==> forall|i: int|
            start <= i < args.len() ==> (#[trigger] args[i]).data_type is Text
                || args[i].data_type is Integer,
        signature::text_or_integer(name, args, start) matches Ok(data_type)
            ==> data_type is Boolean,
    decreases args.len() - start,
{
    if start < args.len() {
        lemma_texts_and_integers(name, args, start + 1);
        if args[start].data_type is Text || args[start].data_type is Integer {
            if signature::text_or_integer(name, args, start + 1) is Ok {
                assert forall|i: int| start <= i < args.len() implies (
                #[trigger] args[i]).data_type is Text || args[i].data_type is Integer by {}
            }
        }
    }
}

/// An inquiry about a privilege names its object and its privilege by texts or numbers,
/// perhaps after a user; one about a column names the column too. It gives a boolean.
pub proof fn privileges_are_asked_by_names(
    name: Seq<char>,
    function: FunctionView,
    args: Seq<ArgType<'_>>,
)
    requires
        registry::function_named(name) == Some(function),
        function.eval is True,
    ensures
        function.signature.verdict(name, args) is Ok ==> 2 <= args.len() <= 4 && forall|i: int|
            0 <= i < args.len() ==> (#[trigger] args[i]).data_type is Text || args[i].data_type
                is Integer,
        args.len() == 3 && (forall|i: int|
            0 <= i < args.len() ==> (#[trigger] args[i]).data_type is Text || args[i].data_type
                is Integer) ==> function.signature.verdict(name, args) is Ok,
        function.signature.verdict(name, args) matches Ok(data_type) ==> data_type is Boolean,
{
    soundness::lemma_registered(name, function);
    lemma_texts_and_integers(name, args, 0);
}

/// The names of the functions say what they do.
#[verifier::rlimit(50)]
pub proof fn functions_go_by_their_names(name: Seq<char>, function: FunctionView)
    requires
        registry::function_named(name) == Some(function),
    ensures
        function.name == name,
        function.eval is Upper ==> name == "upper"@,
        function.eval is Lower ==> name == "lower"@,
        function.eval is Trim ==> name == "trim"@,
        function.eval is Length ==> name == "length"@,
        function.eval is Abs ==> name == "abs"@,
        function.eval is Floor ==> name == "floor"@,
        function.eval is Ceil ==> name == "ceil"@ || name == "ceiling"@,
        function.eval is Round ==> name == "round"@,
        function.eval is Sqrt ==> name == "sqrt"@,
        function.eval is Power ==> name == "power"@ || name == "pow"@,
        function.eval is Mod ==> name == "mod"@,
        function.eval is Replace ==> name == "replace"@,
        function.eval is Position ==> name == "position"@,
        function.eval is Left ==> name == "left"@,
        function.eval is Right ==> name == "right"@,
        function.eval is Concat ==> name == "concat"@,
        function.eval is Substring ==> name == "substring"@,
        function.eval is Extract ==> name == "extract"@,
        function.eval is StatementTimestamp ==> name == "current_timestamp"@ || name == "now"@,
        function.eval is Version ==> name == "version"@,
        function.eval is CurrentDatabase ==> name == "current_database"@ || name
            == "current_catalog"@,
        function.eval is CurrentSchema ==> name == "current_schema"@,
        function.eval is CurrentUser ==> name == "current_user"@ || name == "session_user"@
            || name == "user"@,
        function.eval is PgBackendPid ==> name == "pg_backend_pid"@,
        function.eval is CurrentSetting ==> name == "current_setting"@,
        function.eval is FormatType ==> name == "format_type"@,
{
    reveal(registry::function_named);
}

} // verus!
