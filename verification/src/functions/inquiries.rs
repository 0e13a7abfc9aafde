//! What the functions that describe the catalog answer, and what they ask of it.

use vstd::prelude::*;

use crate::context::StatementContext;
use crate::error::{ErrorView, Result};
use crate::functions::catalog;
use crate::functions::evaluate::{self, CatalogQueryView, EvaluationView, Outcome};
use crate::functions::meaning::{integer_result, text_result};
use crate::functions::registry::Evaluator;
use crate::pg_type::{self, PgType};
use crate::text;
use crate::value::{Value, ValueView};

verus! {

/// The call comes to NULL.
pub open spec fn is_null(outcome: Outcome) -> bool {
    outcome matches Ok(EvaluationView::Done(value)) && value is Null
}

/// `FORMAT_TYPE` names the type with a number and a modifier as it is declared. No
/// modifier counts as -1, an unknown number is named by question marks, and no number
/// gives NULL.
pub proof fn types_are_named_as_declared(
    wire_type: PgType,
    oid: i64,
    typmod: i64,
    context: StatementContext,
    version: Seq<char>,
)
    ensures
        ({
            let call = |oid: ValueView, typmod: ValueView|
                Evaluator::FormatType.outcome(seq![oid, typmod], context, version);
            let number = ValueView::Integer(oid);
            &&& is_null(call(ValueView::Null, ValueView::Integer(typmod)))
            &&& call(number, ValueView::Null) == call(number, ValueView::Integer(-1i64))
            &&& text_result(call(number, ValueView::Integer(typmod))) is Some
            &&& pg_type::wire_type_of_oid(oid as int, typmod as int) is None ==> text_result(
                call(number, ValueView::Integer(typmod)),
            ) == Some("???"@)
            &&& wire_type.typmod_is_encodable() && !(wire_type is Array) && wire_type.spec_oid()
                == Some(oid as i32) && i32::MIN <= oid <= i32::MAX && wire_type.spec_typmod()
                == typmod ==> text_result(call(number, ValueView::Integer(typmod))) == Some(
                wire_type.spec_type_name(),
            )
        }),
{
    if wire_type.typmod_is_encodable() && !(wire_type is Array) {
        wire_type.oid_and_typmod_identify_the_type();
    }
}

/// A function is described by its name, its parameters and its result, as the catalog
/// names their types, and it is visible exactly if it can be described.
pub proof fn functions_are_described_by_the_catalog(
    oid: i64,
    context: StatementContext,
    version: Seq<char>,
)
    ensures
        ({
            let number = ValueView::Integer(oid);
            let call = |function: Evaluator| function.outcome(seq![number], context, version);
            let definition = call(Evaluator::PgGetFunctiondef);
            let arguments = call(Evaluator::PgGetFunctionArguments);
            let result = call(Evaluator::PgGetFunctionResult);
            let visible = call(Evaluator::PgFunctionIsVisible);
            match catalog::entry_with_oid(oid) {
                Some(entry) => {
                    &&& visible == Ok::<EvaluationView, ErrorView>(
                        EvaluationView::Done(ValueView::Boolean(true)),
                    )
                    &&& text_result(result) == text_result(
                        Evaluator::FormatType.outcome(
                            seq![ValueView::Integer(entry.ret_oid), ValueView::Null],
                            context,
                            version,
                        ),
                    )
                    &&& text_result(result) is Some && text_result(arguments) is Some
                    &&& text_result(definition) == Some(
                        "CREATE FUNCTION pg_catalog."@ + entry.name + "("@
                            + text_result(arguments)->0 + ") RETURNS "@ + text_result(result)->0
                            + " LANGUAGE sql"@,
                    )
                },
                None => {
                    &&& visible == Ok::<EvaluationView, ErrorView>(
                        EvaluationView::Done(ValueView::Boolean(false)),
                    )
                    &&& is_null(definition) && is_null(arguments) && is_null(result)
                },
            }
        }),
{
}

/// The parameters of a function are listed in their order with commas between them; one
/// that repeats says so.
pub proof fn parameters_are_listed_in_order(index: int)
    requires
        0 <= index < catalog::CATALOG_LEN,
    ensures
        ({
            let entry = catalog::catalog_entry(index);
            let named = |i: int| catalog::type_display(entry.arg_oids[i] as int);
            let listed = evaluate::arguments_text(entry);
            &&& entry.arg_oids.len() == 0 ==> listed == Seq::<char>::empty()
            &&& entry.arg_oids.len() == 1 && entry.name != "concat"@ ==> listed == named(0)
            &&& entry.arg_oids.len() == 2 && entry.name != "concat"@ ==> listed == named(0) + ", "@
                + named(1)
            &&& entry.arg_oids.len() == 3 && entry.name != "concat"@ ==> listed == named(0) + ", "@
                + named(1) + ", "@ + named(2)
            &&& entry.arg_oids.len() == 1 && entry.name == "concat"@ ==> listed == "VARIADIC "@
                + named(0)
        }),
{
    let entry = catalog::catalog_entry(index);
    let names = evaluate::argument_names(entry);
    reveal_with_fuel(text::joined, 4);
    if names.len() == 3 {
        assert(names.drop_last().drop_last().len() == 1);
        assert(names.drop_last().drop_last()[0] == names[0]);
        assert(names.drop_last().last() == names[1]);
    } else if names.len() == 2 {
        assert(names.drop_last()[0] == names[0]);
    }
}

/// `OIDVECTORTYPES` names the types whose numbers a text lists, in their order, with commas
/// between them.
pub proof fn type_lists_are_named_in_order(
    list: Seq<char>,
    first: Seq<char>,
    second: Seq<char>,
    a: i64,
    b: i64,
    context: StatementContext,
    version: Seq<char>,
)
    requires
        text::integer_of(first) == Some(a as int),
        text::integer_of(second) == Some(b as int),
    ensures
        ({
            let named = text_result(
                Evaluator::Oidvectortypes.outcome(seq![ValueView::Text(list)], context, version),
            );
            let (one, two) = (catalog::type_display(a as int), catalog::type_display(b as int));
            &&& text::words(list).len() == 0 ==> named == Some(Seq::<char>::empty())
            &&& text::words(list) == seq![first] ==> named == Some(one)
            &&& text::words(list) == seq![first, second] ==> named == Some(one + ", "@ + two)
        }),
{
    let names = text::words(list).map_values(|word: Seq<char>| evaluate::type_of_word(word));
    reveal_with_fuel(text::joined, 3);
    if text::words(list) == seq![first] {
        assert(names[0] == evaluate::type_of_word(first));
    }
    if text::words(list) == seq![first, second] {
        assert(names[0] == evaluate::type_of_word(first));
        assert(names[1] == evaluate::type_of_word(second));
        assert(names.drop_last()[0] == names[0]);
    }
}

/// A question to the catalog holds the arguments of the call, each in its place. Where the
/// arguments that choose the form of the answer are missing, the whole thing is asked for,
/// in its plain form.
pub proof fn questions_hold_the_arguments(
    oid: i64,
    column: i64,
    pretty: bool,
    expr: Seq<char>,
    name: Seq<char>,
    context: StatementContext,
    version: Seq<char>,
)
    ensures
        ({
            let asks = |function: Evaluator, values: Seq<ValueView>, query: CatalogQueryView|
                function.outcome(values, context, version) == Ok::<EvaluationView, ErrorView>(
                    EvaluationView::Catalog(query),
                );
            let (number, flag) = (ValueView::Integer(oid), ValueView::Boolean(pretty));
            let (written, named) = (ValueView::Text(expr), ValueView::Text(name));
            &&& asks(
                Evaluator::PgGetIndexdef,
                seq![number],
                CatalogQueryView::IndexDef { index_oid: oid, column: None, pretty: false },
            )
            &&& asks(
                Evaluator::PgGetIndexdef,
                seq![number, ValueView::Integer(column), flag],
                CatalogQueryView::IndexDef { index_oid: oid, column: Some(column), pretty },
            )
            &&& asks(
                Evaluator::PgGetConstraintdef,
                seq![number],
                CatalogQueryView::ConstraintDef { constraint_oid: oid, pretty: false },
            )
            &&& asks(
                Evaluator::PgGetConstraintdef,
                seq![number, flag],
                CatalogQueryView::ConstraintDef { constraint_oid: oid, pretty },
            )
            &&& asks(
                Evaluator::PgGetExpr,
                seq![written, number],
                CatalogQueryView::Expr { expr, relation_oid: oid, pretty: false },
            )
            &&& asks(
                Evaluator::PgGetExpr,
                seq![written, number, flag],
                CatalogQueryView::Expr { expr, relation_oid: oid, pretty },
            )
            &&& asks(Evaluator::PgGetUserbyid, seq![number], CatalogQueryView::UserById(oid))
            &&& asks(Evaluator::PgTableIsVisible, seq![number], CatalogQueryView::TableIsVisible(oid))
            &&& asks(Evaluator::ToRegclass, seq![named], CatalogQueryView::RegClass(name))
            &&& asks(
                Evaluator::PgGetSerialSequence,
                seq![named, written],
                CatalogQueryView::SerialSequence { table: name, column: expr },
            )
            &&& Evaluator::CurrentSetting.outcome(seq![named], context, version) == Ok::<
                EvaluationView,
                ErrorView,
            >(EvaluationView::Setting(name))
        }),
{
}

/// What the server does not keep is answered as absent: there are no descriptions and no
/// sizes. Whatever privilege is asked for is granted.
pub proof fn absent_things_are_answered_as_such(
    values: Seq<ValueView>,
    context: StatementContext,
    version: Seq<char>,
)
    ensures
        is_null(Evaluator::Null.outcome(values, context, version)),
        integer_result(Evaluator::Zero.outcome(values, context, version)) == Some(0int),
        Evaluator::True.outcome(values, context, version) == Ok::<EvaluationView, ErrorView>(
            EvaluationView::Done(ValueView::Boolean(true)),
        ),
        Evaluator::False.outcome(values, context, version) == Ok::<EvaluationView, ErrorView>(
            EvaluationView::Done(ValueView::Boolean(false)),
        ),
{
}

/// The name that `FORMAT_TYPE` gives to a type is read by `TO_REGTYPE` as that type.
pub proof fn names_of_types_name_them(oid: i64, context: StatementContext, version: Seq<char>)
    requires
        pg_type::wire_type_of_oid(oid as int, -1) is Some,
    ensures
        ({
            let name = text_result(
                Evaluator::FormatType.outcome(
                    seq![ValueView::Integer(oid), ValueView::Null],
                    context,
                    version,
                ),
            );
            &&& name is Some
            &&& integer_result(
                Evaluator::ToRegtype.outcome(seq![ValueView::Text(name->0)], context, version),
            ) == Some(oid as int)
        }),
{
    let name = pg_type::wire_type_of_oid(oid as int, -1)->0.spec_type_name();
    let nothing = Seq::<char>::empty();
    pg_type::names::type_names_read_back(oid, nothing, nothing, name, nothing);
    assert(nothing + nothing + name + nothing =~= name);
}

/// A setting that there is is the result of `CURRENT_SETTING`, and one that there is not
/// is an error.
pub proof fn settings_are_reported(name: Seq<char>, setting: Option<String>, result: Result<Value>)
    requires
        evaluate::is_setting_result(name, setting, result),
    ensures
        result is Ok <==> setting is Some,
        setting is Some ==> result->Ok_0@ == ValueView::Text(setting->0@),
{
}

} // verus!
