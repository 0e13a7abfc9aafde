//! Argument type hints for calls with untyped arguments.

use vstd::prelude::*;

use crate::functions::registry::{self, FunctionView, ScalarFunction};
use crate::functions::signature::ArgType;
use crate::schema::DataType;

verus! {

/// The longest argument list that is searched type by type.
pub const MAX_HINT_ARITY: usize = 4;

/// The types that a hint can name.
pub open spec fn hint_types() -> Seq<DataType> {
    seq![
        DataType::Integer,
        DataType::Text,
        DataType::Boolean,
        DataType::Date,
        DataType::Timestamp,
        DataType::Time,
        DataType::TimestampTz,
        DataType::Interval,
        DataType::Bytea,
        DataType::Uuid,
        DataType::Double,
        DataType::Real,
        DataType::Numeric { precision: None, scale: 0 },
    ]
}

fn hint_candidate_types() -> (types: Vec<DataType>)
    ensures
        types@ == hint_types(),
{
    let types: Vec<DataType> = vec![
        DataType::Integer,
        DataType::Text,
        DataType::Boolean,
        DataType::Date,
        DataType::Timestamp,
        DataType::Time,
        DataType::TimestampTz,
        DataType::Interval,
        DataType::Bytea,
        DataType::Uuid,
        DataType::Double,
        DataType::Real,
        DataType::Numeric { precision: None, scale: 0 },
    ];
    assert(types@ == hint_types());
    types
}

/// Arguments of the given types, none of them a constant.
pub open spec fn untyped_args(types: Seq<DataType>) -> Seq<ArgType<'static>> {
    types.map_values(|data_type: DataType| ArgType { data_type, literal: None })
}

/// Whether a function accepts arguments of the given types.
pub open spec fn accepts(function: FunctionView, types: Seq<DataType>) -> bool {
    function.signature.verdict(function.name, untyped_args(types)) is Ok
}

/// Whether `types` is an argument list that begins with `chosen`, has `fixed_type`
/// at `fixed_index`, and any hint types elsewhere.
pub open spec fn extends(
    types: Seq<DataType>,
    chosen: Seq<DataType>,
    arity: nat,
    fixed_index: int,
    fixed_type: DataType,
) -> bool {
    &&& types.len() == arity
    &&& chosen.len() <= arity
    &&& types.take(chosen.len() as int) == chosen
    &&& forall|i: int|
        chosen.len() <= i < arity ==> if i == fixed_index {
            #[trigger] types[i] == fixed_type
        } else {
            hint_types().contains(types[i])
        }
}

/// Whether some argument list of hint types with `fixed_type` at `fixed_index` is
/// accepted.
pub open spec fn accepts_with(
    function: FunctionView,
    arity: nat,
    fixed_index: int,
    fixed_type: DataType,
) -> bool {
    exists|types: Seq<DataType>| #[trigger]
        extends(types, Seq::empty(), arity, fixed_index, fixed_type) && accepts(function, types)
}

/// Whether an argument list all of one type is accepted.
pub open spec fn accepts_uniform(function: FunctionView, arity: nat, data_type: DataType) -> bool {
    accepts(function, Seq::new(arity, |i: int| data_type))
}

/// Whether a candidate type can stand at an argument position.
pub open spec fn is_possible(
    function: FunctionView,
    arity: nat,
    index: int,
    candidate: DataType,
) -> bool {
    if arity > MAX_HINT_ARITY {
        accepts_uniform(function, arity, candidate)
    } else {
        accepts_with(function, arity, index, candidate)
    }
}

fn accepts_types(function: &ScalarFunction, types: &Vec<DataType>) -> (accepted: bool)
    ensures
        accepted == accepts(function@, types@),
{
    let mut args: Vec<ArgType<'static>> = Vec::new();
    let mut i: usize = 0;
    while i < types.len()
        invariant
            i <= types@.len(),
            args@ == untyped_args(types@.take(i as int)),
        decreases types@.len() - i,
    {
        args.push(ArgType { data_type: types[i].clone(), literal: None });
        i += 1;
        assert(args@ == untyped_args(types@.take(i as int)));
    }
    assert(types@.take(i as int) == types@);
    function.check_signature(args.as_slice()).is_ok()
}

/// Whether some completion of `chosen` is accepted.
spec fn completes(
    function: FunctionView,
    arity: nat,
    fixed_index: int,
    fixed_type: DataType,
    chosen: Seq<DataType>,
) -> bool {
    exists|types: Seq<DataType>| #[trigger]
        extends(types, chosen, arity, fixed_index, fixed_type) && accepts(function, types)
}

proof fn lemma_extends_longer(
    types: Seq<DataType>,
    chosen: Seq<DataType>,
    arity: nat,
    fixed_index: int,
    fixed_type: DataType,
    next: DataType,
)
    requires
        chosen.len() < arity,
    ensures
        extends(types, chosen.push(next), arity, fixed_index, fixed_type) && (if chosen.len()
            == fixed_index {
            next == fixed_type
        } else {
            hint_types().contains(next)
        }) ==> extends(types, chosen, arity, fixed_index, fixed_type),
        extends(types, chosen, arity, fixed_index, fixed_type) && types[chosen.len() as int] == next
            ==> extends(types, chosen.push(next), arity, fixed_index, fixed_type),
{
    let n = chosen.len() as int;
    if extends(types, chosen.push(next), arity, fixed_index, fixed_type) {
        assert(types.take(n + 1) == chosen.push(next));
        assert(types[n] == types.take(n + 1)[n]);
        assert(types.take(n) == types.take(n + 1).take(n));
        assert(chosen.push(next).take(n) == chosen);
    }
    if extends(types, chosen, arity, fixed_index, fixed_type) && types[n] == next {
        assert(types.take(n + 1) == types.take(n).push(types[n]));
    }
}

fn search(
    function: &ScalarFunction,
    arity: usize,
    fixed_index: usize,
    fixed_type: &DataType,
    chosen: &mut Vec<DataType>,
) -> (accepted: bool)
    requires
        old(chosen)@.len() <= arity,
    ensures
        final(chosen)@ == old(chosen)@,
        accepted == completes(
            function@,
            arity as nat,
            fixed_index as int,
            *fixed_type,
            old(chosen)@,
        ),
    decreases arity - old(chosen)@.len(),
{
    let ghost start = chosen@;
    let ghost n = start.len() as int;
    if chosen.len() == arity {
        proof {
            assert forall|types: Seq<DataType>|
                extends(types, start, arity as nat, fixed_index as int, *fixed_type) implies types
                == start by {
                assert(types.take(n) == types);
            }
            assert(start.take(n) == start);
            assert(extends(start, start, arity as nat, fixed_index as int, *fixed_type));
        }
        return accepts_types(function, chosen);
    }
    if chosen.len() == fixed_index {
        chosen.push(fixed_type.clone());
        let accepted: bool = search(function, arity, fixed_index, fixed_type, chosen);
        proof {
            let longer = start.push(*fixed_type);
            if accepted {
                let types = choose|types: Seq<DataType>| #[trigger]
                    extends(types, longer, arity as nat, fixed_index as int, *fixed_type)
                        && accepts(function@, types);
                lemma_extends_longer(
                    types,
                    start,
                    arity as nat,
                    fixed_index as int,
                    *fixed_type,
                    *fixed_type,
                );
            } else {
                assert forall|types: Seq<DataType>|
                    extends(types, start, arity as nat, fixed_index as int, *fixed_type) implies
                    !accepts(function@, types) by {
                    lemma_extends_longer(
                        types,
                        start,
                        arity as nat,
                        fixed_index as int,
                        *fixed_type,
                        *fixed_type,
                    );
                    assert(types[n] == *fixed_type);
                }
            }
        }
        let _ = chosen.pop();
        assert(chosen@ == start);
        return accepted;
    }
    let candidates: Vec<DataType> = hint_candidate_types();
    let mut i: usize = 0;
    while i < candidates.len()
        invariant
            i <= candidates@.len(),
            candidates@ == hint_types(),
            chosen@ == start,
            n == start.len(),
            n < arity,
            n != fixed_index,
            start == old(chosen)@,
            forall|j: int|
                0 <= j < i ==> !completes(
                    function@,
                    arity as nat,
                    fixed_index as int,
                    *fixed_type,
                    start.push(#[trigger] candidates@[j]),
                ),
        decreases candidates@.len() - i,
    {
        let candidate: DataType = candidates[i].clone();
        let ghost longer = start.push(candidate);
        chosen.push(candidate);
        let accepted: bool = search(function, arity, fixed_index, fixed_type, chosen);
        let _ = chosen.pop();
        assert(chosen@ == start);
        if accepted {
            proof {
                let types = choose|types: Seq<DataType>| #[trigger]
                    extends(types, longer, arity as nat, fixed_index as int, *fixed_type)
                        && accepts(function@, types);
                lemma_extends_longer(
                    types,
                    start,
                    arity as nat,
                    fixed_index as int,
                    *fixed_type,
                    candidates@[i as int],
                );
                assert(hint_types().contains(candidates@[i as int]));
            }
            return true;
        }
        i += 1;
    }
    proof {
        assert forall|types: Seq<DataType>|
            extends(types, start, arity as nat, fixed_index as int, *fixed_type) implies !accepts(
            function@,
            types,
        ) by {
            assert(hint_types().contains(types[n]));
            let j = choose|j: int| 0 <= j < hint_types().len() && hint_types()[j] == types[n];
            lemma_extends_longer(
                types,
                start,
                arity as nat,
                fixed_index as int,
                *fixed_type,
                candidates@[j],
            );
            assert(!completes(
                function@,
                arity as nat,
                fixed_index as int,
                *fixed_type,
                start.push(candidates@[j]),
            ));
        }
    }
    false
}

fn signature_accepts_with_fixed_arg(
    function: &ScalarFunction,
    arity: usize,
    fixed_index: usize,
    fixed_type: &DataType,
) -> (accepted: bool)
    ensures
        accepted == accepts_with(function@, arity as nat, fixed_index as int, *fixed_type),
{
    let mut chosen: Vec<DataType> = Vec::new();
    search(function, arity, fixed_index, fixed_type, &mut chosen)
}

fn signature_accepts_uniform_args(
    function: &ScalarFunction,
    arity: usize,
    data_type: &DataType,
) -> (accepted: bool)
    ensures
        accepted == accepts_uniform(function@, arity as nat, *data_type),
{
    let mut types: Vec<DataType> = Vec::new();
    let mut i: usize = 0;
    while i < arity
        invariant
            i <= arity,
            types@ == Seq::new(i as nat, |j: int| *data_type),
        decreases arity - i,
    {
        types.push(data_type.clone());
        i += 1;
        assert(types@ == Seq::new(i as nat, |j: int| *data_type));
    }
    accepts_types(function, &types)
}

/// Whether `hint` is the one candidate type that can stand at an argument position.
pub open spec fn is_only_possibility(
    function: FunctionView,
    arity: nat,
    index: int,
    hint: DataType,
) -> bool {
    &&& hint_types().contains(hint)
    &&& is_possible(function, arity, index, hint)
    &&& forall|other: DataType| #[trigger]
        hint_types().contains(other) && is_possible(function, arity, index, other) ==> other == hint
}

/// Expected argument type for functions whose common tool probes often pass
/// untyped NULLs or bind placeholders. The registered signature remains the
/// source of truth: this returns a hint only when a bounded search over supported
/// argument types finds exactly one type that can make the signature succeed at
/// `index`. `None` means there is no single useful type hint and ordinary
/// inference applies.
pub fn scalar_function_arg_hint(name: &str, arity: usize, index: usize) -> (hint: Option<DataType>)
    ensures
        match hint {
            Some(hint) => {
                &&& index < arity
                &&& registry::function_named(name@) is Some
                &&& is_only_possibility(
                    registry::function_named(name@)->0,
                    arity as nat,
                    index as int,
                    hint,
                )
            },
            None => {
                ||| index >= arity
                ||| registry::function_named(name@) is None
                ||| forall|hint: DataType|
                    !(#[trigger] is_only_possibility(
                        registry::function_named(name@)->0,
                        arity as nat,
                        index as int,
                        hint,
                    ))
            },
        },
{
    if index >= arity {
        return None;
    }
    let function: ScalarFunction = match registry::lookup_scalar_function(name) {
        Some(function) => function,
        None => return None,
    };
    let ghost view = function@;
    let candidates: Vec<DataType> = hint_candidate_types();
    let mut found: Option<usize> = None;
    let mut i: usize = 0;
    while i < candidates.len()
        invariant
            i <= candidates@.len(),
            candidates@ == hint_types(),
            view == function@,
            registry::function_named(name@) == Some(view),
            match found {
                Some(k) => k < i && is_possible(
                    view,
                    arity as nat,
                    index as int,
                    candidates@[k as int],
                ) && forall|j: int|
                    0 <= j < i && is_possible(
                        view,
                        arity as nat,
                        index as int,
                        #[trigger] candidates@[j],
                    ) ==> j == k,
                None => forall|j: int|
                    0 <= j < i ==> !is_possible(
                        view,
                        arity as nat,
                        index as int,
                        #[trigger] candidates@[j],
                    ),
            },
        decreases candidates@.len() - i,
    {
        let accepted: bool = if arity > MAX_HINT_ARITY {
            signature_accepts_uniform_args(&function, arity, &candidates[i])
        } else {
            signature_accepts_with_fixed_arg(&function, arity, index, &candidates[i])
        };
        if accepted {
            if let Some(k) = found {
                proof {
                    let (a, b) = (candidates@[k as int], candidates@[i as int]);
                    assert(a != b);
                    assert(hint_types().contains(a));
                    assert(hint_types().contains(b));
                }
                return None;
            }
            found = Some(i);
        }
        i += 1;
    }
    match found {
        Some(k) => {
            let hint: DataType = candidates[k].clone();
            proof {
                assert(hint_types().contains(hint));
                assert forall|other: DataType| #[trigger]
                    hint_types().contains(other) && is_possible(
                        view,
                        arity as nat,
                        index as int,
                        other,
                    ) implies other == hint by {
                    let j = choose|j: int| 0 <= j < hint_types().len() && hint_types()[j] == other;
                    assert(candidates@[j] == other);
                }
            }
            Some(hint)
        },
        None => {
            proof {
                assert forall|hint: DataType|
                    !(#[trigger] is_only_possibility(view, arity as nat, index as int, hint)) by {
                    if hint_types().contains(hint) {
                        let j = choose|j: int|
                            0 <= j < hint_types().len() && hint_types()[j] == hint;
                        assert(candidates@[j] == hint);
                    }
                }
            }
            None
        },
    }
}

proof fn lemma_hint_types(candidate: DataType) -> (index: int)
    requires
        !(candidate is Array),
        candidate matches DataType::Numeric { precision, scale } ==> precision is None && scale == 0,
    ensures
        0 <= index < hint_types().len(),
        hint_types()[index] == candidate,
{
    match candidate {
        DataType::Integer => 0,
        DataType::Text => 1,
        DataType::Boolean => 2,
        DataType::Date => 3,
        DataType::Timestamp => 4,
        DataType::Time => 5,
        DataType::TimestampTz => 6,
        DataType::Interval => 7,
        DataType::Bytea => 8,
        DataType::Uuid => 9,
        DataType::Double => 10,
        DataType::Real => 11,
        _ => 12,
    }
}

/// A hint can name every type but those of arrays, numerics without a precision alone.
pub proof fn hints_name_scalar_types(candidate: DataType)
    ensures
        hint_types().contains(candidate) <==> !(candidate is Array) && (candidate is Numeric
            ==> candidate == (DataType::Numeric { precision: None, scale: 0 })),
{
    if !(candidate is Array) && (candidate is Numeric ==> candidate == (DataType::Numeric {
        precision: None,
        scale: 0,
    })) {
        let index = lemma_hint_types(candidate);
        assert(hint_types()[index] == candidate);
    }
}

/// Where there is a hint, no other type can stand in its place.
pub proof fn hints_leave_no_choice(
    function: FunctionView,
    arity: nat,
    index: int,
    a: DataType,
    b: DataType,
)
    requires
        is_only_possibility(function, arity, index, a),
        is_only_possibility(function, arity, index, b),
    ensures
        a == b,
{
}

} // verus!
