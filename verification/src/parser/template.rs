//! What a template stands for: the signature under which a definition is
//! registered, the text it becomes in a scope, and the bindings that a call
//! makes when it is matched against a definition's name.

use crate::parser::errors::ParseError;
use crate::parser::ir::{Part, PartView, TextTemplate};
use crate::parser::scope::ArgMap;
use crate::parser::text::{joined, lemma_joined_push, texts};
use vstd::prelude::*;

verus! {

/// How a part appears in a signature: literal text as it is, a placeholder
/// as its name in brackets.
pub open spec fn marker(part: PartView) -> Seq<char> {
    match part {
        PartView::Literal(text) => text,
        PartView::Placeholder(name) => seq!['['] + name + seq![']'],
    }
}

/// The signature of a template: the markers of its parts, separated by
/// single spaces.
pub open spec fn signature(name: Seq<PartView>) -> Seq<char> {
    joined(name.map_values(|part: PartView| marker(part)), seq![' '])
}

/// The names of a template's placeholders, in the order in which they appear.
pub open spec fn parameters(name: Seq<PartView>) -> Seq<Seq<char>>
    decreases name.len(),
{
    if name.len() == 0 {
        Seq::empty()
    } else {
        match name.last() {
            PartView::Literal(_) => parameters(name.drop_last()),
            PartView::Placeholder(param) => parameters(name.drop_last()).push(param),
        }
    }
}

/// The text that a part becomes in a scope: literal text as it is, a
/// placeholder as the value bound to its name, or as its bare name where the
/// scope does not bind it.
pub open spec fn resolved(part: PartView, args: Map<Seq<char>, Seq<char>>) -> Seq<char> {
    match part {
        PartView::Literal(text) => text,
        PartView::Placeholder(name) => if args.contains_key(name) {
            args[name]
        } else {
            name
        },
    }
}

/// The text that a template becomes in a scope: its parts, each resolved,
/// separated by single spaces.
pub open spec fn substituted(template: Seq<PartView>, args: Map<Seq<char>, Seq<char>>) -> Seq<
    char,
> {
    joined(template.map_values(|part: PartView| resolved(part, args)), seq![' '])
}

/// The text of a template that holds literal parts only: the literals,
/// separated by single spaces.
pub open spec fn literal_text(template: Seq<PartView>) -> Seq<char> {
    joined(template.map_values(|part: PartView| part->Literal_0), seq![' '])
}

/// Whether every part of a template is literal text.
pub open spec fn all_literal(template: Seq<PartView>) -> bool {
    forall|i: int| 0 <= i < template.len() ==> #[trigger] template[i] is Literal
}

/// The bindings that matching a call against a definition's name makes, or
/// `None` where the two do not match. They match where they have the same
/// number of parts and, position by position, a literal of the name meets an
/// equal literal of the call, and a placeholder of the name meets any part of
/// the call. The placeholder is then bound to the call's part as the
/// caller's scope resolves it. Where a name holds a placeholder twice, the
/// later binding stands.
pub open spec fn unified(
    call: Seq<PartView>,
    name: Seq<PartView>,
    args: Map<Seq<char>, Seq<char>>,
) -> Option<Map<Seq<char>, Seq<char>>>
    decreases call.len(),
{
    if call.len() != name.len() {
        None
    } else if call.len() == 0 {
        Some(Map::empty())
    } else {
        match unified(call.drop_last(), name.drop_last(), args) {
            None => None,
            Some(bindings) => match (call.last(), name.last()) {
                (PartView::Literal(given), PartView::Literal(expected)) => if given == expected {
                    Some(bindings)
                } else {
                    None
                },
                (_, PartView::Placeholder(param)) => Some(
                    bindings.insert(param, resolved(call.last(), args)),
                ),
                (PartView::Placeholder(_), PartView::Literal(_)) => None,
            },
        }
    }
}

/// Computes the signature of a definition's name and the list of its
/// parameters.
pub fn get_function_signature(name: &TextTemplate) -> (result: (String, Vec<String>))
    ensures
        result.0@ == signature(name@),
        texts(result.1@) == parameters(name@),
{
    let mut text = String::new();
    let mut params: Vec<String> = Vec::new();
    let mut i: usize = 0;
    proof {
        reveal_strlit(" ");
        reveal_strlit("[");
        reveal_strlit("]");
    }
    while i < name.parts.len()
        invariant
            i <= name.parts.len(),
            " "@ == seq![' '],
            "["@ == seq!['['],
            "]"@ == seq![']'],
            text@ == signature(name@.take(i as int)),
            texts(params@) == parameters(name@.take(i as int)),
        decreases name.parts.len() - i,
    {
        proof {
            let markers = name@.take(i as int).map_values(|part: PartView| marker(part));
            assert(name@.take(i + 1).map_values(|part: PartView| marker(part)) =~= markers.push(
                marker(name@[i as int]),
            ));
            lemma_joined_push(markers, seq![' '], marker(name@[i as int]));
            assert(name@.take(i + 1).drop_last() =~= name@.take(i as int));
        }
        if i > 0 {
            text.append(" ");
        }
        match &name.parts[i] {
            Part::Literal(literal) => {
                text.append(literal.as_str());
            },
            Part::Placeholder(param) => {
                text.append("[");
                text.append(param.as_str());
                text.append("]");
                params.push(param.clone());
            },
        }
        i += 1;
    }
    assert(name@.take(name.parts.len() as int) =~= name@);
    (text, params)
}

/// Replaces every placeholder of a template by the value that the scope
/// binds to it, or by its bare name where the scope does not bind it. It
/// never fails.
pub fn substitute_text_with_args(text_with_args: &TextTemplate, arg_map: &ArgMap) -> (result:
    Result<String, ParseError>)
    ensures
        result is Ok,
        result->Ok_0@ == substituted(text_with_args@, arg_map@),
{
    let mut text = String::new();
    let mut i: usize = 0;
    proof {
        reveal_strlit(" ");
    }
    while i < text_with_args.parts.len()
        invariant
            i <= text_with_args.parts.len(),
            " "@ == seq![' '],
            text@ == substituted(text_with_args@.take(i as int), arg_map@),
        decreases text_with_args.parts.len() - i,
    {
        proof {
            let template = text_with_args@;
            let args = arg_map@;
            let pieces = template.take(i as int).map_values(|part: PartView| resolved(part, args));
            assert(template.take(i + 1).map_values(|part: PartView| resolved(part, args))
                =~= pieces.push(resolved(template[i as int], args)));
            lemma_joined_push(pieces, seq![' '], resolved(template[i as int], args));
        }
        if i > 0 {
            text.append(" ");
        }
        match &text_with_args.parts[i] {
            Part::Literal(literal) => {
                text.append(literal.as_str());
            },
            Part::Placeholder(name) => {
                match arg_map.get(name) {
                    Some(value) => {
                        text.append(value.as_str());
                    },
                    None => {
                        text.append(name.as_str());
                    },
                }
            },
        }
        i += 1;
    }
    assert(text_with_args@.take(text_with_args.parts.len() as int) =~= text_with_args@);
    Ok(text)
}

/// Matches a call against a definition's name and returns the bindings of
/// the name's placeholders, or `None` where the two do not match.
pub fn match_function_call(
    call_name: &TextTemplate,
    func_signature: &TextTemplate,
    current_arg_map: &ArgMap,
) -> (result: Option<ArgMap>)
    ensures
        match result {
            Some(bindings) => unified(call_name@, func_signature@, current_arg_map@) == Some(
                bindings@,
            ),
            None => unified(call_name@, func_signature@, current_arg_map@) is None,
        },
{
    if call_name.parts.len() != func_signature.parts.len() {
        return None;
    }
    let mut bindings = ArgMap::new();
    let mut i: usize = 0;
    while i < call_name.parts.len()
        invariant
            i <= call_name.parts.len(),
            call_name.parts.len() == func_signature.parts.len(),
            unified(
                call_name@.take(i as int),
                func_signature@.take(i as int),
                current_arg_map@,
            ) == Some(bindings@),
        decreases call_name.parts.len() - i,
    {
        proof {
            assert(call_name@.take(i + 1).drop_last() =~= call_name@.take(i as int));
            assert(func_signature@.take(i + 1).drop_last() =~= func_signature@.take(i as int));
            if unified(
                call_name@.take(i + 1),
                func_signature@.take(i + 1),
                current_arg_map@,
            ) is None {
                lemma_unified_prefix(call_name@, func_signature@, current_arg_map@, i + 1);
            }
        }
        match (&call_name.parts[i], &func_signature.parts[i]) {
            (Part::Literal(given), Part::Literal(expected)) => {
                if *given != *expected {
                    return None;
                }
            },
            (Part::Literal(given), Part::Placeholder(param)) => {
                bindings.insert(param.clone(), given.clone());
            },
            (Part::Placeholder(inner), Part::Placeholder(param)) => {
                match current_arg_map.get(inner) {
                    Some(value) => {
                        bindings.insert(param.clone(), value.clone());
                    },
                    None => {
                        bindings.insert(param.clone(), inner.clone());
                    },
                }
            },
            (Part::Placeholder(_), Part::Literal(_)) => {
                return None;
            },
        }
        i += 1;
    }
    assert(call_name@.take(call_name.parts.len() as int) =~= call_name@);
    assert(func_signature@.take(func_signature.parts.len() as int) =~= func_signature@);
    Some(bindings)
}

/// Where the first `n` parts of a call do not match the first `n` parts of
/// a name, the whole call does not match the whole name.
pub proof fn lemma_unified_prefix(
    call: Seq<PartView>,
    name: Seq<PartView>,
    args: Map<Seq<char>, Seq<char>>,
    n: int,
)
    requires
        call.len() == name.len(),
        0 <= n <= call.len(),
        unified(call.take(n), name.take(n), args) is None,
    ensures
        unified(call, name, args) is None,
    decreases call.len(),
{
    if n < call.len() {
        assert(call.drop_last().take(n) =~= call.take(n));
        assert(name.drop_last().take(n) =~= name.take(n));
        lemma_unified_prefix(call.drop_last(), name.drop_last(), args, n);
    } else {
        assert(call.take(n) =~= call);
        assert(name.take(n) =~= name);
    }
}

} // verus!
