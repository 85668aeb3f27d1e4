//! What holds of the front end as a whole, stated over the functions that
//! say what its stages compute.

use crate::parser::ast::Tree;
use crate::parser::errors::ErrorView;
use crate::parser::ir::{FunctionDefView, LineView, PartView};
use crate::parser::compiled_source;
use crate::parser::lang::built_program;
use crate::parser::passes::{
    budget, expanded_line, expanded_lines, first_match, lemma_budget_decreases,
    lemma_first_match, resolved_program,
};
use crate::parser::shape::lemma_grammar_trees_are_built;
use crate::parser::syntax::parsed;
use crate::parser::tokens::lexed;
use crate::parser::registry::{
    EntryView, collected_line, collected_lines, entry_of, lemma_position, position, registered,
    signatures,
};
use crate::parser::template::{
    all_literal, literal_text, resolved, signature, substituted, unified,
};
use vstd::prelude::*;

verus! {

/// A template without placeholders becomes the same text in every scope:
/// its literals, separated by single spaces.
pub proof fn lemma_literal_template_ignores_scope(
    template: Seq<PartView>,
    args: Map<Seq<char>, Seq<char>>,
)
    requires
        all_literal(template),
    ensures
        substituted(template, args) == literal_text(template),
{
    assert(template.map_values(|part: PartView| resolved(part, args)) =~= template.map_values(
        |part: PartView| part->Literal_0,
    ));
}

/// A placeholder that the scope does not bind stands for its own bare
/// name: the text is the same as if the name were written as a literal.
pub proof fn lemma_unbound_placeholder_keeps_its_name(
    template: Seq<PartView>,
    args: Map<Seq<char>, Seq<char>>,
    i: int,
)
    requires
        0 <= i < template.len(),
        template[i] is Placeholder,
        !args.contains_key(template[i]->Placeholder_0),
    ensures
        substituted(template, args) == substituted(
            template.update(i, PartView::Literal(template[i]->Placeholder_0)),
            args,
        ),
{
    let named = template.update(i, PartView::Literal(template[i]->Placeholder_0));
    assert(template.map_values(|part: PartView| resolved(part, args)) =~= named.map_values(
        |part: PartView| resolved(part, args),
    ));
}

/// A call that matches no registered definition fails with a resolution
/// error that lists every registered signature, in the order of the
/// registry; the list is empty where nothing is registered.
pub proof fn lemma_unmatched_call_lists_all_signatures(
    target: Seq<PartView>,
    table: Seq<EntryView>,
    stack: Seq<Seq<char>>,
    args: Map<Seq<char>, Seq<char>>,
)
    requires
        forall|i: int| 0 <= i < table.len() ==> unified(target, (#[trigger] table[i]).def.name, args) is None,
    ensures
        expanded_line(LineView::FunctionCall(target), table, stack, args) == Err::<
            Seq<Tree>,
            ErrorView,
        >(ErrorView::Resolution { call: signature(target), known: signatures(table) }),
{
    lemma_first_match(table, target, args);
}

/// A call of a definition that is being expanded fails with a recursion
/// error that names the definition's signature.
pub proof fn lemma_call_on_stack_is_refused(
    target: Seq<PartView>,
    table: Seq<EntryView>,
    stack: Seq<Seq<char>>,
    args: Map<Seq<char>, Seq<char>>,
    i: int,
)
    requires
        first_match(table, target, args) == Some(i),
        stack.contains(table[i].signature),
    ensures
        expanded_line(LineView::FunctionCall(target), table, stack, args) == Err::<
            Seq<Tree>,
            ErrorView,
        >(ErrorView::Recursion { signature: table[i].signature }),
{
}

/// A template of literals matches itself, and binds nothing.
pub proof fn lemma_literal_template_matches_itself(
    name: Seq<PartView>,
    args: Map<Seq<char>, Seq<char>>,
)
    requires
        all_literal(name),
    ensures
        unified(name, name, args) == Some(Map::<Seq<char>, Seq<char>>::empty()),
    decreases name.len(),
{
    if name.len() > 0 {
        assert(all_literal(name.drop_last()));
        lemma_literal_template_matches_itself(name.drop_last(), args);
    }
}

/// A function without parameters that calls itself cannot be expanded: the
/// program that defines it and then calls it fails with a recursion error
/// that names the function, whatever its name and whatever else its body
/// holds before the call.
pub proof fn lemma_self_call_is_refused(name: Seq<PartView>, before: Seq<LineView>)
    requires
        all_literal(name),
        forall|i: int| 0 <= i < before.len() ==> (#[trigger] before[i]) is Command,
    ensures
        resolved_program(
            seq![
                LineView::FunctionDef(
                    FunctionDefView { name, body: before.push(LineView::FunctionCall(name)) },
                ),
                LineView::FunctionCall(name),
            ],
        ) == Err::<Seq<Tree>, ErrorView>(ErrorView::Recursion { signature: signature(name) }),
{
    let body = before.push(LineView::FunctionCall(name));
    let def = FunctionDefView { name, body };
    let lines = seq![LineView::FunctionDef(def), LineView::FunctionCall(name)];
    let nothing = Seq::<EntryView>::empty();
    let table = seq![entry_of(def)];
    let scope = Map::<Seq<char>, Seq<char>>::empty();
    let stack = seq![signature(name)];
    // The registry holds the one definition.
    assert(lines.drop_last().drop_last() =~= Seq::<LineView>::empty());
    lemma_collected_commands(before, table);
    assert(body.drop_last() =~= before);
    assert(collected_line(body.last(), table) == table);
    assert(collected_lines(Seq::<LineView>::empty(), nothing) == nothing);
    assert(collected_line(LineView::FunctionDef(def), nothing) == table);
    assert(collected_lines(lines.drop_last(), nothing) == table);
    // Every call of the name matches it.
    lemma_literal_template_matches_itself(name, scope);
    assert(table.drop_last() =~= nothing);
    assert(first_match(nothing, name, scope) is None);
    let inner = scope.union_prefer_right(Map::<Seq<char>, Seq<char>>::empty());
    assert(inner =~= scope);
    // Inside the body the name is on the stack.
    assert(stack[0] == signature(name));
    lemma_expanded_commands(before, table, stack, scope);
    assert(expanded_line(LineView::FunctionCall(name), table, stack, scope) is Err);
    let top = Seq::<Seq<char>>::empty();
    assert(expanded_lines(Seq::<LineView>::empty(), table, top, scope) is Ok);
    assert(expanded_line(LineView::FunctionDef(def), table, top, scope) is Ok);
    assert(expanded_lines(lines.drop_last(), table, top, scope) is Ok);
    assert(expanded_line(LineView::FunctionCall(name), table, top, scope) == Err::<
        Seq<Tree>,
        ErrorView,
    >(ErrorView::Recursion { signature: signature(name) }));
}

/// Commands register nothing.
pub proof fn lemma_collected_commands(lines: Seq<LineView>, table: Seq<EntryView>)
    requires
        forall|i: int| 0 <= i < lines.len() ==> (#[trigger] lines[i]) is Command,
    ensures
        collected_lines(lines, table) == table,
    decreases lines.len(),
{
    if lines.len() > 0 {
        lemma_collected_commands(lines.drop_last(), table);
        assert(collected_line(lines.last(), table) == table);
    }
}

/// Commands always expand.
pub proof fn lemma_expanded_commands(
    lines: Seq<LineView>,
    table: Seq<EntryView>,
    stack: Seq<Seq<char>>,
    args: Map<Seq<char>, Seq<char>>,
)
    requires
        forall|i: int| 0 <= i < lines.len() ==> (#[trigger] lines[i]) is Command,
    ensures
        expanded_lines(lines, table, stack, args) is Ok,
    decreases lines.len(),
{
    if lines.len() > 0 {
        lemma_expanded_commands(lines.drop_last(), table, stack, args);
        assert(expanded_line(lines.last(), table, stack, args) is Ok);
    }
}

/// Whether a table holds an entry with a signature.
pub open spec fn registers(table: Seq<EntryView>, signature: Seq<char>) -> bool {
    position(table, signature) is Some
}

/// Whether a line is the given definition, or holds it in its body at any
/// depth.
pub open spec fn defines(line: LineView, def: FunctionDefView) -> bool
    decreases line,
{
    match line {
        LineView::FunctionDef(own) => own == def || defined_in(own.body, def),
        _ => false,
    }
}

/// Whether one of the lines is the given definition, or holds it in its
/// body at any depth.
pub open spec fn defined_in(lines: Seq<LineView>, def: FunctionDefView) -> bool
    decreases lines,
{
    lines.len() > 0 && (defined_in(lines.drop_last(), def) || defines(lines.last(), def))
}

/// Registering an entry registers its signature and keeps every signature
/// that was registered.
pub proof fn lemma_registered_keeps(table: Seq<EntryView>, entry: EntryView, kept: Seq<char>)
    ensures
        registers(registered(table, entry), entry.signature),
        registers(table, kept) ==> registers(registered(table, entry), kept),
{
    let after = registered(table, entry);
    lemma_position(table, entry.signature);
    lemma_position(table, kept);
    lemma_position(after, entry.signature);
    lemma_position(after, kept);
    match position(table, entry.signature) {
        Some(i) => {
            assert(after[i].signature == entry.signature);
            if registers(table, kept) {
                let k = position(table, kept)->Some_0;
                assert(after[k].signature == kept);
            }
        },
        None => {
            if registers(table, kept) {
                let k = position(table, kept)->Some_0;
                assert(after[k].signature == kept);
            }
        },
    }
}

/// The definition registered last stands: after an entry is registered,
/// the table holds it at the place of its signature.
pub proof fn lemma_last_registered_stands(table: Seq<EntryView>, entry: EntryView)
    ensures
        position(registered(table, entry), entry.signature) is Some,
        registered(table, entry)[position(registered(table, entry), entry.signature)->Some_0]
            == entry,
{
    let after = registered(table, entry);
    lemma_position(table, entry.signature);
    lemma_position(after, entry.signature);
    if let Some(i) = position(table, entry.signature) {
        assert(after[i] == entry);
    }
}

/// A table in which no signature stands twice stays so when an entry is
/// registered.
pub proof fn lemma_signatures_stay_distinct(table: Seq<EntryView>, entry: EntryView)
    requires
        signatures(table).no_duplicates(),
    ensures
        signatures(registered(table, entry)).no_duplicates(),
{
    let after = registered(table, entry);
    lemma_position(table, entry.signature);
    assert forall|a: int, b: int|
        0 <= a < signatures(after).len() && 0 <= b < signatures(after).len() && a != b implies signatures(
        after,
    )[a] != signatures(after)[b] by {
        match position(table, entry.signature) {
            Some(i) => {
                assert(signatures(after)[a] == signatures(table)[a]);
                assert(signatures(after)[b] == signatures(table)[b]);
            },
            None => {
                if a < table.len() {
                    assert(signatures(after)[a] == signatures(table)[a]);
                }
                if b < table.len() {
                    assert(signatures(after)[b] == signatures(table)[b]);
                }
            },
        }
    }
}

/// Collecting a line keeps every signature that was registered.
pub proof fn lemma_collected_line_keeps(line: LineView, table: Seq<EntryView>, kept: Seq<char>)
    requires
        registers(table, kept),
    ensures
        registers(collected_line(line, table), kept),
    decreases line,
{
    match line {
        LineView::FunctionDef(def) => {
            lemma_registered_keeps(table, entry_of(def), kept);
            lemma_collected_lines_keep(def.body, registered(table, entry_of(def)), kept);
        },
        _ => {},
    }
}

/// Collecting lines keeps every signature that was registered.
pub proof fn lemma_collected_lines_keep(lines: Seq<LineView>, table: Seq<EntryView>, kept: Seq<char>)
    requires
        registers(table, kept),
    ensures
        registers(collected_lines(lines, table), kept),
    decreases lines,
{
    if lines.len() > 0 {
        lemma_collected_lines_keep(lines.drop_last(), table, kept);
        lemma_collected_line_keeps(lines.last(), collected_lines(lines.drop_last(), table), kept);
    }
}

/// A line that holds a definition, at any depth, registers its signature.
pub proof fn lemma_line_registers_nested(line: LineView, table: Seq<EntryView>, def: FunctionDefView)
    requires
        defines(line, def),
    ensures
        registers(collected_line(line, table), signature(def.name)),
    decreases line,
{
    match line {
        LineView::FunctionDef(own) => {
            let first = registered(table, entry_of(own));
            if own == def {
                lemma_registered_keeps(table, entry_of(own), signature(def.name));
                lemma_collected_lines_keep(own.body, first, signature(def.name));
            } else {
                lemma_registry_is_flat(own.body, first, def);
            }
        },
        _ => {},
    }
}

/// The registry is flat: a definition that stands anywhere in a program,
/// at the top or nested in bodies at any depth, is registered for the
/// whole program under its signature.
pub proof fn lemma_registry_is_flat(lines: Seq<LineView>, table: Seq<EntryView>, def: FunctionDefView)
    requires
        defined_in(lines, def),
    ensures
        registers(collected_lines(lines, table), signature(def.name)),
    decreases lines,
{
    let front = collected_lines(lines.drop_last(), table);
    if defines(lines.last(), def) {
        lemma_line_registers_nested(lines.last(), front, def);
    } else {
        lemma_registry_is_flat(lines.drop_last(), table, def);
        lemma_collected_line_keeps(lines.last(), front, signature(def.name));
    }
}

/// Expanding a line fails only for a call that matches no definition, or
/// for a call of a definition that is being expanded.
pub proof fn lemma_line_fails_for_calls_only(
    line: LineView,
    table: Seq<EntryView>,
    stack: Seq<Seq<char>>,
    args: Map<Seq<char>, Seq<char>>,
)
    ensures
        match expanded_line(line, table, stack, args) {
            Ok(_) => true,
            Err(error) => error is Resolution || error is Recursion,
        },
    decreases budget(table, stack), 0nat,
{
    match line {
        LineView::FunctionCall(target) => {
            match first_match(table, target, args) {
                Some(i) => {
                    if !stack.contains(table[i].signature) {
                        lemma_first_match(table, target, args);
                        lemma_budget_decreases(table, stack, i);
                        lemma_lines_fail_for_calls_only(
                            table[i].def.body,
                            table,
                            stack.push(table[i].signature),
                            args.union_prefer_right(
                                unified(target, table[i].def.name, args).unwrap(),
                            ),
                        );
                    }
                },
                None => {},
            }
        },
        _ => {},
    }
}

/// Expanding lines fails only for a call that matches no definition, or
/// for a call of a definition that is being expanded.
pub proof fn lemma_lines_fail_for_calls_only(
    lines: Seq<LineView>,
    table: Seq<EntryView>,
    stack: Seq<Seq<char>>,
    args: Map<Seq<char>, Seq<char>>,
)
    ensures
        match expanded_lines(lines, table, stack, args) {
            Ok(_) => true,
            Err(error) => error is Resolution || error is Recursion,
        },
    decreases budget(table, stack), lines.len() + 1,
{
    if lines.len() > 0 {
        lemma_lines_fail_for_calls_only(lines.drop_last(), table, stack, args);
        lemma_line_fails_for_calls_only(lines.last(), table, stack, args);
    }
}

/// A source text fails to compile in three ways only: it does not follow
/// the grammar, it calls what is not defined, or it calls a function from
/// within itself. The shape of its parse tree is never at fault.
pub proof fn lemma_source_fails_in_three_ways(input: Seq<char>)
    ensures
        match compiled_source(input) {
            Ok(_) => true,
            Err(error) => error is Syntax || error is Resolution || error is Recursion,
        },
{
    let tokens = lexed(input, 0);
    lemma_grammar_trees_are_built(tokens);
    match parsed(tokens) {
        Ok(tree) => {
            let lines = built_program(tree)->Ok_0;
            lemma_lines_fail_for_calls_only(
                lines,
                collected_lines(lines, Seq::empty()),
                Seq::empty(),
                Map::empty(),
            );
        },
        Err(_) => {},
    }
}

} // verus!
