//! Expansion: every call is resolved against the registry and replaced by
//! one command that holds the expanded body of the definition it matches.

use crate::parser::ast::{Command as AstCommand, Program as AstProgram, Tree, forest};
use crate::parser::errors::{ErrorView, ParseError};
use crate::parser::ir::{Command, Line, LineView, PartView, Program, lines_view};
use crate::parser::registry::{EntryView, Registry, collected_lines, signatures};
use crate::parser::scope::ArgMap;
use crate::parser::text::texts;
use vstd::prelude::*;

pub use crate::parser::registry::collect_functions;
pub use crate::parser::template::{
    get_function_signature, match_function_call, substitute_text_with_args,
};
use crate::parser::template::{signature, substituted, unified};

verus! {

/// The place of the first entry of a table whose name a call matches, if
/// there is one. Where a call matches several definitions, the one
/// registered first is taken.
pub open spec fn first_match(
    table: Seq<EntryView>,
    target: Seq<PartView>,
    args: Map<Seq<char>, Seq<char>>,
) -> Option<int>
    decreases table.len(),
{
    if table.len() == 0 {
        None
    } else {
        match first_match(table.drop_last(), target, args) {
            Some(i) => Some(i),
            None => if unified(target, table.last().def.name, args) is Some {
                Some(table.len() - 1)
            } else {
                None
            },
        }
    }
}

/// How many signatures of the table are not on the call stack. Every call
/// that is expanded puts one more of them on the stack, so this bounds the
/// depth of an expansion.
pub open spec fn budget(table: Seq<EntryView>, stack: Seq<Seq<char>>) -> nat {
    signatures(table).to_set().difference(stack.to_set()).len()
}

/// What a line expands to, or the error that stops its expansion.
///
/// A definition expands to nothing. A command expands to one leaf, with its
/// text substituted in the scope. A call expands to one command: its text
/// is the call's target substituted in the caller's scope, and its children
/// are what the body of the matching definition expands to, in the
/// caller's scope overridden by the bindings of the match. A call that
/// matches no definition, or one whose definition is being expanded
/// already, is an error.
pub open spec fn expanded_line(
    line: LineView,
    table: Seq<EntryView>,
    stack: Seq<Seq<char>>,
    args: Map<Seq<char>, Seq<char>>,
) -> Result<Seq<Tree>, ErrorView>
    decreases budget(table, stack), 0nat,
{
    match line {
        LineView::FunctionDef(_) => Ok(Seq::empty()),
        LineView::Command(text) => Ok(
            seq![Tree { text: substituted(text, args), children: Seq::empty() }],
        ),
        LineView::FunctionCall(target) => match first_match(table, target, args) {
            None => Err(
                ErrorView::Resolution { call: signature(target), known: signatures(table) },
            ),
            Some(i) => {
                let entry = table[i];
                if stack.contains(entry.signature) {
                    Err(ErrorView::Recursion { signature: entry.signature })
                } else {
                    proof {
                        lemma_first_match(table, target, args);
                        lemma_budget_decreases(table, stack, i);
                    }
                    let inner = args.union_prefer_right(
                        unified(target, entry.def.name, args).unwrap(),
                    );
                    match expanded_lines(
                        entry.def.body,
                        table,
                        stack.push(entry.signature),
                        inner,
                    ) {
                        Err(error) => Err(error),
                        Ok(children) => Ok(
                            seq![Tree { text: substituted(target, args), children }],
                        ),
                    }
                }
            },
        },
    }
}

/// What lines expand to, one after the other, or the error of the first
/// line that fails.
pub open spec fn expanded_lines(
    lines: Seq<LineView>,
    table: Seq<EntryView>,
    stack: Seq<Seq<char>>,
    args: Map<Seq<char>, Seq<char>>,
) -> Result<Seq<Tree>, ErrorView>
    decreases budget(table, stack), lines.len() + 1,
{
    if lines.len() == 0 {
        Ok(Seq::empty())
    } else {
        match expanded_lines(lines.drop_last(), table, stack, args) {
            Err(error) => Err(error),
            Ok(front) => match expanded_line(lines.last(), table, stack, args) {
                Err(error) => Err(error),
                Ok(back) => Ok(front + back),
            },
        }
    }
}

/// What a program resolves to: its definitions are collected into one
/// table, and then its lines are expanded against that table, with an empty
/// call stack and in the empty scope.
pub open spec fn resolved_program(lines: Seq<LineView>) -> Result<Seq<Tree>, ErrorView> {
    expanded_lines(
        lines,
        collected_lines(lines, Seq::empty()),
        Seq::empty(),
        Map::empty(),
    )
}

/// What `first_match` finds: the first place whose name the call matches.
pub proof fn lemma_first_match(
    table: Seq<EntryView>,
    target: Seq<PartView>,
    args: Map<Seq<char>, Seq<char>>,
)
    ensures
        match first_match(table, target, args) {
            Some(i) => 0 <= i < table.len() && unified(target, table[i].def.name, args) is Some
                && forall|k: int|
                0 <= k < i ==> unified(target, (#[trigger] table[k]).def.name, args) is None,
            None => forall|k: int|
                0 <= k < table.len() ==> unified(target, (#[trigger] table[k]).def.name, args)
                    is None,
        },
    decreases table.len(),
{
    if table.len() > 0 {
        lemma_first_match(table.drop_last(), target, args);
        assert(forall|k: int|
            0 <= k < table.len() - 1 ==> table.drop_last()[k] == #[trigger] table[k]);
    }
}

/// Putting a signature of the table on the stack that was not on it leaves
/// fewer signatures off the stack.
pub proof fn lemma_budget_decreases(table: Seq<EntryView>, stack: Seq<Seq<char>>, i: int)
    requires
        0 <= i < table.len(),
        !stack.contains(table[i].signature),
    ensures
        budget(table, stack.push(table[i].signature)) < budget(table, stack),
{
    let name = table[i].signature;
    let all = signatures(table).to_set();
    let free = all.difference(stack.to_set());
    vstd::seq_lib::seq_to_set_is_finite(signatures(table));
    assert(signatures(table)[i] == name);
    assert forall|other: Seq<char>| stack.push(name).to_set().contains(other) <==> (other == name
        || stack.to_set().contains(other)) by {
        if other == name {
            assert(stack.push(name)[stack.len() as int] == name);
        }
        if stack.to_set().contains(other) {
            let k = choose|k: int| 0 <= k < stack.len() && stack[k] == other;
            assert(stack.push(name)[k] == other);
        }
    }
    assert(all.difference(stack.push(name).to_set()) =~= free.remove(name));
}

/// Whether a signature is on the call stack.
fn on_stack(call_stack: &Vec<String>, signature: &String) -> (found: bool)
    ensures
        found == texts(call_stack@).contains(signature@),
{
    let mut i: usize = 0;
    while i < call_stack.len()
        invariant
            i <= call_stack.len(),
            forall|k: int| 0 <= k < i ==> (#[trigger] texts(call_stack@)[k]) != signature@,
        decreases call_stack.len() - i,
    {
        if call_stack[i] == *signature {
            assert(texts(call_stack@)[i as int] == signature@);
            return true;
        }
        i += 1;
    }
    false
}

/// Resolves a command: one leaf whose text is the command's text
/// substituted in the scope. It never fails.
pub fn process_command_with_args(cmd: &Command, arg_map: &ArgMap) -> (result: Result<
    AstCommand,
    ParseError,
>)
    ensures
        result is Ok,
        result->Ok_0@ == (Tree { text: substituted(cmd@, arg_map@), children: Seq::empty() }),
{
    match substitute_text_with_args(&cmd.text, arg_map) {
        Ok(text) => {
            let leaf = AstCommand { text, children: Vec::new() };
            assert(leaf@.children =~= Seq::empty());
            Ok(leaf)
        },
        Err(error) => Err(error),
    }
}

/// Expands one line against the registry, in a scope and under the call
/// stack of the definitions that are being expanded. The call stack is left
/// as it was found, whether the expansion succeeds or not; on failure
/// nothing of the expansion is returned.
pub fn process_line_with_args(
    line: &Line,
    functions: &Registry,
    call_stack: &mut Vec<String>,
    arg_map: &ArgMap,
) -> (result: Result<Vec<AstCommand>, ParseError>)
    ensures
        final(call_stack)@ == old(call_stack)@,
        match expanded_line(line@, functions@, texts(old(call_stack)@), arg_map@) {
            Ok(trees) => result is Ok && forest(result->Ok_0@) == trees,
            Err(error) => result is Err && result->Err_0@ == error,
        },
    decreases budget(functions@, texts(old(call_stack)@)), 0nat,
{
    match line {
        Line::FunctionDef(_) => {
            let nothing: Vec<AstCommand> = Vec::new();
            Ok(nothing)
        },
        Line::Command(cmd) => {
            match process_command_with_args(cmd, arg_map) {
                Ok(leaf) => {
                    let mut commands: Vec<AstCommand> = Vec::new();
                    commands.push(leaf);
                    Ok(commands)
                },
                Err(error) => Err(error),
            }
        },
        Line::FunctionCall(call) => {
            let ghost target = call@;
            let ghost table = functions@;
            let ghost stack = texts(call_stack@);
            let mut i: usize = 0;
            while i < functions.entries.len()
                invariant
                    i <= functions.entries.len(),
                    target == call@,
                    line@ == LineView::FunctionCall(target),
                    table == functions@,
                    call_stack@ == old(call_stack)@,
                    stack == texts(call_stack@),
                    forall|k: int|
                        0 <= k < i ==> unified(target, (#[trigger] table[k]).def.name, arg_map@)
                            is None,
                decreases functions.entries.len() - i,
            {
                let entry = &functions.entries[i];
                assert(table[i as int] == entry@);
                match match_function_call(&call.target, &entry.def.name, arg_map) {
                    Some(bindings) => {
                        proof {
                            lemma_first_match(table, target, arg_map@);
                        }
                        if on_stack(call_stack, &entry.signature) {
                            return Err(
                                ParseError::Recursion { signature: entry.signature.clone() },
                            );
                        }
                        let inner = arg_map.extended(&bindings);
                        let text = match substitute_text_with_args(&call.target, arg_map) {
                            Ok(text) => text,
                            Err(error) => {
                                return Err(error);
                            },
                        };
                        proof {
                            lemma_budget_decreases(table, stack, i as int);
                            assert(texts(call_stack@.push(entry.signature)) =~= stack.push(
                                entry.signature@,
                            ));
                        }
                        call_stack.push(entry.signature.clone());
                        let expanded = process_lines(&entry.def.body, functions, call_stack, &inner);
                        call_stack.pop();
                        return match expanded {
                            Ok(children) => {
                                let parent = AstCommand { text, children };
                                let mut commands: Vec<AstCommand> = Vec::new();
                                commands.push(parent);
                                Ok(commands)
                            },
                            Err(error) => Err(error),
                        };
                    },
                    None => {},
                }
                i += 1;
            }
            proof {
                lemma_first_match(table, target, arg_map@);
            }
            let (call_signature, _) = get_function_signature(&call.target);
            Err(ParseError::Resolution { call: call_signature, known: functions.signatures() })
        },
    }
}

/// Expands lines one after the other and returns what they expand to, in
/// order. It stops at the first line that fails, with the error of that
/// line.
pub fn process_lines(
    lines: &Vec<Line>,
    functions: &Registry,
    call_stack: &mut Vec<String>,
    arg_map: &ArgMap,
) -> (result: Result<Vec<AstCommand>, ParseError>)
    ensures
        final(call_stack)@ == old(call_stack)@,
        match expanded_lines(lines_view(lines@), functions@, texts(old(call_stack)@), arg_map@) {
            Ok(trees) => result is Ok && forest(result->Ok_0@) == trees,
            Err(error) => result is Err && result->Err_0@ == error,
        },
    decreases budget(functions@, texts(old(call_stack)@)), lines.len() + 1,
{
    let ghost all = lines_view(lines@);
    let ghost stack = texts(call_stack@);
    let mut commands: Vec<AstCommand> = Vec::new();
    let mut i: usize = 0;
    assert(forest(commands@) =~= Seq::empty());
    while i < lines.len()
        invariant
            i <= lines.len(),
            all == lines_view(lines@),
            call_stack@ == old(call_stack)@,
            stack == texts(call_stack@),
            expanded_lines(all.take(i as int), functions@, stack, arg_map@) == Ok::<
                Seq<Tree>,
                ErrorView,
            >(forest(commands@)),
        decreases lines.len() - i,
    {
        proof {
            assert(all.take(i + 1).drop_last() =~= all.take(i as int));
        }
        match process_line_with_args(&lines[i], functions, call_stack, arg_map) {
            Ok(mut more) => {
                let ghost front = forest(commands@);
                let ghost back = forest(more@);
                commands.append(&mut more);
                assert(forest(commands@) =~= front + back);
            },
            Err(error) => {
                proof {
                    lemma_expanded_lines_fail(all, functions@, stack, arg_map@, i + 1);
                }
                return Err(error);
            },
        }
        i += 1;
    }
    assert(all.take(lines.len() as int) =~= all);
    Ok(commands)
}

/// Where the first `n` lines fail, all the lines fail with the same error.
pub proof fn lemma_expanded_lines_fail(
    lines: Seq<LineView>,
    table: Seq<EntryView>,
    stack: Seq<Seq<char>>,
    args: Map<Seq<char>, Seq<char>>,
    n: int,
)
    requires
        0 <= n <= lines.len(),
        expanded_lines(lines.take(n), table, stack, args) is Err,
    ensures
        expanded_lines(lines, table, stack, args) == expanded_lines(
            lines.take(n),
            table,
            stack,
            args,
        ),
    decreases lines.len(),
{
    if n < lines.len() {
        assert(lines.drop_last().take(n) =~= lines.take(n));
        lemma_expanded_lines_fail(lines.drop_last(), table, stack, args, n);
    } else {
        assert(lines.take(n) =~= lines);
    }
}

/// Resolves a program: collects every definition into one registry, then
/// expands the top-level lines in order. It returns the resolved tree, or
/// the error of the first line that fails, and then nothing of the tree.
pub fn ir_to_ast(ir_program: &Program) -> (result: Result<AstProgram, ParseError>)
    ensures
        match resolved_program(ir_program@) {
            Ok(trees) => result is Ok && result->Ok_0@ == trees,
            Err(error) => result is Err && result->Err_0@ == error,
        },
{
    let mut functions = Registry::new();
    let mut i: usize = 0;
    let ghost all = ir_program@;
    while i < ir_program.lines.len()
        invariant
            i <= ir_program.lines.len(),
            all == lines_view(ir_program.lines@),
            functions@ == collected_lines(all.take(i as int), Seq::empty()),
        decreases ir_program.lines.len() - i,
    {
        proof {
            assert(all.take(i + 1).drop_last() =~= all.take(i as int));
        }
        let _ = collect_functions(&ir_program.lines[i], &mut functions);
        i += 1;
    }
    assert(all.take(ir_program.lines.len() as int) =~= all);
    let mut call_stack: Vec<String> = Vec::new();
    let scope = ArgMap::new();
    assert(texts(call_stack@) =~= Seq::<Seq<char>>::empty());
    match process_lines(&ir_program.lines, &functions, &mut call_stack, &scope) {
        Ok(commands) => Ok(AstProgram { commands }),
        Err(error) => Err(error),
    }
}

} // verus!
