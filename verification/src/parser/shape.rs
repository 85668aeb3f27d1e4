//! The grammar and the builder agree: every parse tree that the grammar
//! makes has the shape that the builder reads, so a source text that
//! follows the grammar is never refused for its shape.

use crate::parser::lang::{
    PairView, Rule, built_body, built_function_def, built_head, built_items, built_line,
    built_part, built_parts, built_program, built_template, built_top,
};
use crate::parser::syntax::{
    branch, leaf, line_from, line_node, lines_from, parsed, parts_from, remaining, slot_rule,
    template_node,
};
use crate::parser::tokens::{TokenKind, TokenView};
use vstd::prelude::*;

verus! {

/// Whether every node stands for a part.
pub open spec fn sound_parts(pairs: Seq<PairView>) -> bool {
    forall|i: int| 0 <= i < pairs.len() ==> built_part(#[trigger] pairs[i]) is Ok
}

/// Whether every node is a line node that stands for lines.
pub open spec fn sound_lines(pairs: Seq<PairView>) -> bool {
    forall|i: int|
        0 <= i < pairs.len() ==> (#[trigger] pairs[i]).rule == Rule::Line && built_line(pairs[i])
            is Ok
}

/// The parts of a template that the grammar reads all stand for parts.
pub proof fn lemma_parts_are_sound(
    tokens: Seq<TokenView>,
    pos: nat,
    params: bool,
    so_far: Seq<PairView>,
)
    requires
        sound_parts(so_far),
    ensures
        match parts_from(tokens, pos, params, so_far) {
            Ok((parts, _)) => sound_parts(parts),
            Err(error) => error is Syntax,
        },
    decreases remaining(tokens.len(), pos),
{
    if pos < tokens.len() {
        let token = tokens[pos as int];
        match token.kind {
            TokenKind::Word => {
                lemma_parts_are_sound(
                    tokens,
                    pos + 1,
                    params,
                    so_far.push(leaf(Rule::Text, token)),
                );
            },
            TokenKind::BracketOpen => {
                if pos + 2 < tokens.len() && tokens[pos as int + 1].kind == TokenKind::Word
                    && tokens[pos as int + 2].kind == TokenKind::BracketClose {
                    let slot = branch(
                        slot_rule(params),
                        token.line,
                        token.column,
                        seq![leaf(Rule::Text, tokens[pos as int + 1])],
                    );
                    lemma_parts_are_sound(tokens, pos + 3, params, so_far.push(slot));
                }
            },
            _ => {},
        }
    }
}

/// Nodes that all stand for parts stand for a template.
pub proof fn lemma_sound_parts_build(pairs: Seq<PairView>)
    requires
        sound_parts(pairs),
    ensures
        built_parts(pairs) is Ok,
    decreases pairs.len(),
{
    if pairs.len() > 0 {
        lemma_sound_parts_build(pairs.drop_last());
    }
}

/// Line nodes that all stand for lines make a body, whatever the first
/// node is.
pub proof fn lemma_sound_lines_build_body(nodes: Seq<PairView>)
    requires
        forall|i: int| 1 <= i < nodes.len() ==> built_line(#[trigger] nodes[i]) is Ok,
    ensures
        built_body(nodes) is Ok,
    decreases nodes.len(),
{
    if nodes.len() > 1 {
        lemma_sound_lines_build_body(nodes.drop_last());
    }
}

/// Line nodes that all stand for lines make a program.
pub proof fn lemma_sound_lines_build_top(nodes: Seq<PairView>)
    requires
        sound_lines(nodes),
    ensures
        built_top(nodes) is Ok,
        built_top(nodes)->Ok_0.1 == false,
    decreases nodes.len(),
{
    if nodes.len() > 0 {
        lemma_sound_lines_build_top(nodes.drop_last());
    }
}

/// A line node that holds one call or one command with a sound template
/// stands for a line.
proof fn lemma_simple_line_is_sound(rule: Rule, line: nat, column: nat, parts: Seq<PairView>)
    requires
        rule == Rule::FunctionCall || rule == Rule::Command,
        sound_parts(parts),
    ensures
        built_line(line_node(branch(rule, line, column, seq![template_node(parts, false)]))) is Ok,
{
    lemma_sound_parts_build(parts);
}

/// The line that the grammar reads stands for lines.
pub proof fn lemma_line_is_sound(tokens: Seq<TokenView>, pos: nat)
    requires
        pos < tokens.len(),
    ensures
        match line_from(tokens, pos) {
            Ok((line, _)) => line.rule == Rule::Line && built_line(line) is Ok,
            Err(error) => error is Syntax,
        },
    decreases remaining(tokens.len(), pos), 0nat,
{
    let first = tokens[pos as int];
    let nothing = Seq::<PairView>::empty();
    if first.kind == TokenKind::Word && first.text == "fn"@ {
        lemma_parts_are_sound(tokens, pos + 1, true, nothing);
        match parts_from(tokens, pos + 1, true, nothing) {
            Err(_) => {},
            Ok((parts, end)) => {
                if parts.len() > 0 && end < tokens.len() && tokens[end as int].kind
                    == TokenKind::BraceOpen {
                    crate::parser::syntax::lemma_parts_from_end(tokens, pos + 1, true, nothing);
                    lemma_lines_are_sound(tokens, end + 1, Some(first), nothing);
                    match lines_from(tokens, end + 1, Some(first), nothing) {
                        Err(_) => {},
                        Ok((body, _)) => {
                            lemma_sound_parts_build(parts);
                            lemma_sound_lines_build_body(seq![template_node(parts, true)] + body);
                        },
                    }
                }
            },
        }
    } else {
        let call = first.kind == TokenKind::Word && first.text == "call"@;
        let start = if call {
            pos + 1
        } else {
            pos
        };
        lemma_parts_are_sound(tokens, start, false, nothing);
        match parts_from(tokens, start, false, nothing) {
            Err(_) => {},
            Ok((parts, _)) => {
                lemma_simple_line_is_sound(Rule::FunctionCall, first.line, first.column, parts);
                lemma_simple_line_is_sound(Rule::Command, first.line, first.column, parts);
            },
        }
    }
}

/// The lines that the grammar reads all stand for lines.
pub proof fn lemma_lines_are_sound(
    tokens: Seq<TokenView>,
    pos: nat,
    opener: Option<TokenView>,
    so_far: Seq<PairView>,
)
    requires
        sound_lines(so_far),
    ensures
        match lines_from(tokens, pos, opener, so_far) {
            Ok((lines, _)) => sound_lines(lines),
            Err(error) => error is Syntax,
        },
    decreases remaining(tokens.len(), pos), 1nat,
{
    if pos < tokens.len() {
        match tokens[pos as int].kind {
            TokenKind::Newline => {
                lemma_lines_are_sound(tokens, pos + 1, opener, so_far);
            },
            TokenKind::BraceClose => {},
            _ => {
                lemma_line_is_sound(tokens, pos);
                match line_from(tokens, pos) {
                    Err(_) => {},
                    Ok((line, extra)) => {
                        lemma_lines_are_sound(
                            tokens,
                            pos + 1 + extra,
                            opener,
                            so_far.push(line),
                        );
                    },
                }
            },
        }
    }
}

/// The grammar and the builder agree: the builder reads every tree that
/// the grammar makes, and where the grammar makes none its error is a
/// syntax error. So a source text is never refused for the shape of its
/// parse tree.
pub proof fn lemma_grammar_trees_are_built(tokens: Seq<TokenView>)
    ensures
        match parsed(tokens) {
            Ok(tree) => built_program(tree) is Ok,
            Err(error) => error is Syntax,
        },
{
    let nothing = Seq::<PairView>::empty();
    lemma_lines_are_sound(tokens, 0, None, nothing);
    match lines_from(tokens, 0, None, nothing) {
        Err(_) => {},
        Ok((lines, _)) => {
            lemma_sound_lines_build_top(lines);
        },
    }
}

} // verus!
