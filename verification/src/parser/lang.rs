//! The builder of the intermediate representation: it turns a parse tree
//! into the lines of a program, and checks nothing but the tree's shape.

use crate::parser::errors::{ErrorView, ParseError};
use crate::parser::ir::{
    Command, FunctionCall, FunctionDef, FunctionDefView, Line, LineView, Part, PartView, Program,
    TextTemplate, lines_view,
};
use crate::parser::passes::{ir_to_ast, resolved_program};
use crate::parser::structs::KlangProgram;
use crate::parser::ast::Tree;
use vstd::prelude::*;

verus! {

/// The rules of the grammar. Every node of a parse tree was made by one.
#[derive(Clone, Copy, Debug, PartialEq, Eq, Structural)]
pub enum Rule {
    Program,
    Line,
    FunctionDef,
    FunctionCall,
    Command,
    EmptyLine,
    TextWithFunctionParams,
    TextWithFunctionArgs,
    Text,
    FunctionParam,
    FunctionArg,
    Eoi,
}

/// The mathematical value of a node of a parse tree.
pub struct PairView {
    pub rule: Rule,
    pub text: Seq<char>,
    pub line: nat,
    pub column: nat,
    pub children: Seq<PairView>,
}

/// A node of a parse tree: the rule that made it, the source text of a
/// leaf, the line and column at which it starts, and the nodes inside it.
#[derive(Debug)]
pub struct Pair {
    pub rule: Rule,
    pub text: String,
    pub line: usize,
    pub column: usize,
    pub children: Vec<Pair>,
}

/// The values of a sequence of nodes, element by element.
pub open spec fn pairs_view(pairs: Seq<Pair>) -> Seq<PairView>
    decreases pairs,
{
    Seq::new(
        pairs.len(),
        |i: int|
            if 0 <= i < pairs.len() {
                pairs[i].view()
            } else {
                arbitrary()
            },
    )
}

impl View for Pair {
    type V = PairView;

    open spec fn view(&self) -> PairView
        decreases self,
    {
        PairView {
            rule: self.rule,
            text: self.text@,
            line: self.line as nat,
            column: self.column as nat,
            children: pairs_view(self.children@),
        }
    }
}

/// The value of a node, field by field.
pub proof fn lemma_pair_view(pair: &Pair)
    ensures
        pair@.rule == pair.rule,
        pair@.text == pair.text@,
        pair@.line == pair.line,
        pair@.column == pair.column,
        pair@.children == pairs_view(pair.children@),
        pair@.children.len() == pair.children.len(),
        forall|i: int| 0 <= i < pair.children.len() ==> pair@.children[i] == pair.children[i]@,
{
    assert(pairs_view(pair.children@).len() == pair.children.len());
}

/// The name of a rule, as the grammar writes it.
pub open spec fn rule_name(rule: Rule) -> Seq<char> {
    match rule {
        Rule::Program => "program"@,
        Rule::Line => "line"@,
        Rule::FunctionDef => "function_def"@,
        Rule::FunctionCall => "function_call"@,
        Rule::Command => "command"@,
        Rule::EmptyLine => "empty_line"@,
        Rule::TextWithFunctionParams => "text_with_function_params"@,
        Rule::TextWithFunctionArgs => "text_with_function_args"@,
        Rule::Text => "text"@,
        Rule::FunctionParam => "function_param"@,
        Rule::FunctionArg => "function_arg"@,
        Rule::Eoi => "EOI"@,
    }
}

/// The error for a node that is out of place: a message that ends in the
/// name of the node's rule, and the place of the node.
pub open spec fn misplaced(message: Seq<char>, pair: PairView) -> ErrorView {
    ErrorView::Structure {
        message: message + rule_name(pair.rule),
        line: pair.line,
        column: pair.column,
    }
}

/// The error for a node that lacks the node it must hold.
pub open spec fn incomplete(pair: PairView) -> ErrorView {
    ErrorView::Structure {
        message: "Nothing inside "@ + rule_name(pair.rule),
        line: pair.line,
        column: pair.column,
    }
}

/// The part that a node stands for. A text node is a literal. A parameter
/// or argument node is a placeholder, named by the text of the first node
/// inside it. Any other node is an error.
pub open spec fn built_part(pair: PairView) -> Result<PartView, ErrorView> {
    match pair.rule {
        Rule::Text => Ok(PartView::Literal(pair.text)),
        Rule::FunctionArg | Rule::FunctionParam => if pair.children.len() == 0 {
            Err(incomplete(pair))
        } else {
            Ok(PartView::Placeholder(pair.children[0].text))
        },
        _ => Err(misplaced("Expected text or function arg, got "@, pair)),
    }
}

/// The parts that nodes stand for, in order, or the error of the first node
/// that stands for none.
pub open spec fn built_parts(pairs: Seq<PairView>) -> Result<Seq<PartView>, ErrorView>
    decreases pairs.len(),
{
    if pairs.len() == 0 {
        Ok(Seq::empty())
    } else {
        match built_parts(pairs.drop_last()) {
            Err(error) => Err(error),
            Ok(parts) => match built_part(pairs.last()) {
                Err(error) => Err(error),
                Ok(part) => Ok(parts.push(part)),
            },
        }
    }
}

/// The template that a node stands for: the parts of the nodes inside a
/// node of templated text. Any other node is an error.
pub open spec fn built_template(pair: PairView) -> Result<Seq<PartView>, ErrorView> {
    match pair.rule {
        Rule::TextWithFunctionArgs | Rule::TextWithFunctionParams => built_parts(pair.children),
        _ => Err(misplaced("Expected text with args, got "@, pair)),
    }
}

/// The template of the first node inside a node, which must be there.
pub open spec fn built_head(pair: PairView) -> Result<Seq<PartView>, ErrorView> {
    if pair.children.len() == 0 {
        Err(incomplete(pair))
    } else {
        built_template(pair.children[0])
    }
}

/// The lines that a line node stands for: one for each definition, call
/// and command inside it, in order. An empty line stands for none. Any other
/// node inside it is an error, and the first error stands.
pub open spec fn built_line(pair: PairView) -> Result<Seq<LineView>, ErrorView>
    decreases pair,
{
    built_items(pair.children)
}

/// The lines that the nodes inside a line node stand for.
pub open spec fn built_items(items: Seq<PairView>) -> Result<Seq<LineView>, ErrorView>
    decreases items,
{
    if items.len() == 0 {
        Ok(Seq::empty())
    } else {
        match built_items(items.drop_last()) {
            Err(error) => Err(error),
            Ok(lines) => {
                let item = items.last();
                match item.rule {
                    Rule::FunctionDef => match built_function_def(item) {
                        Err(error) => Err(error),
                        Ok(def) => Ok(lines.push(LineView::FunctionDef(def))),
                    },
                    Rule::FunctionCall => match built_head(item) {
                        Err(error) => Err(error),
                        Ok(target) => Ok(lines.push(LineView::FunctionCall(target))),
                    },
                    Rule::Command => match built_head(item) {
                        Err(error) => Err(error),
                        Ok(text) => Ok(lines.push(LineView::Command(text))),
                    },
                    Rule::EmptyLine => Ok(lines),
                    _ => Err(misplaced("Unknown rule: "@, item)),
                }
            },
        }
    }
}

/// The definition that a definition node stands for: the first node inside
/// it gives the name, and every further node is a line node of the body.
pub open spec fn built_function_def(pair: PairView) -> Result<FunctionDefView, ErrorView>
    decreases pair,
{
    match built_head(pair) {
        Err(error) => Err(error),
        Ok(name) => match built_body(pair.children) {
            Err(error) => Err(error),
            Ok(body) => Ok(FunctionDefView { name, body }),
        },
    }
}

/// The lines of the body of a definition: those of every node but the
/// first, in order.
pub open spec fn built_body(nodes: Seq<PairView>) -> Result<Seq<LineView>, ErrorView>
    decreases nodes,
{
    if nodes.len() <= 1 {
        Ok(Seq::empty())
    } else {
        match built_body(nodes.drop_last()) {
            Err(error) => Err(error),
            Ok(lines) => match built_line(nodes.last()) {
                Err(error) => Err(error),
                Ok(more) => Ok(lines + more),
            },
        }
    }
}

/// The lines that the nodes inside a program node stand for, and whether
/// the end of the input was met. The nodes are taken in order: a line node
/// adds its lines, the node for the end of the input ends the program, and
/// what follows it is not looked at. Any other node is an error.
pub open spec fn built_top(nodes: Seq<PairView>) -> Result<(Seq<LineView>, bool), ErrorView>
    decreases nodes,
{
    if nodes.len() == 0 {
        Ok((Seq::empty(), false))
    } else {
        match built_top(nodes.drop_last()) {
            Err(error) => Err(error),
            Ok((lines, true)) => Ok((lines, true)),
            Ok((lines, false)) => match nodes.last().rule {
                Rule::Line => match built_line(nodes.last()) {
                    Err(error) => Err(error),
                    Ok(more) => Ok((lines + more, false)),
                },
                Rule::Eoi => Ok((lines, true)),
                _ => Err(misplaced("Unknown rule: "@, nodes.last())),
            },
        }
    }
}

/// The lines of the program that a parse tree stands for.
pub open spec fn built_program(pair: PairView) -> Result<Seq<LineView>, ErrorView> {
    match built_top(pair.children) {
        Err(error) => Err(error),
        Ok((lines, _)) => Ok(lines),
    }
}

/// The resolved program that a parse tree stands for: its lines are built,
/// and then resolved.
pub open spec fn compiled(pair: PairView) -> Result<Seq<Tree>, ErrorView> {
    match built_program(pair) {
        Err(error) => Err(error),
        Ok(lines) => resolved_program(lines),
    }
}

impl Rule {
    /// The name of this rule, as the grammar writes it.
    pub fn name(&self) -> (name: &'static str)
        ensures
            name@ == rule_name(*self),
    {
        match self {
            Rule::Program => "program",
            Rule::Line => "line",
            Rule::FunctionDef => "function_def",
            Rule::FunctionCall => "function_call",
            Rule::Command => "command",
            Rule::EmptyLine => "empty_line",
            Rule::TextWithFunctionParams => "text_with_function_params",
            Rule::TextWithFunctionArgs => "text_with_function_args",
            Rule::Text => "text",
            Rule::FunctionParam => "function_param",
            Rule::FunctionArg => "function_arg",
            Rule::Eoi => "EOI",
        }
    }
}

impl ParseError {
    /// The error for a node of the parse tree that cannot be interpreted:
    /// the message, and the place at which the node starts.
    pub fn from_pair(message: String, pair: &Pair) -> (error: ParseError)
        ensures
            error@ == (ErrorView::Structure {
                message: message@,
                line: pair@.line,
                column: pair@.column,
            }),
    {
        proof {
            lemma_pair_view(pair);
        }
        ParseError::Structure { message, line: pair.line, column: pair.column }
    }
}

/// The error for a node that is out of place.
fn misplaced_error(message: &str, pair: &Pair) -> (error: ParseError)
    ensures
        error@ == misplaced(message@, pair@),
{
    proof {
        lemma_pair_view(pair);
    }
    let mut text = String::new();
    text.append(message);
    text.append(pair.rule.name());
    ParseError::from_pair(text, pair)
}

/// The error for a node that lacks the node it must hold.
fn incomplete_error(pair: &Pair) -> (error: ParseError)
    ensures
        error@ == incomplete(pair@),
{
    proof {
        lemma_pair_view(pair);
    }
    let mut text = String::new();
    text.append("Nothing inside ");
    text.append(pair.rule.name());
    ParseError::from_pair(text, pair)
}

/// Builds the part that a node stands for.
pub fn parse_text_part(pair: &Pair) -> (result: Result<Part, ParseError>)
    ensures
        match built_part(pair@) {
            Ok(part) => result is Ok && result->Ok_0@ == part,
            Err(error) => result is Err && result->Err_0@ == error,
        },
{
    proof {
        lemma_pair_view(pair);
    }
    match pair.rule {
        Rule::Text => Ok(Part::Literal(pair.text.clone())),
        Rule::FunctionArg | Rule::FunctionParam => {
            if pair.children.len() == 0 {
                Err(incomplete_error(pair))
            } else {
                Ok(Part::Placeholder(pair.children[0].text.clone()))
            }
        },
        _ => Err(misplaced_error("Expected text or function arg, got ", pair)),
    }
}

/// Builds the template that a node of templated text stands for.
pub fn parse_text_with_args(pair: &Pair) -> (result: Result<TextTemplate, ParseError>)
    ensures
        match built_template(pair@) {
            Ok(template) => result is Ok && result->Ok_0@ == template,
            Err(error) => result is Err && result->Err_0@ == error,
        },
{
    proof {
        lemma_pair_view(pair);
    }
    match pair.rule {
        Rule::TextWithFunctionArgs | Rule::TextWithFunctionParams => {
            let ghost all = pair@.children;
            let mut parts: Vec<Part> = Vec::new();
            let mut i: usize = 0;
            let ghost mut built: Seq<PartView> = Seq::empty();
            while i < pair.children.len()
                invariant
                    i <= pair.children.len(),
                    all == pairs_view(pair.children@),
                    pair.rule == Rule::TextWithFunctionArgs || pair.rule
                        == Rule::TextWithFunctionParams,
                    built == parts@.map_values(|part: Part| part@),
                    built_parts(all.take(i as int)) == Ok::<Seq<PartView>, ErrorView>(built),
                decreases pair.children.len() - i,
            {
                proof {
                    lemma_pair_view(pair);
                    assert(all.take(i + 1).drop_last() =~= all.take(i as int));
                }
                match parse_text_part(&pair.children[i]) {
                    Ok(part) => {
                        proof {
                            built = built.push(part@);
                        }
                        parts.push(part);
                    },
                    Err(error) => {
                        proof {
                            lemma_built_parts_fail(all, i + 1);
                        }
                        return Err(error);
                    },
                }
                i += 1;
            }
            assert(all.take(pair.children.len() as int) =~= all);
            Ok(TextTemplate { parts })
        },
        _ => Err(misplaced_error("Expected text with args, got ", pair)),
    }
}

/// Where the first `n` nodes stand for no parts, all the nodes stand for
/// none, with the same error.
pub proof fn lemma_built_parts_fail(pairs: Seq<PairView>, n: int)
    requires
        0 <= n <= pairs.len(),
        built_parts(pairs.take(n)) is Err,
    ensures
        built_parts(pairs) == built_parts(pairs.take(n)),
    decreases pairs.len(),
{
    if n < pairs.len() {
        assert(pairs.drop_last().take(n) =~= pairs.take(n));
        lemma_built_parts_fail(pairs.drop_last(), n);
    } else {
        assert(pairs.take(n) =~= pairs);
    }
}

/// Builds the template of the first node inside a node.
fn parse_head(pair: &Pair) -> (result: Result<TextTemplate, ParseError>)
    ensures
        match built_head(pair@) {
            Ok(template) => result is Ok && result->Ok_0@ == template,
            Err(error) => result is Err && result->Err_0@ == error,
        },
{
    proof {
        lemma_pair_view(pair);
    }
    if pair.children.len() == 0 {
        Err(incomplete_error(pair))
    } else {
        parse_text_with_args(&pair.children[0])
    }
}

/// Builds the call that a call node stands for.
pub fn parse_function_call(pair: &Pair) -> (result: Result<FunctionCall, ParseError>)
    ensures
        match built_head(pair@) {
            Ok(target) => result is Ok && result->Ok_0@ == target,
            Err(error) => result is Err && result->Err_0@ == error,
        },
{
    match parse_head(pair) {
        Ok(target) => Ok(FunctionCall { target }),
        Err(error) => Err(error),
    }
}

/// Builds the command that a command node stands for.
pub fn parse_command(pair: &Pair) -> (result: Result<Command, ParseError>)
    ensures
        match built_head(pair@) {
            Ok(text) => result is Ok && result->Ok_0@ == text,
            Err(error) => result is Err && result->Err_0@ == error,
        },
{
    match parse_head(pair) {
        Ok(text) => Ok(Command { text }),
        Err(error) => Err(error),
    }
}

/// Builds the definition that a definition node stands for, with the
/// definitions, calls and commands nested in its body.
pub fn parse_function_def(pair: &Pair) -> (result: Result<FunctionDef, ParseError>)
    ensures
        match built_function_def(pair@) {
            Ok(def) => result is Ok && result->Ok_0@ == def,
            Err(error) => result is Err && result->Err_0@ == error,
        },
    decreases pair,
{
    proof {
        lemma_pair_view(pair);
    }
    let name = match parse_head(pair) {
        Ok(name) => name,
        Err(error) => {
            return Err(error);
        },
    };
    let ghost all = pair@.children;
    let mut body: Vec<Line> = Vec::new();
    let mut i: usize = 1;
    assert(lines_view(body@) =~= Seq::empty());
    while i < pair.children.len()
        invariant
            1 <= i <= pair.children.len(),
            all == pairs_view(pair.children@),
            built_head(pair@) == Ok::<Seq<PartView>, ErrorView>(name@),
            built_body(all.take(i as int)) == Ok::<Seq<LineView>, ErrorView>(lines_view(body@)),
        decreases pair.children.len() - i,
    {
        proof {
            lemma_pair_view(pair);
            assert(all.take(i + 1).drop_last() =~= all.take(i as int));
        }
        match parse_line(&pair.children[i]) {
            Ok(mut more) => {
                let ghost front = lines_view(body@);
                let ghost back = lines_view(more@);
                body.append(&mut more);
                assert(lines_view(body@) =~= front + back);
            },
            Err(error) => {
                proof {
                    lemma_built_body_fail(all, i + 1);
                }
                return Err(error);
            },
        }
        i += 1;
    }
    assert(all.take(pair.children.len() as int) =~= all);
    Ok(FunctionDef { name, body })
}

/// Where the first `n` nodes of a body fail, the whole body fails with the
/// same error.
pub proof fn lemma_built_body_fail(nodes: Seq<PairView>, n: int)
    requires
        0 <= n <= nodes.len(),
        built_body(nodes.take(n)) is Err,
    ensures
        built_body(nodes) == built_body(nodes.take(n)),
    decreases nodes.len(),
{
    if n < nodes.len() {
        assert(nodes.drop_last().take(n) =~= nodes.take(n));
        lemma_built_body_fail(nodes.drop_last(), n);
    } else {
        assert(nodes.take(n) =~= nodes);
    }
}

/// Builds the lines that a line node stands for.
pub fn parse_line(line: &Pair) -> (result: Result<Vec<Line>, ParseError>)
    ensures
        match built_line(line@) {
            Ok(lines) => result is Ok && lines_view(result->Ok_0@) == lines,
            Err(error) => result is Err && result->Err_0@ == error,
        },
    decreases line,
{
    proof {
        lemma_pair_view(line);
    }
    let ghost all = line@.children;
    let mut lines: Vec<Line> = Vec::new();
    let mut i: usize = 0;
    assert(lines_view(lines@) =~= Seq::empty());
    while i < line.children.len()
        invariant
            i <= line.children.len(),
            all == pairs_view(line.children@),
            built_items(all.take(i as int)) == Ok::<Seq<LineView>, ErrorView>(lines_view(lines@)),
        decreases line.children.len() - i,
    {
        proof {
            lemma_pair_view(line);
            assert(all.take(i + 1).drop_last() =~= all.take(i as int));
            lemma_built_items_fail(all, i + 1);
        }
        let item = &line.children[i];
        let ghost before = lines_view(lines@);
        match item.rule {
            Rule::FunctionDef => {
                match parse_function_def(item) {
                    Ok(def) => {
                        lines.push(Line::FunctionDef(def));
                        assert(lines_view(lines@) =~= before.push(LineView::FunctionDef(def@)));
                    },
                    Err(error) => {
                        return Err(error);
                    },
                }
            },
            Rule::FunctionCall => {
                match parse_function_call(item) {
                    Ok(call) => {
                        lines.push(Line::FunctionCall(call));
                        assert(lines_view(lines@) =~= before.push(LineView::FunctionCall(call@)));
                    },
                    Err(error) => {
                        return Err(error);
                    },
                }
            },
            Rule::Command => {
                match parse_command(item) {
                    Ok(command) => {
                        lines.push(Line::Command(command));
                        assert(lines_view(lines@) =~= before.push(LineView::Command(command@)));
                    },
                    Err(error) => {
                        return Err(error);
                    },
                }
            },
            Rule::EmptyLine => {},
            _ => {
                return Err(misplaced_error("Unknown rule: ", item));
            },
        }
        i += 1;
    }
    assert(all.take(line.children.len() as int) =~= all);
    Ok(lines)
}

/// Where the first `n` nodes inside a line node fail, all of them fail with
/// the same error.
pub proof fn lemma_built_items_fail(items: Seq<PairView>, n: int)
    requires
        0 <= n <= items.len(),
    ensures
        built_items(items.take(n)) is Err ==> built_items(items) == built_items(items.take(n)),
    decreases items.len(),
{
    if n < items.len() {
        assert(items.drop_last().take(n) =~= items.take(n));
        lemma_built_items_fail(items.drop_last(), n);
    } else {
        assert(items.take(n) =~= items);
    }
}

/// Builds the lines of the program that a parse tree stands for.
pub fn build_program(pair: &Pair) -> (result: Result<Program, ParseError>)
    ensures
        match built_program(pair@) {
            Ok(lines) => result is Ok && result->Ok_0@ == lines,
            Err(error) => result is Err && result->Err_0@ == error,
        },
{
    proof {
        lemma_pair_view(pair);
    }
    let ghost all = pair@.children;
    let mut lines: Vec<Line> = Vec::new();
    let mut i: usize = 0;
    assert(lines_view(lines@) =~= Seq::empty());
    while i < pair.children.len()
        invariant
            i <= pair.children.len(),
            all == pairs_view(pair.children@),
            built_top(all.take(i as int)) == Ok::<(Seq<LineView>, bool), ErrorView>(
                (lines_view(lines@), false),
            ),
        decreases pair.children.len() - i,
    {
        proof {
            lemma_pair_view(pair);
            assert(all.take(i + 1).drop_last() =~= all.take(i as int));
            lemma_built_top_settled(all, i + 1);
        }
        let node = &pair.children[i];
        match node.rule {
            Rule::Line => {
                match parse_line(node) {
                    Ok(mut more) => {
                        let ghost front = lines_view(lines@);
                        let ghost back = lines_view(more@);
                        lines.append(&mut more);
                        assert(lines_view(lines@) =~= front + back);
                    },
                    Err(error) => {
                        return Err(error);
                    },
                }
            },
            Rule::Eoi => {
                return Ok(Program { lines });
            },
            _ => {
                return Err(misplaced_error("Unknown rule: ", node));
            },
        }
        i += 1;
    }
    assert(all.take(pair.children.len() as int) =~= all);
    Ok(Program { lines })
}

/// Where the first `n` nodes of a program fail or meet the end of the
/// input, the nodes behind them change nothing.
pub proof fn lemma_built_top_settled(nodes: Seq<PairView>, n: int)
    requires
        0 <= n <= nodes.len(),
    ensures
        match built_top(nodes.take(n)) {
            Err(error) => built_top(nodes) == Err::<(Seq<LineView>, bool), ErrorView>(error),
            Ok((lines, true)) => built_top(nodes) == Ok::<(Seq<LineView>, bool), ErrorView>(
                (lines, true),
            ),
            Ok((_, false)) => true,
        },
    decreases nodes.len(),
{
    if n < nodes.len() {
        assert(nodes.drop_last().take(n) =~= nodes.take(n));
        lemma_built_top_settled(nodes.drop_last(), n);
    } else {
        assert(nodes.take(n) =~= nodes);
    }
}

/// Compiles a parse tree: builds the lines of the program and resolves
/// them. It returns the resolved program, or the first error of the
/// builder, or else the error of the first line that cannot be resolved.
pub fn parse_program(pair: &Pair) -> (result: Result<KlangProgram, ParseError>)
    ensures
        match compiled(pair@) {
            Ok(trees) => result is Ok && result->Ok_0@ == trees,
            Err(error) => result is Err && result->Err_0@ == error,
        },
{
    let ir_program = match build_program(pair) {
        Ok(ir_program) => ir_program,
        Err(error) => {
            return Err(error);
        },
    };
    match ir_to_ast(&ir_program) {
        Ok(ast_program) => Ok(KlangProgram::from_ast(&ast_program)),
        Err(error) => Err(error),
    }
}

} // verus!
