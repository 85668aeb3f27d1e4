//! The grammar: it turns the tokens of a source text into a parse tree.
//!
//! A program is a sequence of lines. A line that starts with the word `fn`
//! defines a function: the template of its name follows, then the lines of
//! its body between braces. A line that starts with the word `call` calls
//! a function: the template of the call follows. Any other line is a
//! command, and the whole line is its template. A template is a sequence of
//! words and of names in brackets. A line ends at the end of its line of
//! text, before a closing brace, or at the end of the text.

use crate::parser::errors::{ErrorView, ParseError};
use crate::parser::lang::{Pair, PairView, Rule, lemma_pair_view, pairs_view};
use crate::parser::tokens::{Token, TokenKind, TokenView, tokens_view};
use vstd::prelude::*;

verus! {

/// A node without nodes inside it, which holds the text of a token.
pub open spec fn leaf(rule: Rule, token: TokenView) -> PairView {
    PairView {
        rule,
        text: token.text,
        line: token.line,
        column: token.column,
        children: Seq::empty(),
    }
}

/// A node with nodes inside it, which starts at a given line and column.
pub open spec fn branch(rule: Rule, line: nat, column: nat, children: Seq<PairView>) -> PairView {
    PairView { rule, text: Seq::empty(), line, column, children }
}

/// The error for a text that does not follow the grammar, at the place of
/// a token.
pub open spec fn syntax_error(message: Seq<char>, at: TokenView) -> ErrorView {
    ErrorView::Syntax { message, line: at.line, column: at.column }
}

/// How many tokens are left from a place on.
pub open spec fn remaining(length: nat, pos: nat) -> nat {
    if pos <= length {
        (length - pos) as nat
    } else {
        0
    }
}

/// The rule of a name in brackets: a parameter in the name of a
/// definition, an argument elsewhere.
pub open spec fn slot_rule(params: bool) -> Rule {
    if params {
        Rule::FunctionParam
    } else {
        Rule::FunctionArg
    }
}

/// The rule of a template: with parameters in the name of a definition,
/// with arguments elsewhere.
pub open spec fn template_rule(params: bool) -> Rule {
    if params {
        Rule::TextWithFunctionParams
    } else {
        Rule::TextWithFunctionArgs
    }
}

/// The parts of a template from `pos` on, added to those read so far, and
/// the place at which the template ends. A word is a text node. An opening
/// bracket must be followed by one word and a closing bracket; the three
/// are one node, which holds the word as a text node. A closing bracket
/// without an opening one is an error. The template ends before a line
/// end, before a brace, and at the end of the tokens.
pub open spec fn parts_from(
    tokens: Seq<TokenView>,
    pos: nat,
    params: bool,
    so_far: Seq<PairView>,
) -> Result<(Seq<PairView>, nat), ErrorView>
    decreases remaining(tokens.len(), pos),
{
    if pos >= tokens.len() {
        Ok((so_far, pos))
    } else {
        let token = tokens[pos as int];
        match token.kind {
            TokenKind::Word => parts_from(
                tokens,
                pos + 1,
                params,
                so_far.push(leaf(Rule::Text, token)),
            ),
            TokenKind::BracketOpen => if pos + 2 < tokens.len() && tokens[pos as int + 1].kind
                == TokenKind::Word && tokens[pos as int + 2].kind == TokenKind::BracketClose {
                parts_from(
                    tokens,
                    pos + 3,
                    params,
                    so_far.push(
                        branch(
                            slot_rule(params),
                            token.line,
                            token.column,
                            seq![leaf(Rule::Text, tokens[pos as int + 1])],
                        ),
                    ),
                )
            } else {
                Err(syntax_error("Expected a name in brackets"@, token))
            },
            TokenKind::BracketClose => Err(syntax_error("Unexpected ]"@, token)),
            _ => Ok((so_far, pos)),
        }
    }
}

/// The node of a template with the given parts, of which there is at least
/// one. It starts where its first part starts.
pub open spec fn template_node(parts: Seq<PairView>, params: bool) -> PairView {
    branch(template_rule(params), parts[0].line, parts[0].column, parts)
}

/// The line node that holds one node, and starts where that node starts.
pub open spec fn line_node(item: PairView) -> PairView {
    branch(Rule::Line, item.line, item.column, seq![item])
}

/// The line that starts at `pos`, where there is a token that is neither a
/// line end nor a closing brace, and how many tokens the line holds beyond
/// its first.
///
/// After the word `fn` come the template of the name, which must not be
/// empty, an opening brace, the lines of the body, and a closing brace.
/// After the word `call` comes the template of the call, which must not be
/// empty. Any other line is a command, and its template starts with its
/// first token. No opening brace may follow a call or a command.
pub open spec fn line_from(tokens: Seq<TokenView>, pos: nat) -> Result<(PairView, nat), ErrorView>
    decreases remaining(tokens.len(), pos), 0nat,
{
    let first = tokens[pos as int];
    if first.kind == TokenKind::Word && first.text == "fn"@ {
        match parts_from(tokens, pos + 1, true, Seq::empty()) {
            Err(error) => Err(error),
            Ok((parts, end)) => if parts.len() == 0 {
                Err(syntax_error("Expected a function name"@, first))
            } else if end >= tokens.len() || tokens[end as int].kind != TokenKind::BraceOpen {
                Err(syntax_error("Expected {"@, first))
            } else {
                proof {
                    lemma_parts_from_end(tokens, pos + 1, true, Seq::empty());
                }
                match lines_from(tokens, end + 1, Some(first), Seq::empty()) {
                    Err(error) => Err(error),
                    Ok((body, close)) => Ok(
                        (
                            line_node(
                                branch(
                                    Rule::FunctionDef,
                                    first.line,
                                    first.column,
                                    seq![template_node(parts, true)] + body,
                                ),
                            ),
                            (close - pos) as nat,
                        ),
                    ),
                }
            },
        }
    } else {
        let call = first.kind == TokenKind::Word && first.text == "call"@;
        let start = if call {
            pos + 1
        } else {
            pos
        };
        match parts_from(tokens, start, false, Seq::empty()) {
            Err(error) => Err(error),
            Ok((parts, end)) => if end < tokens.len() && tokens[end as int].kind
                == TokenKind::BraceOpen {
                Err(syntax_error("Unexpected {"@, tokens[end as int]))
            } else if parts.len() == 0 {
                Err(syntax_error("Expected a call target"@, first))
            } else if call {
                Ok(
                    (
                        line_node(
                            branch(
                                Rule::FunctionCall,
                                first.line,
                                first.column,
                                seq![template_node(parts, false)],
                            ),
                        ),
                        (end - pos - 1) as nat,
                    ),
                )
            } else {
                Ok(
                    (
                        line_node(
                            branch(
                                Rule::Command,
                                first.line,
                                first.column,
                                seq![template_node(parts, false)],
                            ),
                        ),
                        (end - pos - 1) as nat,
                    ),
                )
            },
        }
    }
}

/// The lines from `pos` on, added to those read so far, and the place at
/// which they end. Line ends between lines are passed over. Inside the
/// body of a definition, whose first token is `opener`, the lines end at
/// the closing brace, which must be there. Outside they end at the end of
/// the tokens, and a closing brace is an error.
pub open spec fn lines_from(
    tokens: Seq<TokenView>,
    pos: nat,
    opener: Option<TokenView>,
    so_far: Seq<PairView>,
) -> Result<(Seq<PairView>, nat), ErrorView>
    decreases remaining(tokens.len(), pos), 1nat,
{
    if pos >= tokens.len() {
        match opener {
            Some(open) => Err(syntax_error("Expected }"@, open)),
            None => Ok((so_far, pos)),
        }
    } else {
        match tokens[pos as int].kind {
            TokenKind::Newline => lines_from(tokens, pos + 1, opener, so_far),
            TokenKind::BraceClose => match opener {
                Some(_) => Ok((so_far, pos)),
                None => Err(syntax_error("Unexpected }"@, tokens[pos as int])),
            },
            _ => match line_from(tokens, pos) {
                Err(error) => Err(error),
                Ok((line, extra)) => lines_from(
                    tokens,
                    pos + 1 + extra,
                    opener,
                    so_far.push(line),
                ),
            },
        }
    }
}

/// The parse tree of a sequence of tokens: a program node that holds the
/// line nodes.
pub open spec fn parsed(tokens: Seq<TokenView>) -> Result<PairView, ErrorView> {
    match lines_from(tokens, 0, None, Seq::empty()) {
        Err(error) => Err(error),
        Ok((lines, _)) => Ok(branch(Rule::Program, 1, 1, lines)),
    }
}

/// A template ends at or behind the place at which it starts, and within
/// the tokens; it holds the parts read so far, and more where it ends
/// behind its start.
pub proof fn lemma_parts_from_end(
    tokens: Seq<TokenView>,
    pos: nat,
    params: bool,
    so_far: Seq<PairView>,
)
    requires
        pos <= tokens.len(),
    ensures
        match parts_from(tokens, pos, params, so_far) {
            Ok((parts, end)) => pos <= end <= tokens.len() && parts.len() >= so_far.len() && (end
                > pos <==> parts.len() > so_far.len()),
            Err(_) => true,
        },
    decreases remaining(tokens.len(), pos),
{
    if pos < tokens.len() {
        let token = tokens[pos as int];
        match token.kind {
            TokenKind::Word => {
                lemma_parts_from_end(tokens, pos + 1, params, so_far.push(leaf(Rule::Text, token)));
            },
            TokenKind::BracketOpen => {
                if pos + 2 < tokens.len() && tokens[pos as int + 1].kind == TokenKind::Word && tokens[pos as int + 2].kind == TokenKind::BracketClose {
                    lemma_parts_from_end(
                        tokens,
                        pos + 3,
                        params,
                        so_far.push(
                            branch(
                                slot_rule(params),
                                token.line,
                                token.column,
                                seq![leaf(Rule::Text, tokens[pos as int + 1])],
                            ),
                        ),
                    );
                }
            },
            _ => {},
        }
    }
}

/// The value of the token that opens a body, if there is one.
pub open spec fn opener_view(opener: Option<&Token>) -> Option<TokenView> {
    match opener {
        Some(token) => Some(token@),
        None => None,
    }
}

/// Makes a text node from a token.
fn text_leaf(token: &Token) -> (pair: Pair)
    ensures
        pair@ == leaf(Rule::Text, token@),
{
    let pair = Pair {
        rule: Rule::Text,
        text: token.text.clone(),
        line: token.line,
        column: token.column,
        children: Vec::new(),
    };
    proof {
        lemma_pair_view(&pair);
        assert(pair@.children =~= Seq::empty());
    }
    pair
}

/// Makes a node that holds the given nodes.
fn branch_node(rule: Rule, line: usize, column: usize, children: Vec<Pair>) -> (pair: Pair)
    ensures
        pair@ == branch(rule, line as nat, column as nat, pairs_view(children@)),
{
    let pair = Pair { rule, text: String::new(), line, column, children };
    proof {
        lemma_pair_view(&pair);
    }
    pair
}

/// Makes a node that holds one node.
fn branch_of_one(rule: Rule, line: usize, column: usize, child: Pair) -> (pair: Pair)
    ensures
        pair@ == branch(rule, line as nat, column as nat, seq![child@]),
{
    let mut children: Vec<Pair> = Vec::new();
    children.push(child);
    assert(pairs_view(children@) =~= seq![child@]);
    branch_node(rule, line, column, children)
}

/// Makes the error for a text that does not follow the grammar.
fn syntax_failure(message: &str, at: &Token) -> (error: ParseError)
    ensures
        error@ == syntax_error(message@, at@),
{
    let mut text = String::new();
    text.append(message);
    ParseError::Syntax { message: text, line: at.line, column: at.column }
}

/// Reads the parts of a template that starts at `start`.
fn read_parts(tokens: &Vec<Token>, start: usize, params: bool) -> (result: Result<
    (Vec<Pair>, usize),
    ParseError,
>)
    requires
        start <= tokens.len(),
    ensures
        match parts_from(tokens_view(tokens@), start as nat, params, Seq::empty()) {
            Ok((parts, end)) => result is Ok && pairs_view(result->Ok_0.0@) == parts
                && result->Ok_0.1 == end && start <= end <= tokens.len(),
            Err(error) => result is Err && result->Err_0@ == error,
        },
{
    let ghost all = tokens_view(tokens@);
    let mut parts: Vec<Pair> = Vec::new();
    let mut pos: usize = start;
    assert(pairs_view(parts@) =~= Seq::empty());
    while pos < tokens.len()
        invariant
            start <= pos <= tokens.len(),
            all == tokens_view(tokens@),
            parts_from(all, start as nat, params, Seq::empty()) == parts_from(
                all,
                pos as nat,
                params,
                pairs_view(parts@),
            ),
        decreases tokens.len() - pos,
    {
        let token = &tokens[pos];
        let ghost before = pairs_view(parts@);
        match token.kind {
            TokenKind::Word => {
                let part = text_leaf(token);
                parts.push(part);
                assert(pairs_view(parts@) =~= before.push(part@));
                pos += 1;
            },
            TokenKind::BracketOpen => {
                if tokens.len() - pos > 2 && tokens[pos + 1].kind == TokenKind::Word && tokens[pos
                    + 2].kind == TokenKind::BracketClose {
                    let name = text_leaf(&tokens[pos + 1]);
                    let rule = if params {
                        Rule::FunctionParam
                    } else {
                        Rule::FunctionArg
                    };
                    let part = branch_of_one(rule, token.line, token.column, name);
                    parts.push(part);
                    assert(pairs_view(parts@) =~= before.push(part@));
                    pos += 3;
                } else {
                    return Err(syntax_failure("Expected a name in brackets", token));
                }
            },
            TokenKind::BracketClose => {
                return Err(syntax_failure("Unexpected ]", token));
            },
            _ => {
                proof {
                    lemma_parts_from_end(all, start as nat, params, Seq::empty());
                }
                return Ok((parts, pos));
            },
        }
    }
    proof {
        lemma_parts_from_end(all, start as nat, params, Seq::empty());
    }
    Ok((parts, pos))
}

/// Makes the node of a template from its parts.
fn template_of(parts: Vec<Pair>, params: bool) -> (pair: Pair)
    requires
        parts.len() > 0,
    ensures
        pair@ == template_node(pairs_view(parts@), params),
{
    let rule = if params {
        Rule::TextWithFunctionParams
    } else {
        Rule::TextWithFunctionArgs
    };
    let line = parts[0].line;
    let column = parts[0].column;
    proof {
        lemma_pair_view(&parts[0]);
    }
    branch_node(rule, line, column, parts)
}

/// Whether a token is the given word.
fn is_word(token: &Token, word: &str) -> (same: bool)
    ensures
        same == (token@.kind == TokenKind::Word && token@.text == word@),
{
    let wanted = word.to_owned();
    token.kind == TokenKind::Word && token.text == wanted
}

/// Reads the line that starts at `pos`. It returns the line node and the
/// place behind the line.
fn read_line(tokens: &Vec<Token>, pos: usize) -> (result: Result<(Pair, usize), ParseError>)
    requires
        pos < tokens.len(),
    ensures
        match line_from(tokens_view(tokens@), pos as nat) {
            Ok((line, extra)) => result is Ok && result->Ok_0.0@ == line && result->Ok_0.1 == pos
                + 1 + extra && result->Ok_0.1 <= tokens.len(),
            Err(error) => result is Err && result->Err_0@ == error,
        },
    decreases remaining(tokens@.len(), pos as nat), 0nat,
{
    let ghost all = tokens_view(tokens@);
    let first = &tokens[pos];
    if is_word(first, "fn") {
        let (parts, end) = match read_parts(tokens, pos + 1, true) {
            Ok(found) => found,
            Err(error) => {
                return Err(error);
            },
        };
        if parts.len() == 0 {
            return Err(syntax_failure("Expected a function name", first));
        }
        if end >= tokens.len() {
            return Err(syntax_failure("Expected {", first));
        }
        if tokens[end].kind != TokenKind::BraceOpen {
            return Err(syntax_failure("Expected {", first));
        }
        let (mut body, close) = match read_lines(tokens, end + 1, Some(first)) {
            Ok(found) => found,
            Err(error) => {
                return Err(error);
            },
        };
        let ghost parts_view = pairs_view(parts@);
        let ghost body_view = pairs_view(body@);
        let mut children: Vec<Pair> = Vec::new();
        children.push(template_of(parts, true));
        children.append(&mut body);
        assert(pairs_view(children@) =~= seq![template_node(parts_view, true)] + body_view);
        let def = branch_node(Rule::FunctionDef, first.line, first.column, children);
        let line = branch_of_one(Rule::Line, first.line, first.column, def);
        Ok((line, close + 1))
    } else {
        let call = is_word(first, "call");
        let start = if call {
            pos + 1
        } else {
            pos
        };
        let (parts, end) = match read_parts(tokens, start, false) {
            Ok(found) => found,
            Err(error) => {
                return Err(error);
            },
        };
        proof {
            lemma_parts_from_end(all, start as nat, false, Seq::empty());
        }
        if end < tokens.len() {
            if tokens[end].kind == TokenKind::BraceOpen {
                return Err(syntax_failure("Unexpected {", &tokens[end]));
            }
        }
        if parts.len() == 0 {
            return Err(syntax_failure("Expected a call target", first));
        }
        let rule = if call {
            Rule::FunctionCall
        } else {
            Rule::Command
        };
        let item = branch_of_one(rule, first.line, first.column, template_of(parts, false));
        let line = branch_of_one(Rule::Line, first.line, first.column, item);
        Ok((line, end))
    }
}

/// Reads the lines from `start` on. It returns the line nodes and the
/// place at which the lines end: the end of the tokens, or the closing
/// brace of the body whose first token is `opener`.
fn read_lines(tokens: &Vec<Token>, start: usize, opener: Option<&Token>) -> (result: Result<
    (Vec<Pair>, usize),
    ParseError,
>)
    requires
        start <= tokens.len(),
    ensures
        match lines_from(tokens_view(tokens@), start as nat, opener_view(opener), Seq::empty()) {
            Ok((lines, end)) => result is Ok && pairs_view(result->Ok_0.0@) == lines
                && result->Ok_0.1 == end && start <= end <= tokens.len() && (opener is Some ==> end
                < tokens.len()),
            Err(error) => result is Err && result->Err_0@ == error,
        },
    decreases remaining(tokens@.len(), start as nat), 1nat,
{
    let ghost all = tokens_view(tokens@);
    let mut lines: Vec<Pair> = Vec::new();
    let mut pos: usize = start;
    assert(pairs_view(lines@) =~= Seq::empty());
    while pos < tokens.len()
        invariant
            start <= pos <= tokens.len(),
            all == tokens_view(tokens@),
            lines_from(all, start as nat, opener_view(opener), Seq::empty()) == lines_from(
                all,
                pos as nat,
                opener_view(opener),
                pairs_view(lines@),
            ),
        decreases tokens.len() - pos,
    {
        let token = &tokens[pos];
        let ghost before = pairs_view(lines@);
        match token.kind {
            TokenKind::Newline => {
                pos += 1;
            },
            TokenKind::BraceClose => {
                return match opener {
                    Some(_) => Ok((lines, pos)),
                    None => Err(syntax_failure("Unexpected }", token)),
                };
            },
            _ => {
                let (line, next) = match read_line(tokens, pos) {
                    Ok(found) => found,
                    Err(error) => {
                        return Err(error);
                    },
                };
                lines.push(line);
                assert(pairs_view(lines@) =~= before.push(line@));
                pos = next;
            },
        }
    }
    match opener {
        Some(open) => Err(syntax_failure("Expected }", open)),
        None => Ok((lines, pos)),
    }
}

/// Builds the parse tree of a sequence of tokens, or says where they do
/// not follow the grammar.
pub fn parse_tokens(tokens: &Vec<Token>) -> (result: Result<Pair, ParseError>)
    ensures
        match parsed(tokens_view(tokens@)) {
            Ok(tree) => result is Ok && result->Ok_0@ == tree,
            Err(error) => result is Err && result->Err_0@ == error,
        },
{
    match read_lines(tokens, 0, None) {
        Ok((lines, _)) => Ok(branch_node(Rule::Program, 1, 1, lines)),
        Err(error) => Err(error),
    }
}

} // verus!
