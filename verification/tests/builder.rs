use klang::parser::errors::ParseError;
use klang::parser::ir::{Line, Part};
use klang::parser::lang::{
    build_program, parse_command, parse_function_call, parse_function_def, parse_line,
    parse_program, parse_text_part, parse_text_with_args, Pair, Rule,
};
use klang::parser::syntax::parse_tokens;
use klang::parser::tokens::{characters, tokenize, TokenKind};

fn pair(rule: Rule, text: &str, at: (usize, usize), children: Vec<Pair>) -> Pair {
    Pair { rule, text: text.to_string(), line: at.0, column: at.1, children }
}

fn text(word: &str) -> Pair {
    pair(Rule::Text, word, (1, 1), vec![])
}

fn arg(name: &str) -> Pair {
    pair(Rule::FunctionArg, "", (1, 1), vec![text(name)])
}

fn param(name: &str) -> Pair {
    pair(Rule::FunctionParam, "", (1, 1), vec![text(name)])
}

fn args(parts: Vec<Pair>) -> Pair {
    pair(Rule::TextWithFunctionArgs, "", (1, 1), parts)
}

fn params(parts: Vec<Pair>) -> Pair {
    pair(Rule::TextWithFunctionParams, "", (1, 1), parts)
}

fn line(item: Pair) -> Pair {
    pair(Rule::Line, "", (1, 1), vec![item])
}

fn greeting() -> Pair {
    pair(
        Rule::Program,
        "",
        (1, 1),
        vec![
            line(pair(
                Rule::FunctionDef,
                "",
                (1, 1),
                vec![
                    params(vec![text("greet"), param("name")]),
                    line(pair(Rule::Command, "", (1, 19), vec![args(vec![text("say"), text("hello"), arg("name")])])),
                ],
            )),
            line(pair(Rule::EmptyLine, "", (2, 1), vec![])),
            line(pair(Rule::FunctionCall, "", (3, 1), vec![args(vec![text("greet"), text("world")])])),
            pair(Rule::Eoi, "", (3, 12), vec![]),
        ],
    )
}

#[test]
fn parts_are_built_from_text_and_slots() {
    assert!(matches!(parse_text_part(&text("word")), Ok(Part::Literal(word)) if word == "word"));
    assert!(matches!(parse_text_part(&arg("x")), Ok(Part::Placeholder(name)) if name == "x"));
    assert!(matches!(parse_text_part(&param("y")), Ok(Part::Placeholder(name)) if name == "y"));
}

#[test]
fn part_of_another_shape_is_a_structural_error() {
    let odd = pair(Rule::Command, "", (4, 7), vec![]);
    match parse_text_part(&odd) {
        Err(ParseError::Structure { message, line, column }) => {
            assert_eq!(message, "Expected text or function arg, got command");
            assert_eq!((line, column), (4, 7));
        }
        other => panic!("expected a structural error, got {:?}", other),
    }
    let hollow = pair(Rule::FunctionArg, "", (2, 5), vec![]);
    match parse_text_part(&hollow) {
        Err(ParseError::Structure { message, line, column }) => {
            assert_eq!(message, "Nothing inside function_arg");
            assert_eq!((line, column), (2, 5));
        }
        other => panic!("expected a structural error, got {:?}", other),
    }
}

#[test]
fn template_is_built_part_by_part() {
    let template = parse_text_with_args(&args(vec![text("say"), arg("name"), text("now")])).unwrap();
    assert_eq!(template.parts.len(), 3);
    assert!(matches!(&template.parts[1], Part::Placeholder(name) if name == "name"));
    assert!(parse_text_with_args(&params(vec![])).unwrap().parts.is_empty());
    match parse_text_with_args(&pair(Rule::Line, "", (9, 2), vec![])) {
        Err(ParseError::Structure { message, line, column }) => {
            assert_eq!(message, "Expected text with args, got line");
            assert_eq!((line, column), (9, 2));
        }
        other => panic!("expected a structural error, got {:?}", other),
    }
    let bad = args(vec![text("a"), pair(Rule::Eoi, "", (1, 3), vec![]), pair(Rule::Line, "", (1, 4), vec![])]);
    match parse_text_with_args(&bad) {
        Err(ParseError::Structure { message, .. }) => {
            assert_eq!(message, "Expected text or function arg, got EOI")
        }
        other => panic!("expected a structural error, got {:?}", other),
    }
}

#[test]
fn calls_and_commands_take_their_first_node() {
    let call = parse_function_call(&pair(Rule::FunctionCall, "", (1, 1), vec![args(vec![text("go")])])).unwrap();
    assert_eq!(call.target.parts.len(), 1);
    let command = parse_command(&pair(Rule::Command, "", (1, 1), vec![args(vec![text("a"), text("b")])])).unwrap();
    assert_eq!(command.text.parts.len(), 2);
    match parse_command(&pair(Rule::Command, "", (5, 6), vec![])) {
        Err(ParseError::Structure { message, line, column }) => {
            assert_eq!(message, "Nothing inside command");
            assert_eq!((line, column), (5, 6));
        }
        other => panic!("expected a structural error, got {:?}", other),
    }
    assert!(parse_function_call(&pair(Rule::FunctionCall, "", (1, 1), vec![])).is_err());
}

#[test]
fn definition_holds_its_nested_lines() {
    let node = pair(
        Rule::FunctionDef,
        "",
        (1, 1),
        vec![
            params(vec![text("outer")]),
            line(pair(Rule::FunctionDef, "", (2, 1), vec![params(vec![text("inner")]), line(pair(Rule::Command, "", (3, 1), vec![args(vec![text("x")])]))])),
            line(pair(Rule::EmptyLine, "", (4, 1), vec![])),
            line(pair(Rule::FunctionCall, "", (5, 1), vec![args(vec![text("inner")])])),
        ],
    );
    let def = parse_function_def(&node).unwrap();
    assert_eq!(def.name.parts.len(), 1);
    assert_eq!(def.body.len(), 2);
    assert!(matches!(&def.body[0], Line::FunctionDef(inner) if inner.body.len() == 1));
    assert!(matches!(&def.body[1], Line::FunctionCall(_)));
    assert!(parse_function_def(&pair(Rule::FunctionDef, "", (1, 1), vec![])).is_err());
}

#[test]
fn line_of_unknown_rule_is_a_structural_error() {
    match parse_line(&line(text("stray"))) {
        Err(ParseError::Structure { message, .. }) => assert_eq!(message, "Unknown rule: text"),
        other => panic!("expected a structural error, got {:?}", other),
    }
    assert!(parse_line(&line(pair(Rule::EmptyLine, "", (1, 1), vec![]))).unwrap().is_empty());
    assert!(parse_line(&pair(Rule::Line, "", (1, 1), vec![])).unwrap().is_empty());
}

#[test]
fn program_is_built_up_to_the_end_of_input() {
    let program = build_program(&greeting()).unwrap();
    assert_eq!(program.lines.len(), 2);
    let mut with_tail = greeting();
    with_tail.children.push(text("ignored behind the end"));
    assert_eq!(build_program(&with_tail).unwrap().lines.len(), 2);
    let mut stray = greeting();
    stray.children.insert(0, pair(Rule::Command, "", (7, 8), vec![]));
    match build_program(&stray) {
        Err(ParseError::Structure { message, line, column }) => {
            assert_eq!(message, "Unknown rule: command");
            assert_eq!((line, column), (7, 8));
        }
        other => panic!("expected a structural error, got {:?}", other),
    }
}

#[test]
fn parse_tree_compiles_to_the_resolved_program() {
    let program = parse_program(&greeting()).unwrap();
    assert_eq!(program.to_text(), "greet world {\n  say hello world\n}\n");
    let unresolved = pair(
        Rule::Program,
        "",
        (1, 1),
        vec![line(pair(Rule::FunctionCall, "", (1, 1), vec![args(vec![text("nobody")])]))],
    );
    assert!(matches!(parse_program(&unresolved), Err(ParseError::Resolution { .. })));
}

#[test]
fn rule_names_follow_the_grammar() {
    assert_eq!(Rule::Program.name(), "program");
    assert_eq!(Rule::TextWithFunctionParams.name(), "text_with_function_params");
    assert_eq!(Rule::FunctionArg.name(), "function_arg");
    assert_eq!(Rule::Eoi.name(), "EOI");
    let error = ParseError::from_pair("odd".to_string(), &pair(Rule::Text, "", (3, 4), vec![]));
    assert_eq!(error.message(), "odd (line: 3, column: 4)");
}

#[test]
fn tokens_know_their_place() {
    let chars = characters("fn go [x] {\n\tsay [x]\r\n}");
    assert_eq!(chars.len(), 23);
    let tokens = tokenize(&chars);
    let summary: Vec<(TokenKind, &str, usize, usize)> =
        tokens.iter().map(|t| (t.kind, t.text.as_str(), t.line, t.column)).collect();
    assert_eq!(
        summary,
        vec![
            (TokenKind::Word, "fn", 1, 1),
            (TokenKind::Word, "go", 1, 4),
            (TokenKind::BracketOpen, "[", 1, 7),
            (TokenKind::Word, "x", 1, 8),
            (TokenKind::BracketClose, "]", 1, 9),
            (TokenKind::BraceOpen, "{", 1, 11),
            (TokenKind::Newline, "\n", 1, 12),
            (TokenKind::Word, "say", 2, 2),
            (TokenKind::BracketOpen, "[", 2, 6),
            (TokenKind::Word, "x", 2, 7),
            (TokenKind::BracketClose, "]", 2, 8),
            (TokenKind::Newline, "\n", 2, 10),
            (TokenKind::BraceClose, "}", 3, 1),
        ]
    );
    assert!(tokenize(&characters("")).is_empty());
    assert!(tokenize(&characters(" \t ")).is_empty());
    let wide = tokenize(&characters("h\u{e9}llo w\u{f6}rld"));
    assert_eq!(wide[1].text, "w\u{f6}rld");
    assert_eq!(wide[1].column, 7);
}

#[test]
fn tokens_are_parsed_into_a_tree() {
    let tokens = tokenize(&characters("fn greet [name] { say hello [name] }\n\ncall greet world\nrest"));
    let tree = parse_tokens(&tokens).unwrap();
    assert_eq!(tree.rule, Rule::Program);
    assert_eq!((tree.line, tree.column), (1, 1));
    assert_eq!(tree.children.len(), 3);
    let def = &tree.children[0].children[0];
    assert_eq!(def.rule, Rule::FunctionDef);
    assert_eq!(def.children.len(), 2);
    assert_eq!(def.children[0].rule, Rule::TextWithFunctionParams);
    assert_eq!((def.children[0].line, def.children[0].column), (1, 4));
    assert_eq!(def.children[0].children[1].rule, Rule::FunctionParam);
    assert_eq!(def.children[0].children[1].children[0].text, "name");
    let body = &def.children[1];
    assert_eq!(body.rule, Rule::Line);
    assert_eq!(body.children[0].rule, Rule::Command);
    assert_eq!((body.line, body.column), (1, 19));
    assert_eq!(body.children[0].children[0].children[2].rule, Rule::FunctionArg);
    let call = &tree.children[1].children[0];
    assert_eq!(call.rule, Rule::FunctionCall);
    assert_eq!((call.line, call.column), (3, 1));
    assert_eq!(call.children[0].children.len(), 2);
    assert_eq!((call.children[0].line, call.children[0].column), (3, 6));
    assert_eq!(tree.children[2].children[0].rule, Rule::Command);
    let program = parse_program(&tree).unwrap();
    assert_eq!(program.to_text(), "greet world {\n  say hello world\n}\nrest\n");
}
