use klang::compile_file;
use klang::parser::errors::ParseError;
use klang::parser::parse_string;
use klang::parser::structs::{KlangProgram, Node};

fn leaf(text: &str) -> Node {
    Node { text: text.to_string(), children: Vec::new() }
}

fn shape(node: &Node) -> String {
    let mut out = node.text.clone();
    if !node.children.is_empty() {
        out.push('(');
        let inner: Vec<String> = node.children.iter().map(shape).collect();
        out.push_str(&inner.join(","));
        out.push(')');
    }
    out
}

fn shapes(program: &KlangProgram) -> Vec<String> {
    program.program.iter().map(shape).collect()
}

#[test]
fn source_with_definition_and_call() {
    let program = parse_string("fn greet [name] { say hello [name] }\ncall greet world\n").unwrap();
    assert_eq!(shapes(&program), vec!["greet world(say hello world)".to_string()]);
}

#[test]
fn source_with_body_on_several_lines() {
    let source = "fn wave [arm] arm {\n    raise [arm] arm\n    lower [arm] arm\n}\n\ncall wave left arm\nstop\n";
    let program = parse_string(source).unwrap();
    assert_eq!(
        shapes(&program),
        vec!["wave left arm(raise left arm,lower left arm)".to_string(), "stop".to_string()]
    );
}

#[test]
fn source_self_call_is_a_recursion_error() {
    match parse_string("fn loopy { call loopy }\ncall loopy") {
        Err(ParseError::Recursion { signature }) => assert_eq!(signature, "loopy"),
        other => panic!("expected a recursion error, got {:?}", other),
    }
}

#[test]
fn source_unknown_call_lists_known_signatures() {
    match parse_string("fn a [x] { b }\nfn c { d }\ncall e f") {
        Err(ParseError::Resolution { call, known }) => {
            assert_eq!(call, "e f");
            assert_eq!(known, vec!["a [x]".to_string(), "c".to_string()]);
        }
        other => panic!("expected a resolution error, got {:?}", other),
    }
}

#[test]
fn source_empty_text_is_an_empty_program() {
    let program = parse_string("").unwrap();
    assert!(program.program.is_empty());
    let blank = parse_string("\n  \t\r\n\n").unwrap();
    assert!(blank.program.is_empty());
}

#[test]
fn source_syntax_errors_carry_their_place() {
    match parse_string("say hi\n  }") {
        Err(ParseError::Syntax { message, line, column }) => {
            assert_eq!(message, "Unexpected }");
            assert_eq!((line, column), (2, 3));
        }
        other => panic!("expected a syntax error, got {:?}", other),
    }
    match parse_string("fn f {\n  go\n") {
        Err(ParseError::Syntax { message, line, column }) => {
            assert_eq!(message, "Expected }");
            assert_eq!((line, column), (1, 1));
        }
        other => panic!("expected a syntax error, got {:?}", other),
    }
    match parse_string("move [ ] now") {
        Err(ParseError::Syntax { message, line, column }) => {
            assert_eq!(message, "Expected a name in brackets");
            assert_eq!((line, column), (1, 6));
        }
        other => panic!("expected a syntax error, got {:?}", other),
    }
    match parse_string("move ] now") {
        Err(ParseError::Syntax { message, .. }) => assert_eq!(message, "Unexpected ]"),
        other => panic!("expected a syntax error, got {:?}", other),
    }
    match parse_string("fn {\n}") {
        Err(ParseError::Syntax { message, .. }) => assert_eq!(message, "Expected a function name"),
        other => panic!("expected a syntax error, got {:?}", other),
    }
    match parse_string("fn f\n{ }") {
        Err(ParseError::Syntax { message, .. }) => assert_eq!(message, "Expected {"),
        other => panic!("expected a syntax error, got {:?}", other),
    }
    match parse_string("call") {
        Err(ParseError::Syntax { message, .. }) => assert_eq!(message, "Expected a call target"),
        other => panic!("expected a syntax error, got {:?}", other),
    }
    match parse_string("go {") {
        Err(ParseError::Syntax { message, line, column }) => {
            assert_eq!(message, "Unexpected {");
            assert_eq!((line, column), (1, 4));
        }
        other => panic!("expected a syntax error, got {:?}", other),
    }
}

#[test]
fn source_error_message_names_the_place() {
    let error = parse_string("say hi\n  }").unwrap_err();
    assert_eq!(error.message(), "Unexpected } (line: 2, column: 3)");
}

#[test]
fn compile_to_text() {
    let bytes = compile_file("fn greet [name] { say hello [name] }\ncall greet world\nrest", false).unwrap();
    assert_eq!(String::from_utf8(bytes).unwrap(), "greet world {\n  say hello world\n}\nrest\n");
}

#[test]
fn compile_to_binary_reads_back() {
    let bytes = compile_file("fn greet [name] { say hello [name] }\ncall greet world\nrest", true).unwrap();
    let program = KlangProgram::decode(&bytes).unwrap();
    assert_eq!(shapes(&program), vec!["greet world(say hello world)".to_string(), "rest".to_string()]);
    assert_eq!(shape(&leaf("x")), "x");
}

#[test]
fn compile_reports_errors() {
    assert!(matches!(compile_file("call nothing", true), Err(ParseError::Resolution { .. })));
    assert!(matches!(compile_file("}", false), Err(ParseError::Syntax { .. })));
}
