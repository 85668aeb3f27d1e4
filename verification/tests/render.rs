use klang::parser::ast::{Command, Program};
use klang::parser::errors::{decimal_text, ParseError};
use klang::parser::structs::{KlangProgram, Node};
use klang::parser::text::join;

fn node(text: &str, children: Vec<Node>) -> Node {
    Node { text: text.to_string(), children }
}

fn strings(items: &[&str]) -> Vec<String> {
    items.iter().map(|item| item.to_string()).collect()
}

#[test]
fn leaf_renders_as_bare_text() {
    assert_eq!(node("stop", vec![]).to_string(0), "stop\n");
    assert_eq!(node("stop", vec![]).to_string(3), "   stop\n");
    assert_eq!(node("", vec![]).to_string(0), "\n");
}

#[test]
fn children_are_indented_by_two_columns() {
    let tree = node("a", vec![node("b", vec![node("c", vec![])]), node("d", vec![])]);
    assert_eq!(tree.to_string(0), "a {\n  b {\n    c\n  }\n  d\n}\n");
    assert_eq!(tree.to_string(1), " a {\n   b {\n     c\n   }\n   d\n }\n");
}

#[test]
fn program_text_is_one_construct_per_line() {
    let program = KlangProgram {
        program: vec![node("greet world", vec![node("say hello world", vec![])]), node("rest", vec![])],
    };
    assert_eq!(program.to_text(), "greet world {\n  say hello world\n}\nrest\n");
    assert_eq!(KlangProgram { program: vec![] }.to_text(), "");
}

#[test]
fn paths_run_from_leaf_to_root() {
    let tree = node("a", vec![node("b", vec![node("c", vec![]), node("d", vec![])]), node("e", vec![])]);
    assert_eq!(
        tree.to_list(),
        vec![strings(&["c", "b", "a"]), strings(&["d", "b", "a"]), strings(&["e", "a"])]
    );
    assert_eq!(node("x", vec![]).to_list(), vec![strings(&["x"])]);
    let program = KlangProgram { program: vec![tree, node("f", vec![])] };
    assert_eq!(program.to_list().len(), 4);
    assert_eq!(program.to_list()[3], strings(&["f"]));
    assert!(KlangProgram { program: vec![] }.to_list().is_empty());
}

#[test]
fn nodes_convert_to_stored_commands_and_back() {
    let tree = node("a", vec![node("b", vec![node("c", vec![])]), node("d", vec![])]);
    let stored = tree.to_ast();
    assert_eq!(stored.text, "a");
    assert_eq!(stored.children.len(), 2);
    assert_eq!(stored.children[0].children[0].text, "c");
    let back = Node::from_ast(&stored);
    assert_eq!(back.to_string(0), tree.to_string(0));
    let program = KlangProgram { program: vec![tree, node("e", vec![])] };
    let ast = program.to_ast();
    assert_eq!(ast.commands.len(), 2);
    assert_eq!(KlangProgram::from_ast(&ast).to_text(), program.to_text());
    let direct = KlangProgram::from_ast(&Program {
        commands: vec![Command { text: "p".to_string(), children: vec![] }],
    });
    assert_eq!(direct.to_text(), "p\n");
}

#[test]
fn join_puts_the_separator_between_neighbours() {
    assert_eq!(join(&strings(&["a", "b", "c"]), ", "), "a, b, c");
    assert_eq!(join(&strings(&["a"]), ", "), "a");
    assert_eq!(join(&strings(&[]), ", "), "");
    assert_eq!(join(&strings(&["", ""]), "-"), "-");
}

#[test]
fn numbers_are_written_in_decimal() {
    assert_eq!(decimal_text(0), "0");
    assert_eq!(decimal_text(7), "7");
    assert_eq!(decimal_text(10), "10");
    assert_eq!(decimal_text(1234567890), "1234567890");
    assert_eq!(decimal_text(usize::MAX), usize::MAX.to_string());
}

#[test]
fn every_error_has_its_message() {
    let syntax = ParseError::Syntax { message: "Unexpected }".to_string(), line: 3, column: 14 };
    assert_eq!(syntax.message(), "Unexpected } (line: 3, column: 14)");
    let shape = ParseError::Structure { message: "Unknown rule: text".to_string(), line: 1, column: 1 };
    assert_eq!(shape.message(), "Unknown rule: text (line: 1, column: 1)");
    let missing = ParseError::Resolution { call: "go [x]".to_string(), known: strings(&["a", "b c"]) };
    assert_eq!(missing.message(), "Function not found: { go [x] } Available functions: { a, b c }");
    let none = ParseError::Resolution { call: "go".to_string(), known: vec![] };
    assert_eq!(none.message(), "Function not found: { go } Available functions: {  }");
    let cycle = ParseError::Recursion { signature: "loopy".to_string() };
    assert_eq!(cycle.message(), "Recursive function call: loopy");
    let codec = ParseError::Codec { message: "buffer underflow".to_string() };
    assert_eq!(codec.message(), "buffer underflow");
    let made = ParseError::new("disk full".to_string());
    assert!(matches!(&made, ParseError::Codec { message } if message == "disk full"));
    assert_eq!(made.message(), "disk full");
}
