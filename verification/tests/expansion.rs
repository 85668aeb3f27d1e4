use klang::parser::ast::Command as AstCommand;
use klang::parser::errors::ParseError;
use klang::parser::ir::{Command, FunctionCall, FunctionDef, Line, Part, Program, TextTemplate};
use klang::parser::passes::{
    collect_functions, get_function_signature, ir_to_ast, match_function_call,
    process_command_with_args, process_line_with_args, process_lines, substitute_text_with_args,
};
use klang::parser::registry::Registry;
use klang::parser::scope::ArgMap;

fn lit(text: &str) -> Part {
    Part::Literal(text.to_string())
}

fn slot(name: &str) -> Part {
    Part::Placeholder(name.to_string())
}

fn template(parts: Vec<Part>) -> TextTemplate {
    TextTemplate { parts }
}

fn words(text: &str) -> TextTemplate {
    let parts = text
        .split_whitespace()
        .map(|word| {
            if word.starts_with('[') && word.ends_with(']') {
                slot(&word[1..word.len() - 1])
            } else {
                lit(word)
            }
        })
        .collect();
    TextTemplate { parts }
}

fn def(name: &str, body: Vec<Line>) -> Line {
    Line::FunctionDef(FunctionDef { name: words(name), body })
}

fn call(target: &str) -> Line {
    Line::FunctionCall(FunctionCall { target: words(target) })
}

fn cmd(text: &str) -> Line {
    Line::Command(Command { text: words(text) })
}

fn scope(pairs: &[(&str, &str)]) -> ArgMap {
    let mut map = ArgMap::new();
    for (name, value) in pairs {
        map.insert(name.to_string(), value.to_string());
    }
    map
}

fn shape(command: &AstCommand) -> String {
    let mut out = command.text.clone();
    if !command.children.is_empty() {
        out.push('(');
        let inner: Vec<String> = command.children.iter().map(shape).collect();
        out.push_str(&inner.join(","));
        out.push(')');
    }
    out
}

fn resolve(lines: Vec<Line>) -> Result<Vec<String>, ParseError> {
    ir_to_ast(&Program { lines }).map(|program| program.commands.iter().map(shape).collect())
}

fn count(command: &AstCommand) -> usize {
    1 + command.children.iter().map(count).sum::<usize>()
}

#[test]
fn greet_world_expands_to_one_nested_command() {
    let program = Program {
        lines: vec![
            Line::FunctionDef(FunctionDef {
                name: template(vec![lit("greet"), slot("name")]),
                body: vec![Line::Command(Command {
                    text: template(vec![lit("say hello"), slot("name")]),
                })],
            }),
            Line::FunctionCall(FunctionCall { target: template(vec![lit("greet"), lit("world")]) }),
        ],
    };
    let resolved = ir_to_ast(&program).unwrap();
    assert_eq!(resolved.commands.len(), 1);
    assert_eq!(resolved.commands[0].text, "greet world");
    assert_eq!(resolved.commands[0].children.len(), 1);
    assert_eq!(resolved.commands[0].children[0].text, "say hello world");
    assert!(resolved.commands[0].children[0].children.is_empty());
}

#[test]
fn self_call_is_a_recursion_error() {
    let result = resolve(vec![def("loopy", vec![call("loopy")]), call("loopy")]);
    match result {
        Err(ParseError::Recursion { signature }) => assert_eq!(signature, "loopy"),
        other => panic!("expected a recursion error, got {:?}", other),
    }
}

#[test]
fn self_call_behind_commands_is_a_recursion_error() {
    let result = resolve(vec![def("loopy", vec![cmd("a"), cmd("b c"), call("loopy")]), call("loopy")]);
    assert!(matches!(result, Err(ParseError::Recursion { .. })));
}

#[test]
fn mutual_calls_are_a_recursion_error() {
    let result = resolve(vec![
        def("ping", vec![cmd("tick"), call("pong")]),
        def("pong", vec![call("pang")]),
        def("pang", vec![call("ping")]),
        call("ping"),
    ]);
    match result {
        Err(ParseError::Recursion { signature }) => assert_eq!(signature, "ping"),
        other => panic!("expected a recursion error, got {:?}", other),
    }
}

#[test]
fn recursion_with_parameters_is_refused() {
    let result = resolve(vec![def("go [n]", vec![call("go [n]")]), call("go 1")]);
    match result {
        Err(ParseError::Recursion { signature }) => assert_eq!(signature, "go [n]"),
        other => panic!("expected a recursion error, got {:?}", other),
    }
}

#[test]
fn unused_recursive_definition_is_inert() {
    let result = resolve(vec![def("loopy", vec![call("loopy")]), cmd("fine")]).unwrap();
    assert_eq!(result, vec!["fine".to_string()]);
}

#[test]
fn unknown_call_lists_every_known_signature() {
    let result = resolve(vec![
        def("a [x]", vec![def("b", vec![])]),
        def("c d", vec![]),
        call("nothing here"),
    ]);
    match result {
        Err(ParseError::Resolution { call, known }) => {
            assert_eq!(call, "nothing here");
            assert_eq!(known, vec!["a [x]".to_string(), "b".to_string(), "c d".to_string()]);
        }
        other => panic!("expected a resolution error, got {:?}", other),
    }
}

#[test]
fn unknown_call_with_empty_registry() {
    match resolve(vec![call("nothing")]) {
        Err(ParseError::Resolution { call, known }) => {
            assert_eq!(call, "nothing");
            assert!(known.is_empty());
        }
        other => panic!("expected a resolution error, got {:?}", other),
    }
}

#[test]
fn nested_definition_is_callable_from_the_top() {
    let result = resolve(vec![
        call("inner"),
        def("outer", vec![def("inner", vec![cmd("deep")]), cmd("shallow")]),
        call("outer"),
    ])
    .unwrap();
    assert_eq!(result, vec!["inner(deep)".to_string(), "outer(shallow)".to_string()]);
}

#[test]
fn call_before_definition_resolves() {
    let result = resolve(vec![call("later"), def("later", vec![cmd("x")])]).unwrap();
    assert_eq!(result, vec!["later(x)".to_string()]);
}

#[test]
fn definition_lines_emit_nothing() {
    assert!(resolve(vec![def("f", vec![cmd("x")])]).unwrap().is_empty());
    assert!(resolve(vec![]).unwrap().is_empty());
}

#[test]
fn unbound_placeholder_keeps_its_name() {
    let result = resolve(vec![cmd("move [arm] up")]).unwrap();
    assert_eq!(result, vec!["move arm up".to_string()]);
    let text = substitute_text_with_args(&words("[a] [b]"), &scope(&[("b", "x")])).unwrap();
    assert_eq!(text, "a x");
}

#[test]
fn template_without_placeholders_ignores_the_scope() {
    let plain = words("just some words");
    let first = substitute_text_with_args(&plain, &ArgMap::new()).unwrap();
    let second =
        substitute_text_with_args(&plain, &scope(&[("just", "x"), ("some", "y"), ("words", "z")]))
            .unwrap();
    assert_eq!(first, "just some words");
    assert_eq!(second, "just some words");
    assert_eq!(substitute_text_with_args(&words(""), &scope(&[("a", "b")])).unwrap(), "");
}

#[test]
fn substitution_joins_parts_with_single_spaces() {
    let text = template(vec![lit("say hello"), slot("name"), lit("!")]);
    assert_eq!(substitute_text_with_args(&text, &scope(&[("name", "big world")])).unwrap(), "say hello big world !");
}

#[test]
fn later_binding_hides_earlier_one() {
    let mut map = scope(&[("x", "1"), ("y", "2")]);
    map.insert("x".to_string(), "3".to_string());
    assert_eq!(map.get(&"x".to_string()), Some(&"3".to_string()));
    assert_eq!(map.get(&"y".to_string()), Some(&"2".to_string()));
    assert_eq!(map.get(&"z".to_string()), None);
    let outer = scope(&[("a", "outer a"), ("b", "outer b")]);
    let inner = scope(&[("b", "inner b")]);
    let merged = outer.extended(&inner);
    assert_eq!(merged.get(&"a".to_string()), Some(&"outer a".to_string()));
    assert_eq!(merged.get(&"b".to_string()), Some(&"inner b".to_string()));
    assert_eq!(ArgMap::new().get(&"a".to_string()), None);
}

#[test]
fn signature_marks_placeholders() {
    let (signature, params) = get_function_signature(&words("move [arm] to [place] now"));
    assert_eq!(signature, "move [arm] to [place] now");
    assert_eq!(params, vec!["arm".to_string(), "place".to_string()]);
    let (empty, none) = get_function_signature(&words(""));
    assert_eq!(empty, "");
    assert!(none.is_empty());
    let (one, _) = get_function_signature(&template(vec![slot("x")]));
    assert_eq!(one, "[x]");
}

#[test]
fn matching_binds_placeholders() {
    let bindings = match_function_call(&words("greet world"), &words("greet [name]"), &ArgMap::new()).unwrap();
    assert_eq!(bindings.get(&"name".to_string()), Some(&"world".to_string()));
    assert!(match_function_call(&words("greet"), &words("greet [name]"), &ArgMap::new()).is_none());
    assert!(match_function_call(&words("greet a b"), &words("greet [name]"), &ArgMap::new()).is_none());
    assert!(match_function_call(&words("great world"), &words("greet [name]"), &ArgMap::new()).is_none());
    assert!(match_function_call(&words("[x] world"), &words("greet [name]"), &ArgMap::new()).is_none());
    let plain = match_function_call(&words("stop now"), &words("stop now"), &ArgMap::new()).unwrap();
    assert!(plain.bindings.is_empty());
    let empty = match_function_call(&words(""), &words(""), &ArgMap::new()).unwrap();
    assert!(empty.bindings.is_empty());
}

#[test]
fn matching_resolves_call_side_placeholders_in_the_callers_scope() {
    let caller = scope(&[("who", "world")]);
    let bound = match_function_call(&words("greet [who]"), &words("greet [name]"), &caller).unwrap();
    assert_eq!(bound.get(&"name".to_string()), Some(&"world".to_string()));
    let unbound = match_function_call(&words("greet [what]"), &words("greet [name]"), &caller).unwrap();
    assert_eq!(unbound.get(&"name".to_string()), Some(&"what".to_string()));
    let twice = match_function_call(&words("pair a b"), &words("pair [x] [x]"), &caller).unwrap();
    assert_eq!(twice.get(&"x".to_string()), Some(&"b".to_string()));
}

#[test]
fn scope_passes_through_nested_calls() {
    let result = resolve(vec![
        def("outer [a] [b]", vec![call("inner [a]"), cmd("use [b]")]),
        def("inner [x]", vec![cmd("got [x] and [b]")]),
        call("outer one two"),
    ])
    .unwrap();
    assert_eq!(result, vec!["outer one two(inner one(got one and two),use two)".to_string()]);
}

#[test]
fn call_text_is_substituted_in_the_callers_scope() {
    let result = resolve(vec![
        def("wrap [name]", vec![call("show [name]")]),
        def("show [name]", vec![cmd("print [name]")]),
        call("wrap it"),
    ])
    .unwrap();
    assert_eq!(result, vec!["wrap it(show it(print it))".to_string()]);
}

#[test]
fn first_registered_definition_wins_a_tie() {
    let result = resolve(vec![
        def("do [x] now", vec![cmd("first [x]")]),
        def("do it [y]", vec![cmd("second [y]")]),
        call("do it now"),
    ])
    .unwrap();
    assert_eq!(result, vec!["do it now(first it)".to_string()]);
}

#[test]
fn definition_registered_last_replaces_the_earlier_one() {
    let result = resolve(vec![
        def("f", vec![cmd("old")]),
        def("g", vec![cmd("other")]),
        def("f", vec![cmd("new")]),
        call("f"),
    ])
    .unwrap();
    assert_eq!(result, vec!["f(new)".to_string()]);
    let mut registry = Registry::new();
    for line in [def("f", vec![cmd("old")]), def("g", vec![]), def("f", vec![cmd("new")])] {
        collect_functions(&line, &mut registry).unwrap();
    }
    assert_eq!(registry.len(), 2);
    assert_eq!(registry.signatures(), vec!["f".to_string(), "g".to_string()]);
    assert_eq!(registry.find(&"g".to_string()), Some(1));
    assert_eq!(registry.find(&"h".to_string()), None);
    assert_eq!(registry.entries[0].def.body.len(), 1);
}

#[test]
fn collecting_skips_calls_and_commands() {
    let mut registry = Registry::new();
    collect_functions(&call("f"), &mut registry).unwrap();
    collect_functions(&cmd("f"), &mut registry).unwrap();
    assert_eq!(registry.len(), 0);
    collect_functions(&def("a [p] [q]", vec![def("b", vec![def("c", vec![])])]), &mut registry).unwrap();
    assert_eq!(
        registry.signatures(),
        vec!["a [p] [q]".to_string(), "b".to_string(), "c".to_string()]
    );
    assert_eq!(registry.entries[0].params, vec!["p".to_string(), "q".to_string()]);
}

#[test]
fn every_call_site_inlines_the_body() {
    let result = ir_to_ast(&Program {
        lines: vec![
            def("leaf", vec![cmd("x"), cmd("y")]),
            def("two", vec![call("leaf"), call("leaf")]),
            def("four", vec![call("two"), call("two")]),
            def("eight", vec![call("four"), call("four")]),
            call("eight"),
            call("eight"),
        ],
    })
    .unwrap();
    assert_eq!(result.commands.len(), 2);
    assert_eq!(count(&result.commands[0]), 1 + 2 + 4 + 8 + 16);
    assert_eq!(shape(&result.commands[0]), shape(&result.commands[1]));
}

#[test]
fn deep_chain_of_calls_expands() {
    let mut lines = Vec::new();
    for level in 0..200 {
        lines.push(def(&format!("level{}", level), vec![call(&format!("level{}", level + 1))]));
    }
    lines.push(def("level200", vec![cmd("bottom")]));
    lines.push(call("level0"));
    let result = ir_to_ast(&Program { lines }).unwrap();
    assert_eq!(count(&result.commands[0]), 202);
}

#[test]
fn expansion_is_repeatable() {
    let lines = || {
        vec![
            def("a [x]", vec![cmd("one [x]"), call("b [x] y")]),
            def("b [p] [q]", vec![cmd("two [p] [q]")]),
            call("a 1"),
            cmd("tail"),
        ]
    };
    assert_eq!(resolve(lines()).unwrap(), resolve(lines()).unwrap());
}

#[test]
fn failure_returns_no_partial_tree() {
    let result = resolve(vec![cmd("fine"), def("f", vec![cmd("ok"), call("missing")]), call("f")]);
    assert!(matches!(result, Err(ParseError::Resolution { .. })));
}

#[test]
fn line_functions_keep_the_call_stack() {
    let mut registry = Registry::new();
    let definition = def("f [x]", vec![cmd("got [x]")]);
    collect_functions(&definition, &mut registry).unwrap();
    let mut stack = vec!["other".to_string()];
    let out = process_line_with_args(&call("f 1"), &registry, &mut stack, &ArgMap::new()).unwrap();
    assert_eq!(out.iter().map(shape).collect::<Vec<_>>(), vec!["f 1(got 1)".to_string()]);
    assert_eq!(stack, vec!["other".to_string()]);
    let mut busy = vec!["f [x]".to_string()];
    let refused = process_line_with_args(&call("f 1"), &registry, &mut busy, &ArgMap::new());
    assert!(matches!(refused, Err(ParseError::Recursion { .. })));
    assert_eq!(busy, vec!["f [x]".to_string()]);
    assert!(process_line_with_args(&definition, &registry, &mut stack, &ArgMap::new()).unwrap().is_empty());
    let many = process_lines(&vec![cmd("a"), call("f 2"), cmd("b")], &registry, &mut stack, &ArgMap::new()).unwrap();
    assert_eq!(many.len(), 3);
    let failed = process_lines(&vec![cmd("a"), call("g"), call("f 2")], &registry, &mut stack, &ArgMap::new());
    assert!(matches!(failed, Err(ParseError::Resolution { .. })));
    assert_eq!(stack, vec!["other".to_string()]);
}

#[test]
fn command_becomes_a_leaf() {
    let leaf = process_command_with_args(&Command { text: words("turn [side]") }, &scope(&[("side", "left")])).unwrap();
    assert_eq!(leaf.text, "turn left");
    assert!(leaf.children.is_empty());
}

#[test]
fn clones_are_deep() {
    let program = Program { lines: vec![def("a [x]", vec![cmd("b [x]"), def("c", vec![call("a 1")])])] };
    let copy = program.clone();
    assert_eq!(format!("{:?}", copy), format!("{:?}", program));
}
