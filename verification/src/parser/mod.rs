//! The stages of the front end, in the order in which data flows through
//! them: tokens, parse tree, lines, resolved commands, stored bytes.

pub mod ast;
pub mod codec;
pub mod errors;
pub mod ir;
pub mod lang;
pub mod laws;
pub mod passes;
pub mod registry;
pub mod roundtrip;
pub mod scope;
pub mod shape;
pub mod structs;
pub mod syntax;
pub mod template;
pub mod text;
pub mod tokens;
pub mod wire;

use crate::parser::ast::Tree;
use crate::parser::errors::{ErrorView, ParseError};
use crate::parser::lang::{compiled, parse_program};
use crate::parser::structs::KlangProgram;
use crate::parser::syntax::{parse_tokens, parsed};
use crate::parser::tokens::{characters, lexed, tokenize};
use vstd::prelude::*;

verus! {

/// What a source text compiles to: its tokens are parsed into a tree, the
/// tree is built into lines, and the lines are resolved. The first stage
/// that fails gives the error.
pub open spec fn compiled_source(input: Seq<char>) -> Result<Seq<Tree>, ErrorView> {
    match parsed(lexed(input, 0)) {
        Err(error) => Err(error),
        Ok(tree) => compiled(tree),
    }
}

/// Compiles a source text into its resolved program.
pub fn parse_string(input: &str) -> (result: Result<KlangProgram, ParseError>)
    ensures
        match compiled_source(input@) {
            Ok(trees) => result is Ok && result->Ok_0@ == trees,
            Err(error) => result is Err && result->Err_0@ == error,
        },
{
    let chars = characters(input);
    let tokens = tokenize(&chars);
    match parse_tokens(&tokens) {
        Ok(tree) => parse_program(&tree),
        Err(error) => Err(error),
    }
}

} // verus!
