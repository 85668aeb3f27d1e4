//! A front end for a small line-oriented language of templated commands:
//! function definitions, calls and commands are resolved into a tree of
//! plain commands, which can be rendered as text or stored in binary form.

pub mod parser;

use crate::parser::ast::Tree;
use crate::parser::codec::program_bytes;
use crate::parser::errors::ParseError;
use crate::parser::structs::rendered_all;
use crate::parser::{compiled_source, parse_string};
use vstd::prelude::*;
use vstd::utf8::encode_utf8;

verus! {

/// The bytes of the output for a resolved program: its binary form, or its
/// text in UTF-8.
pub open spec fn output_bytes(trees: Seq<Tree>, binary: bool) -> Seq<u8> {
    if binary {
        program_bytes(trees)
    } else {
        encode_utf8(rendered_all(trees, 0))
    }
}

/// Compiles a source text into the bytes of the output file: the binary
/// form of the resolved program where `binary` is set, its text otherwise.
pub fn compile_file(source: &str, binary: bool) -> (result: Result<Vec<u8>, ParseError>)
    ensures
        match compiled_source(source@) {
            Ok(trees) => result is Ok && result->Ok_0@ == output_bytes(trees, binary),
            Err(error) => result is Err && result->Err_0@ == error,
        },
{
    match parse_string(source) {
        Ok(program) => {
            if binary {
                Ok(program.encode())
            } else {
                Ok(program.to_text().as_str().as_bytes_vec())
            }
        },
        Err(error) => Err(error),
    }
}

} // verus!
