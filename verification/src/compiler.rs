//! The compiler: parses a source string into an AST and translates the AST
//! into bytecode for the [runtime](crate::runtime).
//!
//! The compiler is split into four parts:
//! - [`ast`] - the data structures representing an AST.
//! - [`lexer`] - turns source text into tokens.
//! - [`parser`] - turns tokens into an AST.
//! - [`translator`] - turns an AST into bytecode.

pub mod ast;
pub mod lexer;
pub mod parser;
pub mod translator;

use vstd::prelude::*;

use crate::runtime::bytecode::{ops_view, Bytecode};
use crate::runtime::error::ParseError;

verus! {

/// Compile a source string into bytecode: parse it into an AST and
/// translate the AST. Translation is total, so compiling succeeds exactly
/// on the scripts of the grammar, and the result is the translation of the
/// parsed tree.
pub fn compile(source: &str) -> (r: Result<Bytecode, ParseError>)
    ensures
        r is Ok <==> parser::grammar_accepts(source@),
        r matches Ok(b) ==> parser::parse_spec(source@) matches Some(tree)
            && ops_view(b.inner@) == translator::translate_spec(tree),
{
    let tree = match parser::parse(source) {
        Ok(a) => a,
        Err(e) => {
            return Err(e);
        },
    };
    let bytecode = translator::translate_node(&tree);
    Ok(bytecode)
}

} // verus!
