//! The error types of the runtime and of the compile-and-execute pipeline.

use vstd::prelude::*;

verus! {

/// A fatal error raised while executing bytecode. Execution stops and the
/// error propagates to the caller of the executor.
#[derive(Clone, Copy, Debug, PartialEq, Eq, Structural)]
pub enum RuntimeError {
    /// A value of an unexpected kind met an operator or a built-in function.
    TypeMismatch,
    /// Integer division or remainder with a zero divisor.
    DivisionByZero,
    /// A call of a value that is not a function.
    NotAFunction,
    /// An opcode needed more operand-stack values than were present.
    StackUnderflow,
    /// A condition did not produce a boolean value.
    ExpectedBoolean,
    /// A key access on a value that is not a table.
    NotATable,
    /// The operation exists in the data model but the executor does not
    /// implement it.
    Unsupported,
    /// A built-in function was called with an unusable number of arguments.
    ArgumentCount,
    /// The step budget of the state ran out.
    StepsExhausted,
    /// A script requested the end of the program with the given status code.
    /// The embedder performs the actual termination.
    Exit(i64),
}

impl RuntimeError {
    /// A short description of the error.
    pub fn message(&self) -> (r: String)
        ensures
            r@.len() > 0,
    {
        let text: &str = match self {
            RuntimeError::TypeMismatch => "unsupported type",
            RuntimeError::DivisionByZero => "division by zero",
            RuntimeError::NotAFunction => "cannot call non-function object",
            RuntimeError::StackUnderflow => "operand stack underflow",
            RuntimeError::ExpectedBoolean => "expected boolean condition",
            RuntimeError::NotATable => "cannot access key on non-table object",
            RuntimeError::Unsupported => "operation is unimplemented",
            RuntimeError::ArgumentCount => "wrong number of arguments",
            RuntimeError::StepsExhausted => "step budget exhausted",
            RuntimeError::Exit(_) => "exit requested",
        };
        proof {
            reveal_strlit("unsupported type");
            reveal_strlit("division by zero");
            reveal_strlit("cannot call non-function object");
            reveal_strlit("operand stack underflow");
            reveal_strlit("expected boolean condition");
            reveal_strlit("cannot access key on non-table object");
            reveal_strlit("operation is unimplemented");
            reveal_strlit("wrong number of arguments");
            reveal_strlit("step budget exhausted");
            reveal_strlit("exit requested");
        }
        text.to_owned()
    }
}

/// A syntax error raised by the parser, with the position (in characters,
/// from the start of the source) at which it was detected and a description
/// of what was expected.
#[derive(Debug)]
pub struct ParseError {
    /// Character offset of the error in the source text.
    pub position: usize,
    /// What the parser expected at that position.
    pub expected: String,
}

impl ParseError {
    /// A short description of the error.
    pub fn message(&self) -> (r: String)
        ensures
            r@ == "syntax error: expected "@ + self.expected@,
    {
        let mut text = String::new();
        text.append("syntax error: expected ");
        text.append(self.expected.as_str());
        text
    }
}

/// An error of the compile-and-execute pipeline: either a syntax error from
/// the front end or a fatal error from the executor.
#[derive(Debug)]
pub enum Error {
    /// The source text could not be parsed.
    Parse(ParseError),
    /// Execution stopped on a fatal error.
    Runtime(RuntimeError),
}

impl Error {
    /// A short description of the error.
    pub fn message(&self) -> (r: String) {
        match self {
            Error::Parse(e) => e.message(),
            Error::Runtime(e) => e.message(),
        }
    }
}

} // verus!
