//! The interpreter's front object and its errors.

use vstd::prelude::*;

verus! {

/// The interpreter. Reading files and the prompt, and printing, is done by
/// the program around the library; the scanning it drives is `Scanner::scan`.
pub struct Lox {}

impl Lox {
    pub fn new() -> (lox: Self)
        ensures
            lox == (Lox {}),
    {
        Self {}
    }
}

/// An error found while scanning or parsing.
#[derive(Debug)]
pub struct CompileError {
    pub line: usize,
    pub at: String,
    pub message: String,
}

/// An error found while running a program.
#[derive(Debug)]
pub struct RunTimeError {
    pub line: usize,
    pub at: String,
    pub message: String,
}

#[verifier::external_type_specification]
#[verifier::external_body]
pub struct ExIoError(std::io::Error);

#[derive(Debug)]
pub enum LoxError {
    Io(std::io::Error),
    Compile(CompileError),
    RunTime(RunTimeError),
}

/// What an error says, as mathematical values.
pub struct ErrorView {
    pub line: nat,
    pub at: Seq<char>,
    pub message: Seq<char>,
}

impl View for CompileError {
    type V = ErrorView;

    open spec fn view(&self) -> ErrorView {
        ErrorView { line: self.line as nat, at: self.at@, message: self.message@ }
    }
}

} // verus!
