//! A scanner and an expression parser for the Lox language, with the
//! behaviour of each function stated in its contract over mathematical
//! models of the source text, the tokens and the expressions.
//!
//! - `lexical` states the lexical grammar over the source's characters;
//!   `scanner` implements it, and `scan_properties` proves what holds of
//!   every successful scan.
//! - `grammar` states the expression grammar over token sequences; `parser`
//!   implements it, and `parse_properties` proves where a parse stops.
//! - `ast` holds expressions and the printer that writes them in prefix form;
//!   `tokens` holds tokens; `lox` holds the interpreter and its errors;
//!   `text` holds character classes and string conversions.

pub mod ast;
pub mod grammar;
pub mod lexical;
pub mod lox;
pub mod parse_properties;
pub mod parser;
pub mod scan_properties;
pub mod scanner;
pub mod text;
pub mod tokens;
