//! The expression grammar of Lox, as mathematical functions of a token
//! sequence:
//!
//! ```text
//! expression -> equality
//! equality   -> comparison ( ( "!=" | "==" ) comparison )*
//! comparison -> term ( ( ">" | ">=" | "<" | "<=" ) term )*
//! term       -> factor ( ( "-" | "+" ) factor )*
//! factor     -> unary ( ( "/" | "*" ) unary )*
//! unary      -> ( "!" | "-" ) unary | primary
//! primary    -> "false" | "true" | "nil" | NUMBER | STRING | "(" expression ")"
//! ```
//!
//! Levels are numbered from `primary` (0) up to `expression` (6). A parse
//! starts at a position and gives the expression with the position after it,
//! or the first error with the position at which the parser stands after it. The last token is never taken as part of an
//! expression: it is the end of the stream.

use vstd::prelude::*;

use crate::ast::{ExprView, LiteralView};
use crate::lox::ErrorView;
use crate::tokens::{
    binary_operator_of, error_at, unary_operator_of, TokenLiteralView, TokenType, TokenView,
};

verus! {

pub const EXPRESSION: u8 = 6;
pub const EQUALITY: u8 = 5;
pub const COMPARISON: u8 = 4;
pub const TERM: u8 = 3;
pub const FACTOR: u8 = 2;
pub const UNARY: u8 = 1;
pub const PRIMARY: u8 = 0;

/// A token stream that the parser can read: it ends with the end-of-file token.
pub open spec fn well_formed_stream(ts: Seq<TokenView>) -> bool {
    ts.len() > 0 && ts.last().token_type == TokenType::Eof
}

/// Whether `pos` is the position of the last token.
pub open spec fn at_end(ts: Seq<TokenView>, pos: int) -> bool {
    pos == ts.len() - 1
}

/// Whether the parser takes the token at `pos` as one of `types`: it is one
/// of them, and it is not the last token.
pub open spec fn takes(ts: Seq<TokenView>, pos: int, types: Seq<TokenType>) -> bool {
    &&& 0 <= pos < ts.len()
    &&& !at_end(ts, pos)
    &&& types.contains(ts[pos].token_type)
}

/// The operators of a level of binary operations.
pub open spec fn level_operators(level: nat) -> Seq<TokenType> {
    if level == EQUALITY {
        seq![TokenType::BangEqual, TokenType::EqualEqual]
    } else if level == COMPARISON {
        seq![TokenType::Greater, TokenType::GreaterEqual, TokenType::Less, TokenType::LessEqual]
    } else if level == TERM {
        seq![TokenType::Minus, TokenType::Plus]
    } else if level == FACTOR {
        seq![TokenType::Slash, TokenType::Star]
    } else {
        Seq::empty()
    }
}

/// The literal that a number or string token gives, if it carries one.
pub open spec fn literal_of(t: TokenView) -> Option<LiteralView> {
    match t.literal {
        Some(TokenLiteralView::Number(n)) => Some(LiteralView::Number(n)),
        Some(TokenLiteralView::String(s)) => Some(LiteralView::String(s)),
        None => None,
    }
}

/// The parse of the given level at `pos`. A parse never starts outside the
/// tokens, and a parse that succeeds ends after its start and before the last
/// token (`law_parse_stops_before_end`), so the conditions on positions below
/// always hold; they let the definition's termination be checked.
pub open spec fn parse_level(ts: Seq<TokenView>, level: nat, pos: int) -> Result<(ExprView, int), (ErrorView, int)>
    decreases ts.len() - pos, level, 1nat,
{
    if !(0 <= pos < ts.len()) {
        Err((ErrorView { line: 0, at: Seq::empty(), message: Seq::empty() }, pos))
    } else if level > EQUALITY {
        parse_level(ts, EQUALITY as nat, pos)
    } else if level >= FACTOR {
        match parse_level(ts, (level - 1) as nat, pos) {
            Ok((lhs, next)) => if pos < next <= ts.len() {
                parse_operands(ts, level, lhs, next)
            } else {
                Ok((lhs, next))
            },
            Err(e) => Err(e),
        }
    } else if level == UNARY {
        if takes(ts, pos, seq![TokenType::Bang, TokenType::Minus]) {
            let op = unary_operator_of(ts[pos].token_type)->0;
            match parse_level(ts, UNARY as nat, pos + 1) {
                Ok((rhs, next)) => Ok((ExprView::Unary(op, Box::new(rhs)), next)),
                Err(e) => Err(e),
            }
        } else {
            parse_level(ts, PRIMARY as nat, pos)
        }
    } else {
        if takes(ts, pos, seq![TokenType::False]) {
            Ok((ExprView::Literal(LiteralView::False), pos + 1))
        } else if takes(ts, pos, seq![TokenType::True]) {
            Ok((ExprView::Literal(LiteralView::True), pos + 1))
        } else if takes(ts, pos, seq![TokenType::Nil]) {
            Ok((ExprView::Literal(LiteralView::Nil), pos + 1))
        } else if takes(ts, pos, seq![TokenType::Number, TokenType::String]) {
            match literal_of(ts[pos]) {
                Some(l) => Ok((ExprView::Literal(l), pos + 1)),
                None => Err((error_at(ts[pos], "Expected a literal value."@), pos + 1)),
            }
        } else if takes(ts, pos, seq![TokenType::LeftParen]) {
            match parse_level(ts, EXPRESSION as nat, pos + 1) {
                Ok((inner, next)) => if 0 <= next < ts.len() && ts[next].token_type == TokenType::RightParen {
                    Ok((ExprView::Grouping(Box::new(inner)), next + 1))
                } else if 0 <= next < ts.len() {
                    Err((error_at(ts[next], "Expect ')' after expression."@), next))
                } else {
                    Ok((inner, next))
                },
                Err(e) => Err(e),
            }
        } else {
            Err((error_at(ts[pos], "Expect expression."@), pos))
        }
    }
}

/// The rest of a left-associative chain of binary operations at the given
/// level, whose left operand so far is `lhs` and which goes on at `pos`.
pub open spec fn parse_operands(ts: Seq<TokenView>, level: nat, lhs: ExprView, pos: int) -> Result<(ExprView, int), (ErrorView, int)>
    decreases ts.len() - pos, level, 0nat,
{
    if 1 <= level && takes(ts, pos, level_operators(level)) {
        let op = binary_operator_of(ts[pos].token_type)->0;
        match parse_level(ts, (level - 1) as nat, pos + 1) {
            Ok((rhs, next)) => if pos < next <= ts.len() {
                parse_operands(ts, level, ExprView::Binary(Box::new(lhs), op, Box::new(rhs)), next)
            } else {
                Ok((rhs, next))
            },
            Err(e) => Err(e),
        }
    } else {
        Ok((lhs, pos))
    }
}

/// The parse of an expression at `pos`.
pub open spec fn parse_expression(ts: Seq<TokenView>, pos: int) -> Result<(ExprView, int), (ErrorView, int)> {
    parse_level(ts, EXPRESSION as nat, pos)
}

} // verus!
