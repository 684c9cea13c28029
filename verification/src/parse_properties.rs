//! What holds of every parse: where it stops.

use vstd::prelude::*;

use crate::ast::{BinaryOperator, ExprView};
use crate::grammar::{
    level_operators, parse_expression, parse_level, parse_operands, takes, well_formed_stream,
    EQUALITY, EXPRESSION, FACTOR, UNARY,
};
use crate::tokens::{binary_operator_of, TokenType, TokenView};

verus! {

proof fn lemma_parse_level_positions(ts: Seq<TokenView>, level: nat, pos: int)
    requires
        well_formed_stream(ts),
        0 <= pos < ts.len(),
    ensures
        parse_level(ts, level, pos) matches Ok((_, next)) ==> pos < next < ts.len(),
    decreases ts.len() - pos, level, 1nat,
{
    if level > EQUALITY {
        lemma_parse_level_positions(ts, EQUALITY as nat, pos);
    } else if level >= FACTOR {
        lemma_parse_level_positions(ts, (level - 1) as nat, pos);
        if let Ok((lhs, next)) = parse_level(ts, (level - 1) as nat, pos) {
            lemma_parse_operands_positions(ts, level, lhs, next);
        }
    } else if level == UNARY {
        if takes(ts, pos, seq![TokenType::Bang, TokenType::Minus]) {
            lemma_parse_level_positions(ts, UNARY as nat, pos + 1);
        } else {
            lemma_parse_level_positions(ts, 0, pos);
        }
    } else {
        if takes(ts, pos, seq![TokenType::LeftParen]) {
            lemma_parse_level_positions(ts, EXPRESSION as nat, pos + 1);
        }
    }
}

proof fn lemma_parse_operands_positions(ts: Seq<TokenView>, level: nat, lhs: ExprView, pos: int)
    requires
        well_formed_stream(ts),
        0 <= pos < ts.len(),
    ensures
        parse_operands(ts, level, lhs, pos) matches Ok((_, next)) ==> pos <= next < ts.len(),
    decreases ts.len() - pos, level, 0nat,
{
    if 1 <= level && takes(ts, pos, crate::grammar::level_operators(level)) {
        lemma_parse_level_positions(ts, (level - 1) as nat, pos + 1);
        if let Ok((rhs, next)) = parse_level(ts, (level - 1) as nat, pos + 1) {
            let op = crate::tokens::binary_operator_of(ts[pos].token_type)->0;
            lemma_parse_operands_positions(ts, level, ExprView::Binary(Box::new(lhs), op, Box::new(rhs)), next);
        }
    }
}

/// A successful parse of an expression reads at least one token and stops
/// before the last token of the stream, the end-of-file token, which it
/// never reads.
pub proof fn law_parse_stops_before_end(ts: Seq<TokenView>, pos: int)
    requires
        well_formed_stream(ts),
        0 <= pos < ts.len(),
    ensures
        parse_expression(ts, pos) matches Ok((_, next)) ==> pos < next <= ts.len() - 1,
{
    lemma_parse_level_positions(ts, EXPRESSION as nat, pos);
}

/// How tightly each binary operator binds its operands: equality loosest,
/// then comparison, then addition and subtraction, then multiplication and
/// division.
pub open spec fn binding_power(op: BinaryOperator) -> nat {
    match op {
        BinaryOperator::Equals | BinaryOperator::NotEquals => 1,
        BinaryOperator::LessThan | BinaryOperator::LessThanEqual | BinaryOperator::GreaterThan
        | BinaryOperator::GreaterThanEqual => 2,
        BinaryOperator::Plus | BinaryOperator::Minus => 3,
        BinaryOperator::Times | BinaryOperator::Divide => 4,
    }
}

/// How tightly an expression holds together as an operand: a binary
/// operation as tightly as its operator binds; anything else, tighter than
/// any binary operator.
pub open spec fn top_power(e: ExprView) -> nat {
    match e {
        ExprView::Binary(_, op, _) => binding_power(op),
        _ => 5,
    }
}

/// Whether an expression tree is what precedence and left associativity
/// allow: no operand of a binary operation, unless grouped, binds more
/// loosely than its operator, and its right operand binds strictly more
/// tightly; the operand of a unary operator is no binary operation.
pub open spec fn respects_precedence(e: ExprView) -> bool
    decreases e,
{
    match e {
        ExprView::Literal(_) => true,
        ExprView::Unary(_, rhs) => respects_precedence(*rhs) && top_power(*rhs) == 5,
        ExprView::Binary(lhs, op, rhs) => {
            &&& respects_precedence(*lhs)
            &&& respects_precedence(*rhs)
            &&& top_power(*lhs) >= binding_power(op)
            &&& top_power(*rhs) > binding_power(op)
        },
        ExprView::Grouping(inner) => respects_precedence(*inner),
    }
}

/// The weakest binding that a parse of the given level can give.
spec fn level_floor(level: nat) -> nat {
    if level >= EQUALITY {
        1
    } else if level <= UNARY {
        5
    } else {
        (6 - level) as nat
    }
}

proof fn lemma_level_operator_power(level: nat, t: TokenType)
    requires
        level_operators(level).contains(t),
    ensures
        FACTOR <= level <= EQUALITY,
        binary_operator_of(t) matches Some(op) && binding_power(op) == level_floor(level),
{
    let i = choose|i: int| 0 <= i < level_operators(level).len() && level_operators(level)[i] == t;
}

proof fn lemma_parse_level_precedence(ts: Seq<TokenView>, level: nat, pos: int)
    requires
        well_formed_stream(ts),
        0 <= pos < ts.len(),
    ensures
        parse_level(ts, level, pos) matches Ok((e, _)) ==> respects_precedence(e) && top_power(e) >= level_floor(level),
    decreases ts.len() - pos, level, 1nat,
{
    if level > EQUALITY {
        lemma_parse_level_precedence(ts, EQUALITY as nat, pos);
    } else if level >= FACTOR {
        lemma_parse_level_precedence(ts, (level - 1) as nat, pos);
        lemma_parse_level_positions(ts, (level - 1) as nat, pos);
        if let Ok((lhs, next)) = parse_level(ts, (level - 1) as nat, pos) {
            lemma_parse_operands_precedence(ts, level, lhs, next);
        }
    } else if level == UNARY {
        if takes(ts, pos, seq![TokenType::Bang, TokenType::Minus]) {
            lemma_parse_level_precedence(ts, UNARY as nat, pos + 1);
        } else {
            lemma_parse_level_precedence(ts, 0, pos);
        }
    } else {
        if takes(ts, pos, seq![TokenType::LeftParen]) {
            lemma_parse_level_precedence(ts, EXPRESSION as nat, pos + 1);
            lemma_parse_level_positions(ts, EXPRESSION as nat, pos + 1);
        }
    }
}

proof fn lemma_parse_operands_precedence(ts: Seq<TokenView>, level: nat, lhs: ExprView, pos: int)
    requires
        well_formed_stream(ts),
        0 <= pos < ts.len(),
        respects_precedence(lhs),
        top_power(lhs) >= level_floor(level),
    ensures
        parse_operands(ts, level, lhs, pos) matches Ok((e, _)) ==> respects_precedence(e) && top_power(e) >= level_floor(level),
    decreases ts.len() - pos, level, 0nat,
{
    if 1 <= level && takes(ts, pos, level_operators(level)) {
        lemma_level_operator_power(level, ts[pos].token_type);
        lemma_parse_level_precedence(ts, (level - 1) as nat, pos + 1);
        lemma_parse_level_positions(ts, (level - 1) as nat, pos + 1);
        if let Ok((rhs, next)) = parse_level(ts, (level - 1) as nat, pos + 1) {
            let op = binary_operator_of(ts[pos].token_type)->0;
            let e = ExprView::Binary(Box::new(lhs), op, Box::new(rhs));
            assert(respects_precedence(e));
            lemma_parse_operands_precedence(ts, level, e, next);
        }
    }
}

/// Every expression that the parser gives obeys precedence and left
/// associativity (`respects_precedence`): `*` and `/` bind more tightly than
/// `+` and `-`, which bind more tightly than `<`, `<=`, `>` and `>=`, which
/// bind more tightly than `==` and `!=`; a chain of one level groups to the
/// left; a unary operator takes no binary operation as its operand unless it
/// is grouped.
pub proof fn law_parse_respects_precedence(ts: Seq<TokenView>, pos: int)
    requires
        well_formed_stream(ts),
        0 <= pos < ts.len(),
    ensures
        parse_expression(ts, pos) matches Ok((e, _)) ==> respects_precedence(e),
{
    lemma_parse_level_precedence(ts, EXPRESSION as nat, pos);
}

} // verus!
