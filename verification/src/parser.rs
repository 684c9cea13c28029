//! The recursive-descent parser of expressions.

use vstd::prelude::*;

use crate::ast::{BinaryOperator, ExprView, Expression, Literal, UnaryOperator};
use crate::grammar::{
    parse_expression, parse_level, parse_operands, takes, well_formed_stream,
    COMPARISON, EQUALITY, FACTOR, PRIMARY, TERM, UNARY,
};
use crate::lox::{CompileError, ErrorView};
use crate::tokens::{error_at, tokens_view, Token, TokenLiteral, TokenType, TokenView};

verus! {

/// Whether what a parsing function returned is the outcome `spec`, the
/// parser having stopped at `end`, after an expression or after an error.
pub open spec fn parsed_as(
    res: Result<Expression, CompileError>,
    spec: Result<(ExprView, int), (ErrorView, int)>,
    end: int,
) -> bool {
    match res {
        Ok(e) => spec == Ok::<(ExprView, int), (ErrorView, int)>((e@, end)),
        Err(err) => spec == Err::<(ExprView, int), (ErrorView, int)>((err@, end)),
    }
}

pub struct Parser<'tokens> {
    tokens: &'tokens Vec<Token>,
    current: usize,
}

impl<'tokens> Parser<'tokens> {
    /// The tokens being parsed.
    pub closed spec fn stream(&self) -> Seq<TokenView> {
        tokens_view(self.tokens@)
    }

    /// The position of the next token to read.
    pub closed spec fn position(&self) -> int {
        self.current as int
    }

    pub closed spec fn wf(&self) -> bool {
        &&& well_formed_stream(tokens_view(self.tokens@))
        &&& self.current < self.tokens@.len()
    }

    pub fn new(tokens: &'tokens Vec<Token>) -> (parser: Self)
        ensures
            parser.stream() == tokens_view(tokens@),
            parser.position() == 0,
            well_formed_stream(tokens_view(tokens@)) ==> parser.wf(),
    {
        Self { tokens, current: 0 }
    }

    /// Parses an expression at the current position. The parser then stands
    /// after the expression, or where the error left it.
    pub fn expression(&mut self) -> (res: Result<Expression, CompileError>)
        requires
            old(self).wf(),
        ensures
            final(self).wf(),
            final(self).stream() == old(self).stream(),
            parsed_as(res, parse_expression(old(self).stream(), old(self).position()), final(self).position()),
            res is Ok ==> old(self).position() < final(self).position(),
        decreases old(self).stream().len() - old(self).position(), 6nat,
    {
        self.equality()
    }

    fn equality(&mut self) -> (res: Result<Expression, CompileError>)
        requires
            old(self).wf(),
        ensures
            final(self).wf(),
            final(self).stream() == old(self).stream(),
            parsed_as(res, parse_level(old(self).stream(), EQUALITY as nat, old(self).position()), final(self).position()),
            res is Ok ==> old(self).position() < final(self).position(),
        decreases old(self).stream().len() - old(self).position(), 5nat,
    {
        let ghost ts = self.stream();
        let ghost start = self.position();
        let mut expr = self.comparison()?;
        while self.check_next(vec![TokenType::BangEqual, TokenType::EqualEqual])
            invariant
                self.wf(),
                self.stream() == ts,
                ts == old(self).stream(),
                start == old(self).position(),
                start < self.position(),
                parse_level(ts, EQUALITY as nat, start) == parse_operands(ts, EQUALITY as nat, expr@, self.position()),
            decreases ts.len() - self.position(),
        {
            let operator = BinaryOperator::try_from(
                self.previous().expect("check_next succeeded without advancing"),
            )?;
            let right = self.comparison()?;
            expr = Expression::Binary { lhs: Box::new(expr), operator, rhs: Box::new(right) };
        }
        Ok(expr)
    }

    fn comparison(&mut self) -> (res: Result<Expression, CompileError>)
        requires
            old(self).wf(),
        ensures
            final(self).wf(),
            final(self).stream() == old(self).stream(),
            parsed_as(res, parse_level(old(self).stream(), COMPARISON as nat, old(self).position()), final(self).position()),
            res is Ok ==> old(self).position() < final(self).position(),
        decreases old(self).stream().len() - old(self).position(), 4nat,
    {
        let ghost ts = self.stream();
        let ghost start = self.position();
        let mut expr = self.term()?;
        while self.check_next(
            vec![TokenType::Greater, TokenType::GreaterEqual, TokenType::Less, TokenType::LessEqual],
        )
            invariant
                self.wf(),
                self.stream() == ts,
                ts == old(self).stream(),
                start == old(self).position(),
                start < self.position(),
                parse_level(ts, COMPARISON as nat, start) == parse_operands(ts, COMPARISON as nat, expr@, self.position()),
            decreases ts.len() - self.position(),
        {
            let operator = BinaryOperator::try_from(
                self.previous().expect("check_next succeeded without advancing"),
            )?;
            let right = self.term()?;
            expr = Expression::Binary { lhs: Box::new(expr), operator, rhs: Box::new(right) };
        }
        Ok(expr)
    }

    fn term(&mut self) -> (res: Result<Expression, CompileError>)
        requires
            old(self).wf(),
        ensures
            final(self).wf(),
            final(self).stream() == old(self).stream(),
            parsed_as(res, parse_level(old(self).stream(), TERM as nat, old(self).position()), final(self).position()),
            res is Ok ==> old(self).position() < final(self).position(),
        decreases old(self).stream().len() - old(self).position(), 3nat,
    {
        let ghost ts = self.stream();
        let ghost start = self.position();
        let mut expr = self.factor()?;
        while self.check_next(vec![TokenType::Minus, TokenType::Plus])
            invariant
                self.wf(),
                self.stream() == ts,
                ts == old(self).stream(),
                start == old(self).position(),
                start < self.position(),
                parse_level(ts, TERM as nat, start) == parse_operands(ts, TERM as nat, expr@, self.position()),
            decreases ts.len() - self.position(),
        {
            let operator = BinaryOperator::try_from(
                self.previous().expect("check_next succeeded without advancing"),
            )?;
            let right = self.factor()?;
            expr = Expression::Binary { lhs: Box::new(expr), operator, rhs: Box::new(right) };
        }
        Ok(expr)
    }

    fn factor(&mut self) -> (res: Result<Expression, CompileError>)
        requires
            old(self).wf(),
        ensures
            final(self).wf(),
            final(self).stream() == old(self).stream(),
            parsed_as(res, parse_level(old(self).stream(), FACTOR as nat, old(self).position()), final(self).position()),
            res is Ok ==> old(self).position() < final(self).position(),
        decreases old(self).stream().len() - old(self).position(), 2nat,
    {
        let ghost ts = self.stream();
        let ghost start = self.position();
        let mut expr = self.unary()?;
        while self.check_next(vec![TokenType::Slash, TokenType::Star])
            invariant
                self.wf(),
                self.stream() == ts,
                ts == old(self).stream(),
                start == old(self).position(),
                start < self.position(),
                parse_level(ts, FACTOR as nat, start) == parse_operands(ts, FACTOR as nat, expr@, self.position()),
            decreases ts.len() - self.position(),
        {
            let operator = BinaryOperator::try_from(
                self.previous().expect("check_next succeeded without advancing"),
            )?;
            let right = self.unary()?;
            expr = Expression::Binary { lhs: Box::new(expr), operator, rhs: Box::new(right) };
        }
        Ok(expr)
    }

    fn unary(&mut self) -> (res: Result<Expression, CompileError>)
        requires
            old(self).wf(),
        ensures
            final(self).wf(),
            final(self).stream() == old(self).stream(),
            parsed_as(res, parse_level(old(self).stream(), UNARY as nat, old(self).position()), final(self).position()),
            res is Ok ==> old(self).position() < final(self).position(),
        decreases old(self).stream().len() - old(self).position(), 1nat,
    {
        if self.check_next(vec![TokenType::Bang, TokenType::Minus]) {
            let operator = UnaryOperator::try_from(
                self.previous().expect("check_next succeeded without advancing"),
            )?;
            let right = self.unary()?;
            return Ok(Expression::Unary { operator, rhs: Box::new(right) });
        }
        Ok(self.primary()?)
    }

    fn primary(&mut self) -> (res: Result<Expression, CompileError>)
        requires
            old(self).wf(),
        ensures
            final(self).wf(),
            final(self).stream() == old(self).stream(),
            parsed_as(res, parse_level(old(self).stream(), PRIMARY as nat, old(self).position()), final(self).position()),
            res is Ok ==> old(self).position() < final(self).position(),
        decreases old(self).stream().len() - old(self).position(), 0nat,
    {
        let kinds = vec![TokenType::False];
        assert(kinds@ == seq![TokenType::False]);
        if self.check_next(kinds) {
            return Ok(Expression::Literal(Literal::False));
        }
        let kinds = vec![TokenType::True];
        assert(kinds@ == seq![TokenType::True]);
        if self.check_next(kinds) {
            return Ok(Expression::Literal(Literal::True));
        }
        let kinds = vec![TokenType::Nil];
        assert(kinds@ == seq![TokenType::Nil]);
        if self.check_next(kinds) {
            return Ok(Expression::Literal(Literal::Nil));
        }
        let kinds = vec![TokenType::Number, TokenType::String];
        assert(kinds@ == seq![TokenType::Number, TokenType::String]);
        if self.check_next(kinds) {
            let token = self.previous().expect("check_next succeeded without advancing");
            let literal = match &token.literal {
                Some(TokenLiteral::Number(value)) => Literal::Number(value.clone()),
                Some(TokenLiteral::String(value)) => Literal::String(value.clone()),
                None => {
                    return Err(
                        CompileError {
                            line: token.line,
                            at: token.lexeme.clone(),
                            message: "Expected a literal value.".to_owned(),
                        },
                    );
                },
            };
            return Ok(Expression::Literal(literal));
        }
        let kinds = vec![TokenType::LeftParen];
        assert(kinds@ == seq![TokenType::LeftParen]);
        if self.check_next(kinds) {
            let expression = self.expression()?;
            self.consume(TokenType::RightParen, "Expect ')' after expression.")?;
            return Ok(Expression::Grouping(Box::new(expression)));
        }
        let token = self.peek().expect("token stream should end with EOF");
        Err(
            CompileError {
                line: token.line,
                at: token.lexeme.clone(),
                message: "Expect expression.".to_owned(),
            },
        )
    }

    /// Reads the token at the current position if it has type `desired`,
    /// the last token too; otherwise an error at that token with the given
    /// message, and the position stays.
    fn consume(&mut self, desired: TokenType, message: &str) -> (res: Result<&'tokens Token, CompileError>)
        requires
            old(self).wf(),
        ensures
            final(self).tokens == old(self).tokens,
            ({
                let t = old(self).stream()[old(self).position()];
                if t.token_type == desired {
                    &&& res matches Ok(token) && token@ == t
                    &&& final(self).position() == old(self).position() + 1
                } else {
                    &&& res matches Err(e) && e@ == error_at(t, message@)
                    &&& final(self).position() == old(self).position()
                }
            }),
    {
        if match self.peek() {
            Some(token) => token.token_type == desired,
            None => false,
        } {
            return Ok(self.advance().expect("peek succeeded without a token"));
        }
        let token = self.peek().expect("token stream should end with EOF");
        Err(CompileError { line: token.line, at: token.lexeme.clone(), message: message.to_owned() })
    }

    /// Reads the token at the current position if the parser takes it as one
    /// of `desired`.
    fn check_next(&mut self, desired: Vec<TokenType>) -> (b: bool)
        requires
            old(self).wf(),
        ensures
            final(self).wf(),
            final(self).stream() == old(self).stream(),
            b == takes(old(self).stream(), old(self).position(), desired@),
            final(self).position() == old(self).position() + if b { 1int } else { 0int },
    {
        if self.is_at_end() {
            return false;
        }
        let mut i: usize = 0;
        while i < desired.len()
            invariant
                self.wf(),
                self.current < self.tokens@.len() - 1,
                self.stream() == old(self).stream(),
                self.position() == old(self).position(),
                i <= desired@.len(),
                forall|j: int| 0 <= j < i ==> desired@[j] != self.tokens@[self.current as int].token_type,
            decreases desired@.len() - i,
        {
            let found = match self.peek() {
                Some(token) => token.token_type == desired[i],
                None => false,
            };
            if found {
                assert(desired@[i as int] == self.tokens@[self.current as int].token_type);
                self.advance();
                return true;
            }
            i = i + 1;
        }
        false
    }

    fn is_at_end(&self) -> (b: bool)
        requires
            self.tokens@.len() > 0,
        ensures
            b == (self.current == self.tokens@.len() - 1),
    {
        self.current == self.tokens.len() - 1
    }

    /// The token at the current position.
    fn peek(&self) -> (t: Option<&'tokens Token>)
        ensures
            self.current < self.tokens@.len() ==> (t matches Some(token) && token == self.tokens@[self.current as int]),
            self.current >= self.tokens@.len() ==> t is None,
    {
        let tokens: &'tokens Vec<Token> = self.tokens;
        if self.current < tokens.len() {
            Some(&tokens[self.current])
        } else {
            None
        }
    }

    /// Reads the token at the current position.
    fn advance(&mut self) -> (t: Option<&'tokens Token>)
        requires
            old(self).current < old(self).tokens@.len(),
        ensures
            final(self).tokens == old(self).tokens,
            final(self).current == old(self).current + 1,
            t matches Some(token) && token == old(self).tokens@[old(self).current as int],
    {
        let i = self.current;
        let n = self.tokens.len();
        assert(i < n);
        self.current = i + 1;
        let tokens: &'tokens Vec<Token> = self.tokens;
        if i < tokens.len() {
            Some(&tokens[i])
        } else {
            None
        }
    }

    /// The token before the current position.
    fn previous(&self) -> (t: Option<&'tokens Token>)
        requires
            1 <= self.current <= self.tokens@.len(),
        ensures
            t matches Some(token) && token == self.tokens@[self.current - 1],
    {
        let tokens: &'tokens Vec<Token> = self.tokens;
        Some(&tokens[self.current - 1])
    }
}

} // verus!
