//! Tokens, and the operators that some of them stand for.

use vstd::prelude::*;

use crate::ast::{BinaryOperator, UnaryOperator};
use crate::lox::CompileError;

verus! {

#[derive(Debug, PartialEq)]
pub struct Token {
    pub token_type: TokenType,
    pub lexeme: String,
    pub literal: Option<TokenLiteral>,
    pub line: usize,
}

#[derive(Debug, Clone, Copy, PartialEq, Eq, Structural)]
pub enum TokenType {
    // Single-character tokens.
    LeftParen,
    RightParen,
    LeftBrace,
    RightBrace,
    Comma,
    Dot,
    Minus,
    Plus,
    Semicolon,
    Slash,
    Star,
    // One or two character tokens.
    Bang,
    BangEqual,
    Equal,
    EqualEqual,
    Greater,
    GreaterEqual,
    Less,
    LessEqual,
    // Literals.
    Identifier,
    String,
    Number,
    // Keywords.
    And,
    Class,
    Else,
    False,
    Fun,
    For,
    If,
    Nil,
    Or,
    Print,
    Return,
    Super,
    This,
    True,
    Var,
    While,
    Eof,
}

/// The value that a string or number token carries. A number is held as the
/// decimal numeral of its lexeme; its value is the nearest `f64`.
#[derive(Debug, PartialEq)]
pub enum TokenLiteral {
    String(String),
    Number(String),
}

/// A token literal as mathematical values.
pub enum TokenLiteralView {
    String(Seq<char>),
    Number(Seq<char>),
}

/// A token as mathematical values.
pub struct TokenView {
    pub token_type: TokenType,
    pub lexeme: Seq<char>,
    pub literal: Option<TokenLiteralView>,
    pub line: nat,
}

impl View for TokenLiteral {
    type V = TokenLiteralView;

    open spec fn view(&self) -> TokenLiteralView {
        match self {
            TokenLiteral::String(s) => TokenLiteralView::String(s@),
            TokenLiteral::Number(n) => TokenLiteralView::Number(n@),
        }
    }
}

pub open spec fn literal_view(literal: Option<TokenLiteral>) -> Option<TokenLiteralView> {
    match literal {
        Some(l) => Some(l@),
        None => None,
    }
}

impl View for Token {
    type V = TokenView;

    open spec fn view(&self) -> TokenView {
        TokenView {
            token_type: self.token_type,
            lexeme: self.lexeme@,
            literal: literal_view(self.literal),
            line: self.line as nat,
        }
    }
}

/// The views of a sequence of tokens.
pub open spec fn tokens_view(tokens: Seq<Token>) -> Seq<TokenView> {
    tokens.map_values(|t: Token| t@)
}

pub proof fn lemma_tokens_view_push(tokens: Seq<Token>, token: Token)
    ensures
        tokens_view(tokens.push(token)) == tokens_view(tokens).push(token@),
{
    assert(tokens_view(tokens.push(token)) =~= tokens_view(tokens).push(token@));
}

impl Token {
    pub fn new(token_type: TokenType, lexeme: &str, line: usize) -> (token: Self)
        ensures
            token@ == (TokenView { token_type, lexeme: lexeme@, literal: None, line: line as nat }),
    {
        Self { token_type, lexeme: lexeme.to_owned(), literal: None, line }
    }

    pub fn with_literal(self, literal: TokenLiteral) -> (token: Self)
        ensures
            token@ == (TokenView { literal: Some(literal@), ..self@ }),
    {
        let mut token = self;
        token.literal = Some(literal);
        token
    }

    /// The line that describes this token, with `number_text` written for a
    /// number's literal.
    pub fn describe(&self, number_text: &str) -> (s: String)
        ensures
            s@ == token_line(self@, number_text@),
    {
        let mut s = self.token_type.name().to_owned();
        s.push(' ');
        s.append(self.lexeme.as_str());
        s.push(' ');
        match &self.literal {
            Some(TokenLiteral::String(value)) => s.append(value.as_str()),
            Some(TokenLiteral::Number(_)) => s.append(number_text),
            None => s.append("null"),
        }
        s
    }
}

/// The name under which a token's type is printed.
pub open spec fn token_type_name(t: TokenType) -> Seq<char> {
    match t {
        TokenType::LeftParen => "LeftParen"@,
        TokenType::RightParen => "RightParen"@,
        TokenType::LeftBrace => "LeftBrace"@,
        TokenType::RightBrace => "RightBrace"@,
        TokenType::Comma => "Comma"@,
        TokenType::Dot => "Dot"@,
        TokenType::Minus => "Minus"@,
        TokenType::Plus => "Plus"@,
        TokenType::Semicolon => "Semicolon"@,
        TokenType::Slash => "Slash"@,
        TokenType::Star => "Star"@,
        TokenType::Bang => "Bang"@,
        TokenType::BangEqual => "BangEqual"@,
        TokenType::Equal => "Equal"@,
        TokenType::EqualEqual => "EqualEqual"@,
        TokenType::Greater => "Greater"@,
        TokenType::GreaterEqual => "GreaterEqual"@,
        TokenType::Less => "Less"@,
        TokenType::LessEqual => "LessEqual"@,
        TokenType::Identifier => "Identifier"@,
        TokenType::String => "String"@,
        TokenType::Number => "Number"@,
        TokenType::And => "And"@,
        TokenType::Class => "Class"@,
        TokenType::Else => "Else"@,
        TokenType::False => "False"@,
        TokenType::Fun => "Fun"@,
        TokenType::For => "For"@,
        TokenType::If => "If"@,
        TokenType::Nil => "Nil"@,
        TokenType::Or => "Or"@,
        TokenType::Print => "Print"@,
        TokenType::Return => "Return"@,
        TokenType::Super => "Super"@,
        TokenType::This => "This"@,
        TokenType::True => "True"@,
        TokenType::Var => "Var"@,
        TokenType::While => "While"@,
        TokenType::Eof => "Eof"@,
    }
}

/// The line that describes a token: its type's name, its lexeme, and its
/// literal, or `null` where it has none. A number's literal is written as
/// `number_text`, the text of its value.
pub open spec fn token_line(t: TokenView, number_text: Seq<char>) -> Seq<char> {
    token_type_name(t.token_type) + seq![' '] + t.lexeme + seq![' '] + match t.literal {
        Some(TokenLiteralView::String(value)) => value,
        Some(TokenLiteralView::Number(_)) => number_text,
        None => "null"@,
    }
}

/// The length, first and last character of a name: enough to tell the
/// token types' names apart.
pub open spec fn name_key(s: Seq<char>) -> (nat, char, char) {
    (s.len(), s[0], s.last())
}

/// The token type whose name has the given key.
pub open spec fn type_with_key(k: (nat, char, char)) -> Option<TokenType> {
    if k == (9nat, 'L', 'n') {
        Some(TokenType::LeftParen)
    } else if k == (10nat, 'R', 'n') {
        Some(TokenType::RightParen)
    } else if k == (9nat, 'L', 'e') {
        Some(TokenType::LeftBrace)
    } else if k == (10nat, 'R', 'e') {
        Some(TokenType::RightBrace)
    } else if k == (5nat, 'C', 'a') {
        Some(TokenType::Comma)
    } else if k == (3nat, 'D', 't') {
        Some(TokenType::Dot)
    } else if k == (5nat, 'M', 's') {
        Some(TokenType::Minus)
    } else if k == (4nat, 'P', 's') {
        Some(TokenType::Plus)
    } else if k == (9nat, 'S', 'n') {
        Some(TokenType::Semicolon)
    } else if k == (5nat, 'S', 'h') {
        Some(TokenType::Slash)
    } else if k == (4nat, 'S', 'r') {
        Some(TokenType::Star)
    } else if k == (4nat, 'B', 'g') {
        Some(TokenType::Bang)
    } else if k == (9nat, 'B', 'l') {
        Some(TokenType::BangEqual)
    } else if k == (5nat, 'E', 'l') {
        Some(TokenType::Equal)
    } else if k == (10nat, 'E', 'l') {
        Some(TokenType::EqualEqual)
    } else if k == (7nat, 'G', 'r') {
        Some(TokenType::Greater)
    } else if k == (12nat, 'G', 'l') {
        Some(TokenType::GreaterEqual)
    } else if k == (4nat, 'L', 's') {
        Some(TokenType::Less)
    } else if k == (9nat, 'L', 'l') {
        Some(TokenType::LessEqual)
    } else if k == (10nat, 'I', 'r') {
        Some(TokenType::Identifier)
    } else if k == (6nat, 'S', 'g') {
        Some(TokenType::String)
    } else if k == (6nat, 'N', 'r') {
        Some(TokenType::Number)
    } else if k == (3nat, 'A', 'd') {
        Some(TokenType::And)
    } else if k == (5nat, 'C', 's') {
        Some(TokenType::Class)
    } else if k == (4nat, 'E', 'e') {
        Some(TokenType::Else)
    } else if k == (5nat, 'F', 'e') {
        Some(TokenType::False)
    } else if k == (3nat, 'F', 'n') {
        Some(TokenType::Fun)
    } else if k == (3nat, 'F', 'r') {
        Some(TokenType::For)
    } else if k == (2nat, 'I', 'f') {
        Some(TokenType::If)
    } else if k == (3nat, 'N', 'l') {
        Some(TokenType::Nil)
    } else if k == (2nat, 'O', 'r') {
        Some(TokenType::Or)
    } else if k == (5nat, 'P', 't') {
        Some(TokenType::Print)
    } else if k == (6nat, 'R', 'n') {
        Some(TokenType::Return)
    } else if k == (5nat, 'S', 'r') {
        Some(TokenType::Super)
    } else if k == (4nat, 'T', 's') {
        Some(TokenType::This)
    } else if k == (4nat, 'T', 'e') {
        Some(TokenType::True)
    } else if k == (3nat, 'V', 'r') {
        Some(TokenType::Var)
    } else if k == (5nat, 'W', 'e') {
        Some(TokenType::While)
    } else if k == (3nat, 'E', 'f') {
        Some(TokenType::Eof)
    } else {
        None
    }
}

proof fn lemma_name_key(t: TokenType)
    ensures
        type_with_key(name_key(token_type_name(t))) == Some(t),
{
    match t {
        TokenType::LeftParen => {
            reveal_strlit("LeftParen");
        },
        TokenType::RightParen => {
            reveal_strlit("RightParen");
        },
        TokenType::LeftBrace => {
            reveal_strlit("LeftBrace");
        },
        TokenType::RightBrace => {
            reveal_strlit("RightBrace");
        },
        TokenType::Comma => {
            reveal_strlit("Comma");
        },
        TokenType::Dot => {
            reveal_strlit("Dot");
        },
        TokenType::Minus => {
            reveal_strlit("Minus");
        },
        TokenType::Plus => {
            reveal_strlit("Plus");
        },
        TokenType::Semicolon => {
            reveal_strlit("Semicolon");
        },
        TokenType::Slash => {
            reveal_strlit("Slash");
        },
        TokenType::Star => {
            reveal_strlit("Star");
        },
        TokenType::Bang => {
            reveal_strlit("Bang");
        },
        TokenType::BangEqual => {
            reveal_strlit("BangEqual");
        },
        TokenType::Equal => {
            reveal_strlit("Equal");
        },
        TokenType::EqualEqual => {
            reveal_strlit("EqualEqual");
        },
        TokenType::Greater => {
            reveal_strlit("Greater");
        },
        TokenType::GreaterEqual => {
            reveal_strlit("GreaterEqual");
        },
        TokenType::Less => {
            reveal_strlit("Less");
        },
        TokenType::LessEqual => {
            reveal_strlit("LessEqual");
        },
        TokenType::Identifier => {
            reveal_strlit("Identifier");
        },
        TokenType::String => {
            reveal_strlit("String");
        },
        TokenType::Number => {
            reveal_strlit("Number");
        },
        TokenType::And => {
            reveal_strlit("And");
        },
        TokenType::Class => {
            reveal_strlit("Class");
        },
        TokenType::Else => {
            reveal_strlit("Else");
        },
        TokenType::False => {
            reveal_strlit("False");
        },
        TokenType::Fun => {
            reveal_strlit("Fun");
        },
        TokenType::For => {
            reveal_strlit("For");
        },
        TokenType::If => {
            reveal_strlit("If");
        },
        TokenType::Nil => {
            reveal_strlit("Nil");
        },
        TokenType::Or => {
            reveal_strlit("Or");
        },
        TokenType::Print => {
            reveal_strlit("Print");
        },
        TokenType::Return => {
            reveal_strlit("Return");
        },
        TokenType::Super => {
            reveal_strlit("Super");
        },
        TokenType::This => {
            reveal_strlit("This");
        },
        TokenType::True => {
            reveal_strlit("True");
        },
        TokenType::Var => {
            reveal_strlit("Var");
        },
        TokenType::While => {
            reveal_strlit("While");
        },
        TokenType::Eof => {
            reveal_strlit("Eof");
        },
    }
}

/// Distinct token types have distinct names, so a printed name tells which
/// type a token has.
pub proof fn law_token_type_names_are_distinct(t1: TokenType, t2: TokenType)
    ensures
        t1 != t2 ==> token_type_name(t1) != token_type_name(t2),
{
    lemma_name_key(t1);
    lemma_name_key(t2);
}

impl TokenType {
    pub fn name(&self) -> (s: &'static str)
        ensures
            s@ == token_type_name(*self),
    {
        match self {
            TokenType::LeftParen => "LeftParen",
            TokenType::RightParen => "RightParen",
            TokenType::LeftBrace => "LeftBrace",
            TokenType::RightBrace => "RightBrace",
            TokenType::Comma => "Comma",
            TokenType::Dot => "Dot",
            TokenType::Minus => "Minus",
            TokenType::Plus => "Plus",
            TokenType::Semicolon => "Semicolon",
            TokenType::Slash => "Slash",
            TokenType::Star => "Star",
            TokenType::Bang => "Bang",
            TokenType::BangEqual => "BangEqual",
            TokenType::Equal => "Equal",
            TokenType::EqualEqual => "EqualEqual",
            TokenType::Greater => "Greater",
            TokenType::GreaterEqual => "GreaterEqual",
            TokenType::Less => "Less",
            TokenType::LessEqual => "LessEqual",
            TokenType::Identifier => "Identifier",
            TokenType::String => "String",
            TokenType::Number => "Number",
            TokenType::And => "And",
            TokenType::Class => "Class",
            TokenType::Else => "Else",
            TokenType::False => "False",
            TokenType::Fun => "Fun",
            TokenType::For => "For",
            TokenType::If => "If",
            TokenType::Nil => "Nil",
            TokenType::Or => "Or",
            TokenType::Print => "Print",
            TokenType::Return => "Return",
            TokenType::Super => "Super",
            TokenType::This => "This",
            TokenType::True => "True",
            TokenType::Var => "Var",
            TokenType::While => "While",
            TokenType::Eof => "Eof",
        }
    }
}

/// The binary operator that a token of the given type stands for.
pub open spec fn binary_operator_of(t: TokenType) -> Option<BinaryOperator> {
    match t {
        TokenType::EqualEqual => Some(BinaryOperator::Equals),
        TokenType::BangEqual => Some(BinaryOperator::NotEquals),
        TokenType::Less => Some(BinaryOperator::LessThan),
        TokenType::LessEqual => Some(BinaryOperator::LessThanEqual),
        TokenType::Greater => Some(BinaryOperator::GreaterThan),
        TokenType::GreaterEqual => Some(BinaryOperator::GreaterThanEqual),
        TokenType::Plus => Some(BinaryOperator::Plus),
        TokenType::Minus => Some(BinaryOperator::Minus),
        TokenType::Star => Some(BinaryOperator::Times),
        TokenType::Slash => Some(BinaryOperator::Divide),
        _ => None,
    }
}

/// The unary operator that a token of the given type stands for.
pub open spec fn unary_operator_of(t: TokenType) -> Option<UnaryOperator> {
    match t {
        TokenType::Minus => Some(UnaryOperator::Negate),
        TokenType::Bang => Some(UnaryOperator::Not),
        _ => None,
    }
}

/// The error that reports a token that was not what was expected.
pub open spec fn error_at(token: TokenView, message: Seq<char>) -> crate::lox::ErrorView {
    crate::lox::ErrorView { line: token.line, at: token.lexeme, message }
}

impl BinaryOperator {
    /// The operator that `token` stands for; an error at the token where it
    /// stands for none.
    pub fn try_from(token: &Token) -> (res: Result<Self, CompileError>)
        ensures
            match binary_operator_of(token.token_type) {
                Some(op) => res == Ok::<Self, CompileError>(op),
                None => res matches Err(e) && e@ == error_at(token@, "Expected a binary operator."@),
            },
    {
        match token.token_type {
            TokenType::EqualEqual => Ok(Self::Equals),
            TokenType::BangEqual => Ok(Self::NotEquals),
            TokenType::Less => Ok(Self::LessThan),
            TokenType::LessEqual => Ok(Self::LessThanEqual),
            TokenType::Greater => Ok(Self::GreaterThan),
            TokenType::GreaterEqual => Ok(Self::GreaterThanEqual),
            TokenType::Plus => Ok(Self::Plus),
            TokenType::Minus => Ok(Self::Minus),
            TokenType::Star => Ok(Self::Times),
            TokenType::Slash => Ok(Self::Divide),
            _ => Err(
                CompileError {
                    line: token.line,
                    at: token.lexeme.clone(),
                    message: "Expected a binary operator.".to_owned(),
                },
            ),
        }
    }
}

impl UnaryOperator {
    /// The operator that `token` stands for; an error at the token where it
    /// stands for none.
    pub fn try_from(token: &Token) -> (res: Result<Self, CompileError>)
        ensures
            match unary_operator_of(token.token_type) {
                Some(op) => res == Ok::<Self, CompileError>(op),
                None => res matches Err(e) && e@ == error_at(token@, "Expected a unary operator."@),
            },
    {
        match token.token_type {
            TokenType::Minus => Ok(Self::Negate),
            TokenType::Bang => Ok(Self::Not),
            _ => Err(
                CompileError {
                    line: token.line,
                    at: token.lexeme.clone(),
                    message: "Expected a unary operator.".to_owned(),
                },
            ),
        }
    }
}

} // verus!
