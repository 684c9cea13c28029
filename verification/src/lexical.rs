//! The lexical grammar of Lox, as mathematical functions of the source text:
//! what token starts at a position, where it ends, and what a whole source
//! scans to.

use vstd::prelude::*;

use crate::lox::ErrorView;
use crate::text::{is_ascii_digit, is_identifier_char, is_identifier_start, is_white_space};
use crate::tokens::{TokenLiteralView, TokenType, TokenView};

verus! {

/// The number of line breaks in `s`.
pub open spec fn newlines(s: Seq<char>) -> nat
    decreases s.len(),
{
    if s.len() == 0 {
        0
    } else {
        newlines(s.drop_last()) + if s.last() == '\n' { 1nat } else { 0nat }
    }
}

/// The line, counting from 1, that the scanner has reached once it has read
/// the first `pos` characters of `src`.
pub open spec fn line_at(src: Seq<char>, pos: int) -> nat {
    1 + newlines(src.take(pos))
}

/// The classes of characters that the scanner reads in runs.
pub enum CharClass {
    Digit,
    IdentifierChar,
    NotNewline,
    NotQuote,
}

pub open spec fn in_class(c: char, class: CharClass) -> bool {
    match class {
        CharClass::Digit => is_ascii_digit(c),
        CharClass::IdentifierChar => is_identifier_char(c),
        CharClass::NotNewline => c != '\n',
        CharClass::NotQuote => c != '"',
    }
}

/// The first position at or after `i` whose character is not in `class`, or
/// the end of `src` if there is none.
pub open spec fn run_end(src: Seq<char>, i: int, class: CharClass) -> int
    decreases src.len() - i,
{
    if i >= src.len() {
        src.len() as int
    } else if in_class(src[i], class) {
        run_end(src, i + 1, class)
    } else {
        i
    }
}

/// Whether the character after position `pos` is `c`.
pub open spec fn followed_by(src: Seq<char>, pos: int, c: char) -> bool {
    pos + 1 < src.len() && src[pos + 1] == c
}

/// The end of the number that starts at `pos`: its digits, then a point and
/// more digits if a digit follows the point.
pub open spec fn number_end(src: Seq<char>, pos: int) -> int {
    let d = run_end(src, pos + 1, CharClass::Digit);
    if d + 1 < src.len() && src[d] == '.' && is_ascii_digit(src[d + 1]) {
        run_end(src, d + 2, CharClass::Digit)
    } else {
        d
    }
}

/// The type of the word made of identifier characters: its keyword, or an
/// identifier.
pub open spec fn keyword_type(word: Seq<char>) -> TokenType {
    if word == "and"@ {
        TokenType::And
    } else if word == "class"@ {
        TokenType::Class
    } else if word == "else"@ {
        TokenType::Else
    } else if word == "false"@ {
        TokenType::False
    } else if word == "for"@ {
        TokenType::For
    } else if word == "fun"@ {
        TokenType::Fun
    } else if word == "if"@ {
        TokenType::If
    } else if word == "nil"@ {
        TokenType::Nil
    } else if word == "or"@ {
        TokenType::Or
    } else if word == "print"@ {
        TokenType::Print
    } else if word == "return"@ {
        TokenType::Return
    } else if word == "super"@ {
        TokenType::Super
    } else if word == "this"@ {
        TokenType::This
    } else if word == "true"@ {
        TokenType::True
    } else if word == "var"@ {
        TokenType::Var
    } else if word == "while"@ {
        TokenType::While
    } else {
        TokenType::Identifier
    }
}

/// The token that a character makes on its own.
pub open spec fn single_char_token(c: char) -> Option<TokenType> {
    if c == '(' {
        Some(TokenType::LeftParen)
    } else if c == ')' {
        Some(TokenType::RightParen)
    } else if c == '{' {
        Some(TokenType::LeftBrace)
    } else if c == '}' {
        Some(TokenType::RightBrace)
    } else if c == ',' {
        Some(TokenType::Comma)
    } else if c == '.' {
        Some(TokenType::Dot)
    } else if c == '-' {
        Some(TokenType::Minus)
    } else if c == '+' {
        Some(TokenType::Plus)
    } else if c == ';' {
        Some(TokenType::Semicolon)
    } else if c == '*' {
        Some(TokenType::Star)
    } else {
        None
    }
}

/// For a character that makes a token alone or with a following `=`, the
/// two token types.
pub open spec fn one_or_two_char_token(c: char) -> Option<(TokenType, TokenType)> {
    if c == '!' {
        Some((TokenType::Bang, TokenType::BangEqual))
    } else if c == '=' {
        Some((TokenType::Equal, TokenType::EqualEqual))
    } else if c == '<' {
        Some((TokenType::Less, TokenType::LessEqual))
    } else if c == '>' {
        Some((TokenType::Greater, TokenType::GreaterEqual))
    } else {
        None
    }
}

/// What the scanner reads at one position.
pub enum Lexed {
    /// A token that ends at `end`.
    Token { token_type: TokenType, literal: Option<TokenLiteralView>, end: int },
    /// Whitespace or a comment, which ends at `end`.
    Skip { end: int },
    /// An error, reported on the line reached at position `at`.
    Error { message: Seq<char>, at: int },
}

/// What starts at position `pos` of `src`.
pub open spec fn lex_at(src: Seq<char>, pos: int) -> Lexed {
    let c = src[pos];
    if single_char_token(c) is Some {
        Lexed::Token { token_type: single_char_token(c)->0, literal: None, end: pos + 1 }
    } else if one_or_two_char_token(c) is Some {
        let (one, two) = one_or_two_char_token(c)->0;
        if followed_by(src, pos, '=') {
            Lexed::Token { token_type: two, literal: None, end: pos + 2 }
        } else {
            Lexed::Token { token_type: one, literal: None, end: pos + 1 }
        }
    } else if c == '/' {
        if followed_by(src, pos, '/') {
            Lexed::Skip { end: run_end(src, pos + 2, CharClass::NotNewline) }
        } else {
            Lexed::Token { token_type: TokenType::Slash, literal: None, end: pos + 1 }
        }
    } else if c == '"' {
        let close = run_end(src, pos + 1, CharClass::NotQuote);
        if close >= src.len() {
            Lexed::Error { message: "Unterminated string."@, at: src.len() as int }
        } else {
            Lexed::Token {
                token_type: TokenType::String,
                literal: Some(TokenLiteralView::String(src.subrange(pos + 1, close))),
                end: close + 1,
            }
        }
    } else if is_ascii_digit(c) {
        let end = number_end(src, pos);
        Lexed::Token {
            token_type: TokenType::Number,
            literal: Some(TokenLiteralView::Number(src.subrange(pos, end))),
            end,
        }
    } else if is_identifier_start(c) {
        let end = run_end(src, pos + 1, CharClass::IdentifierChar);
        Lexed::Token { token_type: keyword_type(src.subrange(pos, end)), literal: None, end }
    } else if is_white_space(c) {
        Lexed::Skip { end: pos + 1 }
    } else {
        Lexed::Error { message: "Unexpected character."@, at: pos + 1 }
    }
}

/// The token whose lexeme is `src[start..end]`.
pub open spec fn token_at(
    src: Seq<char>,
    start: int,
    end: int,
    token_type: TokenType,
    literal: Option<TokenLiteralView>,
) -> TokenView {
    TokenView { token_type, lexeme: src.subrange(start, end), literal, line: line_at(src, end) }
}

/// The token that ends every successful scan.
pub open spec fn eof_token(src: Seq<char>) -> TokenView {
    token_at(src, src.len() as int, src.len() as int, TokenType::Eof, None)
}

/// The error reported on the line reached at position `at`.
pub open spec fn error_on(src: Seq<char>, at: int, message: Seq<char>) -> ErrorView {
    ErrorView { line: line_at(src, at), at: Seq::empty(), message }
}

/// What the scan of `src` from position `pos` gives: the tokens from there on,
/// ending with the end-of-file token, or the first error.
pub open spec fn scan_from(src: Seq<char>, pos: int) -> Result<Seq<TokenView>, ErrorView>
    decreases src.len() - pos,
    via scan_from_decreases
{
    if pos < 0 || pos >= src.len() {
        Ok(seq![eof_token(src)])
    } else {
        match lex_at(src, pos) {
            Lexed::Token { token_type, literal, end } => match scan_from(src, end) {
                Ok(rest) => Ok(seq![token_at(src, pos, end, token_type, literal)] + rest),
                Err(e) => Err(e),
            },
            Lexed::Skip { end } => scan_from(src, end),
            Lexed::Error { message, at } => Err(error_on(src, at, message)),
        }
    }
}

/// What the scan of the whole of `src` gives.
pub open spec fn scan_source(src: Seq<char>) -> Result<Seq<TokenView>, ErrorView> {
    scan_from(src, 0)
}

/// The outcome of a scan that had already produced `done` before it went on
/// to produce `rest`.
pub open spec fn after(
    done: Seq<TokenView>,
    rest: Result<Seq<TokenView>, ErrorView>,
) -> Result<Seq<TokenView>, ErrorView> {
    match rest {
        Ok(tokens) => Ok(done + tokens),
        Err(e) => Err(e),
    }
}

/// A scan that had produced nothing before gives what the rest gives; so a
/// new scanner's `scan` gives `scan_source` of its source.
pub proof fn lemma_after_nothing(rest: Result<Seq<TokenView>, ErrorView>)
    ensures
        after(Seq::empty(), rest) == rest,
{
    if let Ok(tokens) = rest {
        assert(Seq::<TokenView>::empty() + tokens =~= tokens);
    }
}

/// A run of a class from `i` ends between `i` and the end of `src`; every
/// character before its end is in the class, and the one at its end is not.
pub proof fn lemma_run_end_bounds(src: Seq<char>, i: int, class: CharClass)
    requires
        0 <= i,
    ensures
        i <= src.len() ==> i <= run_end(src, i, class) <= src.len(),
        i > src.len() ==> run_end(src, i, class) == src.len(),
        forall|k: int| i <= k < run_end(src, i, class) ==> in_class(#[trigger] src[k], class),
        run_end(src, i, class) < src.len() ==> !in_class(src[run_end(src, i, class)], class),
    decreases src.len() - i,
{
    if i < src.len() && in_class(src[i], class) {
        lemma_run_end_bounds(src, i + 1, class);
    }
}

/// What is read at a position ends after it, and no later than the end.
pub proof fn lemma_lex_at_advances(src: Seq<char>, pos: int)
    requires
        0 <= pos < src.len(),
    ensures
        lex_at(src, pos) matches Lexed::Token { end, .. } ==> pos < end <= src.len(),
        lex_at(src, pos) matches Lexed::Skip { end } ==> pos < end <= src.len(),
        lex_at(src, pos) matches Lexed::Error { at, .. } ==> pos < at <= src.len(),
{
    lemma_run_end_bounds(src, pos + 1, CharClass::Digit);
    lemma_run_end_bounds(src, pos + 1, CharClass::IdentifierChar);
    lemma_run_end_bounds(src, pos + 1, CharClass::NotQuote);
    lemma_run_end_bounds(src, pos + 2, CharClass::NotNewline);
    let d = run_end(src, pos + 1, CharClass::Digit);
    lemma_run_end_bounds(src, d + 2, CharClass::Digit);
}

pub proof fn lemma_newlines_bound(s: Seq<char>)
    ensures
        newlines(s) <= s.len(),
    decreases s.len(),
{
    if s.len() > 0 {
        lemma_newlines_bound(s.drop_last());
    }
}

/// Reading one more character moves to the next line exactly when that
/// character is a line break.
pub proof fn lemma_line_step(src: Seq<char>, pos: int)
    requires
        0 <= pos < src.len(),
    ensures
        line_at(src, pos + 1) == line_at(src, pos) + if src[pos] == '\n' { 1nat } else { 0nat },
        line_at(src, pos) <= pos + 1,
{
    assert(src.take(pos + 1).drop_last() =~= src.take(pos));
    lemma_newlines_bound(src.take(pos));
}

pub proof fn lemma_line_start(src: Seq<char>)
    ensures
        line_at(src, 0) == 1,
{
    assert(src.take(0) =~= Seq::<char>::empty());
}

#[via_fn]
proof fn scan_from_decreases(src: Seq<char>, pos: int) {
    if 0 <= pos < src.len() {
        lemma_lex_at_advances(src, pos);
    }
}

} // verus!
