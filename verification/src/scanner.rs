//! The scanner: turns source text into tokens.

use vstd::prelude::*;

use crate::lexical::{
    after, eof_token, error_on, in_class, keyword_type, lemma_lex_at_advances, lemma_line_start,
    lemma_line_step, lex_at, line_at, number_end, run_end, scan_from, token_at, CharClass, Lexed,
};
use crate::lox::{CompileError, ErrorView, LoxError};
use crate::text::{
    ascii_digit, char_is_whitespace, chars_of, identifier_char, identifier_start, string_of,
};
use crate::tokens::{
    lemma_tokens_view_push, tokens_view, Token, TokenLiteral, TokenLiteralView, TokenType,
    TokenView,
};

verus! {

pub struct Scanner {
    source: Vec<char>,
    tokens: Vec<Token>,
    start: usize,
    current: usize,
    line: usize,
}

fn char_in_class(c: char, class: CharClass) -> (b: bool)
    ensures
        b == in_class(c, class),
{
    match class {
        CharClass::Digit => ascii_digit(c),
        CharClass::IdentifierChar => identifier_char(c),
        CharClass::NotNewline => c != '\n',
        CharClass::NotQuote => c != '"',
    }
}

/// Whether `chars[from..to]` spells `word`.
fn spells(chars: &Vec<char>, from: usize, to: usize, word: &str) -> (b: bool)
    requires
        from <= to <= chars@.len(),
    ensures
        b == (chars@.subrange(from as int, to as int) == word@),
{
    let n = word.unicode_len();
    if to - from != n {
        return false;
    }
    let mut i: usize = 0;
    while i < n
        invariant
            from <= to <= chars@.len(),
            to - from == n == word@.len(),
            i <= n,
            forall|j: int| 0 <= j < i ==> chars@[from + j] == word@[j],
        decreases n - i,
    {
        if chars[from + i] != word.get_char(i) {
            assert(chars@.subrange(from as int, to as int)[i as int] != word@[i as int]);
            return false;
        }
        i = i + 1;
    }
    assert(chars@.subrange(from as int, to as int) =~= word@);
    true
}

/// The type of the word `chars[from..to]`: its keyword, or an identifier.
fn keyword_type_of(chars: &Vec<char>, from: usize, to: usize) -> (t: TokenType)
    requires
        from <= to <= chars@.len(),
    ensures
        t == keyword_type(chars@.subrange(from as int, to as int)),
{
    if spells(chars, from, to, "and") {
        TokenType::And
    } else if spells(chars, from, to, "class") {
        TokenType::Class
    } else if spells(chars, from, to, "else") {
        TokenType::Else
    } else if spells(chars, from, to, "false") {
        TokenType::False
    } else if spells(chars, from, to, "for") {
        TokenType::For
    } else if spells(chars, from, to, "fun") {
        TokenType::Fun
    } else if spells(chars, from, to, "if") {
        TokenType::If
    } else if spells(chars, from, to, "nil") {
        TokenType::Nil
    } else if spells(chars, from, to, "or") {
        TokenType::Or
    } else if spells(chars, from, to, "print") {
        TokenType::Print
    } else if spells(chars, from, to, "return") {
        TokenType::Return
    } else if spells(chars, from, to, "super") {
        TokenType::Super
    } else if spells(chars, from, to, "this") {
        TokenType::This
    } else if spells(chars, from, to, "true") {
        TokenType::True
    } else if spells(chars, from, to, "var") {
        TokenType::Var
    } else if spells(chars, from, to, "while") {
        TokenType::While
    } else {
        TokenType::Identifier
    }
}

impl Scanner {
    /// The source text, as characters.
    pub closed spec fn source_view(&self) -> Seq<char> {
        self.source@
    }

    /// The tokens produced so far.
    pub closed spec fn emitted(&self) -> Seq<TokenView> {
        tokens_view(self.tokens@)
    }

    /// The position, in characters, up to which the source has been read.
    pub closed spec fn position(&self) -> int {
        self.current as int
    }

    pub closed spec fn wf(&self) -> bool {
        &&& self.source@.len() < usize::MAX
        &&& self.start <= self.current <= self.source@.len()
        &&& self.line == line_at(self.source@, self.current as int)
    }

    pub fn new(source: &str) -> (scanner: Self)
        requires
            source@.len() < usize::MAX,
        ensures
            scanner.wf(),
            scanner.source_view() == source@,
            scanner.emitted() == Seq::<TokenView>::empty(),
            scanner.position() == 0,
    {
        let chars = chars_of(source);
        proof {
            lemma_line_start(chars@);
        }
        let scanner = Self { source: chars, tokens: Vec::new(), start: 0, current: 0, line: 1 };
        assert(scanner.emitted() =~= Seq::<TokenView>::empty());
        scanner
    }

    /// Scans the rest of the source: the tokens already produced, then those
    /// of the rest of the source and the end-of-file token; or the first error.
    pub fn scan(self) -> (res: Result<Vec<Token>, LoxError>)
        requires
            self.wf(),
        ensures
            res matches Ok(tokens) ==> after(self.emitted(), scan_from(self.source_view(), self.position()))
                == Ok::<Seq<TokenView>, ErrorView>(tokens_view(tokens@)),
            res matches Err(error) ==> error matches LoxError::Compile(e) && after(
                self.emitted(),
                scan_from(self.source_view(), self.position()),
            ) == Err::<Seq<TokenView>, ErrorView>(e@),
    {
        let ghost target = after(self.emitted(), scan_from(self.source_view(), self.position()));
        let mut scanner = self;
        let ghost src = scanner.source@;
        while !scanner.is_at_end()
            invariant
                scanner.wf(),
                scanner.source@ == src,
                after(tokens_view(scanner.tokens@), scan_from(src, scanner.current as int)) == target,
                target == after(self.emitted(), scan_from(self.source_view(), self.position())),
            decreases src.len() - scanner.current,
        {
            // We are at the beginning of the next lexeme
            scanner.start = scanner.current;
            let ghost pos = scanner.current as int;
            let ghost done = tokens_view(scanner.tokens@);
            proof {
                lemma_lex_at_advances(src, pos);
            }
            scanner.scan_token()?;
            proof {
                match lex_at(src, pos) {
                    Lexed::Token { token_type, literal, end } => {
                        let t = token_at(src, pos, end, token_type, literal);
                        match scan_from(src, end) {
                            Ok(rest) => {
                                assert(done.push(t) + rest =~= done + (seq![t] + rest));
                            },
                            Err(e) => {},
                        }
                    },
                    _ => {},
                }
            }
        }
        scanner.start = scanner.current;
        let ghost done = tokens_view(scanner.tokens@);
        scanner.add_token(TokenType::Eof);
        assert(done + seq![eof_token(src)] =~= done.push(eof_token(src)));
        Ok(scanner.tokens)
    }

    /// Reads what starts at the current position.
    fn scan_token(&mut self) -> (res: Result<(), LoxError>)
        requires
            old(self).wf(),
            old(self).start == old(self).current < old(self).source@.len(),
        ensures
            final(self).wf(),
            final(self).source@ == old(self).source@,
            final(self).start == old(self).start,
            match lex_at(old(self).source@, old(self).current as int) {
                Lexed::Token { token_type, literal, end } => {
                    &&& res is Ok
                    &&& final(self).current == end
                    &&& tokens_view(final(self).tokens@) == tokens_view(old(self).tokens@).push(
                        token_at(old(self).source@, old(self).current as int, end, token_type, literal),
                    )
                },
                Lexed::Skip { end } => {
                    &&& res is Ok
                    &&& final(self).current == end
                    &&& final(self).tokens@ == old(self).tokens@
                },
                Lexed::Error { message, at } => {
                    &&& res matches Err(LoxError::Compile(e)) && e@ == error_on(old(self).source@, at, message)
                    &&& final(self).current == at
                    &&& final(self).tokens@ == old(self).tokens@
                },
            },
    {
        let ghost src = self.source@;
        let ghost pos = self.current as int;
        if let Some(c) = self.advance() {
            match c {
                '(' => {
                    self.add_token(TokenType::LeftParen);
                    return Ok(());
                },
                ')' => {
                    self.add_token(TokenType::RightParen);
                    return Ok(());
                },
                '{' => {
                    self.add_token(TokenType::LeftBrace);
                    return Ok(());
                },
                '}' => {
                    self.add_token(TokenType::RightBrace);
                    return Ok(());
                },
                ',' => {
                    self.add_token(TokenType::Comma);
                    return Ok(());
                },
                '.' => {
                    self.add_token(TokenType::Dot);
                    return Ok(());
                },
                '-' => {
                    self.add_token(TokenType::Minus);
                    return Ok(());
                },
                '+' => {
                    self.add_token(TokenType::Plus);
                    return Ok(());
                },
                ';' => {
                    self.add_token(TokenType::Semicolon);
                    return Ok(());
                },
                '*' => {
                    self.add_token(TokenType::Star);
                    return Ok(());
                },
                '!' => {
                    let token_type = if self.check_next('=') {
                        TokenType::BangEqual
                    } else {
                        TokenType::Bang
                    };
                    self.add_token(token_type);
                    return Ok(());
                },
                '=' => {
                    let token_type = if self.check_next('=') {
                        TokenType::EqualEqual
                    } else {
                        TokenType::Equal
                    };
                    self.add_token(token_type);
                    return Ok(());
                },
                '<' => {
                    let token_type = if self.check_next('=') {
                        TokenType::LessEqual
                    } else {
                        TokenType::Less
                    };
                    self.add_token(token_type);
                    return Ok(());
                },
                '>' => {
                    let token_type = if self.check_next('=') {
                        TokenType::GreaterEqual
                    } else {
                        TokenType::Greater
                    };
                    self.add_token(token_type);
                    return Ok(());
                },
                '/' => {
                    if self.check_next('/') {
                        // is a comment
                        while self.peek_in(CharClass::NotNewline) && !self.is_at_end()
                            invariant
                                self.wf(),
                                self.source@ == src,
                                self.start == pos,
                                self.tokens@ == old(self).tokens@,
                                pos + 2 <= self.current,
                                run_end(src, self.current as int, CharClass::NotNewline) == run_end(
                                    src,
                                    pos + 2,
                                    CharClass::NotNewline,
                                ),
                            decreases src.len() - self.current,
                        {
                            self.advance();
                        }
                    } else {
                        self.add_token(TokenType::Slash);
                    }
                },
                '"' => {
                    self.handle_string()?;
                    return Ok(());
                },
                _ if ascii_digit(c) => {
                    self.handle_number();
                    return Ok(());
                },
                _ if identifier_start(c) => {
                    self.handle_identifier();
                    return Ok(());
                },
                _ if char_is_whitespace(c) => {},
                _ => {
                    proof {
                        reveal_strlit("");
                        assert(""@ =~= Seq::<char>::empty());
                    }
                    let error = CompileError {
                        line: self.line,
                        at: "".to_owned(),
                        message: "Unexpected character.".to_owned(),
                    };
                    return Err(LoxError::Compile(error));
                },
            }
        }
        Ok(())
    }

    /// Adds the token of the given type whose lexeme is `source[start..current]`.
    fn add_token(&mut self, token_type: TokenType)
        requires
            old(self).wf(),
        ensures
            final(self).wf(),
            final(self).source@ == old(self).source@,
            final(self).start == old(self).start,
            final(self).current == old(self).current,
            tokens_view(final(self).tokens@) == tokens_view(old(self).tokens@).push(
                token_at(
                    old(self).source@,
                    old(self).start as int,
                    old(self).current as int,
                    token_type,
                    None,
                ),
            ),
    {
        let lexeme = string_of(&self.source, self.start, self.current);
        let token = Token::new(token_type, lexeme.as_str(), self.line);
        proof {
            lemma_tokens_view_push(self.tokens@, token);
        }
        self.tokens.push(token);
    }

    /// Reads one character.
    fn advance(&mut self) -> (c: Option<char>)
        requires
            old(self).wf(),
        ensures
            final(self).wf(),
            final(self).source@ == old(self).source@,
            final(self).start == old(self).start,
            final(self).tokens@ == old(self).tokens@,
            old(self).current < old(self).source@.len() ==> c == Some(old(self).source@[old(self).current as int])
                && final(self).current == old(self).current + 1,
            old(self).current >= old(self).source@.len() ==> c is None && final(self).current == old(self).current,
    {
        let character = match self.peek() {
            Some(character) => character,
            None => {
                return None;
            },
        };
        proof {
            lemma_line_step(self.source@, self.current as int);
        }
        self.current = self.current + 1;
        if character == '\n' {
            self.line = self.line + 1;
        }
        Some(character)
    }

    /// The character at the current position.
    fn peek(&self) -> (c: Option<char>)
        ensures
            self.current < self.source@.len() ==> c == Some(self.source@[self.current as int]),
            self.current >= self.source@.len() ==> c is None,
    {
        if self.current < self.source.len() {
            Some(self.source[self.current])
        } else {
            None
        }
    }

    /// The character after the current position.
    fn peek_next(&self) -> (c: Option<char>)
        requires
            self.current < usize::MAX,
        ensures
            self.current + 1 < self.source@.len() ==> c == Some(self.source@[self.current + 1]),
            self.current + 1 >= self.source@.len() ==> c is None,
    {
        if self.current + 1 < self.source.len() {
            Some(self.source[self.current + 1])
        } else {
            None
        }
    }

    /// Whether the character at the current position is in `class`.
    fn peek_in(&self, class: CharClass) -> (b: bool)
        ensures
            b == (self.current < self.source@.len() && in_class(self.source@[self.current as int], class)),
    {
        match self.peek() {
            Some(c) => char_in_class(c, class),
            None => false,
        }
    }

    /// Reads the character at the current position if it is `desired`.
    fn check_next(&mut self, desired: char) -> (b: bool)
        requires
            old(self).wf(),
        ensures
            final(self).wf(),
            final(self).source@ == old(self).source@,
            final(self).start == old(self).start,
            final(self).tokens@ == old(self).tokens@,
            b == (old(self).current < old(self).source@.len() && old(self).source@[old(self).current as int] == desired),
            final(self).current == old(self).current + if b { 1int } else { 0int },
    {
        if self.is_at_end() {
            return false;
        }
        if let Some(actual) = self.peek() {
            if actual == desired {
                self.advance();
                return true;
            }
            return false;
        } else {
            return false;
        }
    }

    fn is_at_end(&self) -> (b: bool)
        requires
            self.current <= self.source@.len(),
        ensures
            b == (self.current == self.source@.len()),
    {
        self.current == self.source.len()
    }

    /// Reads the rest of a string whose opening quote has been read.
    fn handle_string(&mut self) -> (res: Result<(), LoxError>)
        requires
            old(self).wf(),
            old(self).start < old(self).source@.len(),
            old(self).current == old(self).start + 1,
        ensures
            final(self).wf(),
            final(self).source@ == old(self).source@,
            final(self).start == old(self).start,
            ({
                let src = old(self).source@;
                let start = old(self).start as int;
                let close = run_end(src, start + 1, CharClass::NotQuote);
                if close >= src.len() {
                    &&& res matches Err(LoxError::Compile(e)) && e@ == error_on(src, src.len() as int, "Unterminated string."@)
                    &&& final(self).current == src.len()
                    &&& final(self).tokens@ == old(self).tokens@
                } else {
                    &&& res is Ok
                    &&& final(self).current == close + 1
                    &&& tokens_view(final(self).tokens@) == tokens_view(old(self).tokens@).push(
                        token_at(
                            src,
                            start,
                            close + 1,
                            TokenType::String,
                            Some(TokenLiteralView::String(src.subrange(start + 1, close))),
                        ),
                    )
                }
            }),
    {
        let ghost src = self.source@;
        let ghost start = self.start as int;
        while self.peek_in(CharClass::NotQuote) && !self.is_at_end()
            invariant
                self.wf(),
                self.source@ == src,
                self.start == start,
                self.tokens@ == old(self).tokens@,
                start + 1 <= self.current,
                run_end(src, self.current as int, CharClass::NotQuote) == run_end(src, start + 1, CharClass::NotQuote),
            decreases src.len() - self.current,
        {
            self.advance();
        }
        if self.is_at_end() {
            proof {
                reveal_strlit("");
                assert(""@ =~= Seq::<char>::empty());
            }
            let error = CompileError {
                line: self.line,
                at: "".to_owned(),
                message: "Unterminated string.".to_owned(),
            };
            return Err(LoxError::Compile(error));
        }
        // the closing "
        self.advance();
        let lexeme = string_of(&self.source, self.start, self.current);
        let value = string_of(&self.source, self.start + 1, self.current - 1);
        let token = Token::new(TokenType::String, lexeme.as_str(), self.line).with_literal(
            TokenLiteral::String(value),
        );
        proof {
            lemma_tokens_view_push(self.tokens@, token);
        }
        self.tokens.push(token);
        Ok(())
    }

    /// Reads the rest of a number whose first digit has been read.
    fn handle_number(&mut self)
        requires
            old(self).wf(),
            old(self).start < old(self).source@.len(),
            old(self).current == old(self).start + 1,
        ensures
            final(self).wf(),
            final(self).source@ == old(self).source@,
            final(self).start == old(self).start,
            ({
                let src = old(self).source@;
                let start = old(self).start as int;
                let end = number_end(src, start);
                &&& final(self).current == end
                &&& tokens_view(final(self).tokens@) == tokens_view(old(self).tokens@).push(
                    token_at(src, start, end, TokenType::Number, Some(TokenLiteralView::Number(src.subrange(start, end)))),
                )
            }),
    {
        let ghost src = self.source@;
        let ghost start = self.start as int;
        while self.peek_in(CharClass::Digit)
            invariant
                self.wf(),
                self.source@ == src,
                self.start == start,
                self.tokens@ == old(self).tokens@,
                start + 1 <= self.current,
                run_end(src, self.current as int, CharClass::Digit) == run_end(src, start + 1, CharClass::Digit),
            decreases src.len() - self.current,
        {
            self.advance();
        }
        // look for a fractional part
        let point = match self.peek() {
            Some(c) => c == '.',
            None => false,
        };
        let digit_after = match self.peek_next() {
            Some(c) => ascii_digit(c),
            None => false,
        };
        if point && digit_after {
            self.advance();
            let ghost d = self.current as int;
            while self.peek_in(CharClass::Digit)
                invariant
                    self.wf(),
                    self.source@ == src,
                    self.start == start,
                    self.tokens@ == old(self).tokens@,
                    d <= self.current,
                    run_end(src, self.current as int, CharClass::Digit) == run_end(src, d, CharClass::Digit),
                decreases src.len() - self.current,
            {
                self.advance();
            }
        }
        let lexeme = string_of(&self.source, self.start, self.current);
        let numeral = lexeme.clone();
        let token = Token::new(TokenType::Number, lexeme.as_str(), self.line).with_literal(
            TokenLiteral::Number(numeral),
        );
        proof {
            lemma_tokens_view_push(self.tokens@, token);
        }
        self.tokens.push(token);
    }

    /// Reads the rest of an identifier or keyword whose first character has
    /// been read.
    fn handle_identifier(&mut self)
        requires
            old(self).wf(),
            old(self).start < old(self).source@.len(),
            old(self).current == old(self).start + 1,
        ensures
            final(self).wf(),
            final(self).source@ == old(self).source@,
            final(self).start == old(self).start,
            ({
                let src = old(self).source@;
                let start = old(self).start as int;
                let end = run_end(src, start + 1, CharClass::IdentifierChar);
                &&& final(self).current == end
                &&& tokens_view(final(self).tokens@) == tokens_view(old(self).tokens@).push(
                    token_at(src, start, end, keyword_type(src.subrange(start, end)), None),
                )
            }),
    {
        let ghost src = self.source@;
        let ghost start = self.start as int;
        while self.peek_in(CharClass::IdentifierChar)
            invariant
                self.wf(),
                self.source@ == src,
                self.start == start,
                self.tokens@ == old(self).tokens@,
                start + 1 <= self.current,
                run_end(src, self.current as int, CharClass::IdentifierChar) == run_end(
                    src,
                    start + 1,
                    CharClass::IdentifierChar,
                ),
            decreases src.len() - self.current,
        {
            self.advance();
        }
        let token_type = keyword_type_of(&self.source, self.start, self.current);
        self.add_token(token_type);
    }
}

} // verus!
