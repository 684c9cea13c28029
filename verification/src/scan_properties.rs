//! What holds of every successful scan: where the tokens come from in the
//! source, the shape of each kind of token, and how the scan ends.

use vstd::prelude::*;

use crate::grammar::well_formed_stream;
use crate::lexical::{
    eof_token, error_on, keyword_type, lemma_lex_at_advances, lemma_line_step,
    lemma_run_end_bounds, lex_at, line_at, number_end, one_or_two_char_token, run_end, scan_from,
    scan_source, single_char_token, token_at, CharClass, Lexed,
};
use crate::lox::ErrorView;
use crate::text::{is_ascii_digit, is_identifier_char, is_identifier_start, is_white_space};
use crate::tokens::{TokenLiteralView, TokenType, TokenView};

verus! {

pub open spec fn all_digits(s: Seq<char>) -> bool {
    forall|k: int| 0 <= k < s.len() ==> is_ascii_digit(#[trigger] s[k])
}

/// A decimal numeral: digits, optionally followed by a point and more digits.
pub open spec fn is_numeral(s: Seq<char>) -> bool {
    ||| s.len() > 0 && all_digits(s)
    ||| exists|k: int|
        0 < k < s.len() - 1 && #[trigger] s[k] == '.' && all_digits(s.take(k)) && all_digits(
            s.skip(k + 1),
        )
}

/// A word: an identifier start, then identifier characters.
pub open spec fn is_word(s: Seq<char>) -> bool {
    &&& s.len() > 0
    &&& is_identifier_start(s[0])
    &&& forall|k: int| 0 <= k < s.len() ==> is_identifier_char(#[trigger] s[k])
}

/// The token types of words: identifiers and keywords.
pub open spec fn is_word_type(t: TokenType) -> bool {
    match t {
        TokenType::Identifier | TokenType::And | TokenType::Class | TokenType::Else
        | TokenType::False | TokenType::Fun | TokenType::For | TokenType::If | TokenType::Nil
        | TokenType::Or | TokenType::Print | TokenType::Return | TokenType::Super
        | TokenType::This | TokenType::True | TokenType::Var | TokenType::While => true,
        _ => false,
    }
}

/// The shape of a token that the scanner produces before the end-of-file token.
pub open spec fn token_shape(t: TokenView) -> bool {
    if t.token_type == TokenType::String {
        let inner = t.lexeme.subrange(1, t.lexeme.len() - 1);
        &&& t.lexeme.len() >= 2
        &&& t.lexeme[0] == '"'
        &&& t.lexeme.last() == '"'
        &&& t.literal == Some(TokenLiteralView::String(inner))
        &&& !inner.contains('"')
    } else if t.token_type == TokenType::Number {
        &&& t.literal == Some(TokenLiteralView::Number(t.lexeme))
        &&& is_numeral(t.lexeme)
    } else if is_word_type(t.token_type) {
        &&& t.literal is None
        &&& is_word(t.lexeme)
        &&& keyword_type(t.lexeme) == t.token_type
    } else {
        &&& t.literal is None
        &&& t.lexeme.len() > 0
        &&& t.token_type != TokenType::Eof
    }
}

/// Whether a token of type `t` with the given lexeme, ending at `end` in
/// `src`, is as long as it can be: the character after it could not have
/// continued it.
pub open spec fn is_longest(src: Seq<char>, end: int, t: TokenType, lexeme: Seq<char>) -> bool {
    end < src.len() ==> {
        let next = src[end];
        if t == TokenType::Number {
            &&& !is_ascii_digit(next)
            &&& all_digits(lexeme) ==> !(next == '.' && end + 1 < src.len() && is_ascii_digit(src[end + 1]))
        } else if is_word_type(t) {
            !is_identifier_char(next)
        } else if t == TokenType::Bang || t == TokenType::Equal || t == TokenType::Less || t == TokenType::Greater {
            next != '='
        } else if t == TokenType::Slash {
            next != '/'
        } else {
            true
        }
    }
}

/// Where the lexemes of the tokens of `scan_from(src, pos)` lie in `src`.
spec fn scan_spans(src: Seq<char>, pos: int) -> Seq<(int, int)>
    decreases src.len() - pos,
    via scan_spans_decreases
{
    if pos < 0 || pos >= src.len() {
        seq![(src.len() as int, src.len() as int)]
    } else {
        match lex_at(src, pos) {
            Lexed::Token { end, .. } => seq![(pos, end)] + scan_spans(src, end),
            Lexed::Skip { end } => scan_spans(src, end),
            Lexed::Error { .. } => Seq::empty(),
        }
    }
}

#[via_fn]
proof fn scan_spans_decreases(src: Seq<char>, pos: int) {
    if 0 <= pos < src.len() {
        lemma_lex_at_advances(src, pos);
    }
}

proof fn lemma_number_shape(src: Seq<char>, pos: int)
    requires
        0 <= pos < src.len(),
        is_ascii_digit(src[pos]),
    ensures
        is_numeral(src.subrange(pos, number_end(src, pos))),
{
    let d = run_end(src, pos + 1, CharClass::Digit);
    lemma_run_end_bounds(src, pos + 1, CharClass::Digit);
    let end = number_end(src, pos);
    let s = src.subrange(pos, end);
    if d + 1 < src.len() && src[d] == '.' && is_ascii_digit(src[d + 1]) {
        lemma_run_end_bounds(src, d + 2, CharClass::Digit);
        let k = d - pos;
        assert(s[k] == '.');
        assert forall|m: int| 0 <= m < s.take(k).len() implies is_ascii_digit(#[trigger] s.take(k)[m]) by {
            assert(s.take(k)[m] == src[pos + m]);
        }
        assert forall|m: int| 0 <= m < s.skip(k + 1).len() implies is_ascii_digit(#[trigger] s.skip(k + 1)[m]) by {
            assert(s.skip(k + 1)[m] == src[d + 1 + m]);
        }
    } else {
        assert forall|m: int| 0 <= m < s.len() implies is_ascii_digit(#[trigger] s[m]) by {
            assert(s[m] == src[pos + m]);
        }
    }
}

proof fn lemma_token_shape(src: Seq<char>, pos: int)
    requires
        0 <= pos < src.len(),
        lex_at(src, pos) is Token,
    ensures
        lex_at(src, pos) matches Lexed::Token { token_type, literal, end } && token_shape(
            token_at(src, pos, end, token_type, literal),
        ) && is_longest(src, end, token_type, src.subrange(pos, end)),
{
    lemma_lex_at_advances(src, pos);
    let c = src[pos];
    if let Lexed::Token { token_type, literal, end } = lex_at(src, pos) {
        let t = token_at(src, pos, end, token_type, literal);
        if single_char_token(c) is Some {
        } else if c == '"' {
            let close = run_end(src, pos + 1, CharClass::NotQuote);
            lemma_run_end_bounds(src, pos + 1, CharClass::NotQuote);
            let inner = t.lexeme.subrange(1, t.lexeme.len() - 1);
            assert(inner =~= src.subrange(pos + 1, close));
            assert(t.lexeme.last() == src[close]);
            if inner.contains('"') {
                let k = choose|k: int| 0 <= k < inner.len() && inner[k] == '"';
                assert(inner[k] == src[pos + 1 + k]);
            }
        } else if is_ascii_digit(c) {
            lemma_number_shape(src, pos);
            let d = run_end(src, pos + 1, CharClass::Digit);
            lemma_run_end_bounds(src, pos + 1, CharClass::Digit);
            if d + 1 < src.len() && src[d] == '.' && is_ascii_digit(src[d + 1]) {
                lemma_run_end_bounds(src, d + 2, CharClass::Digit);
                assert(t.lexeme[d - pos] == '.');
            }
        } else if is_identifier_start(c) {
            lemma_run_end_bounds(src, pos + 1, CharClass::IdentifierChar);
            assert forall|k: int| 0 <= k < t.lexeme.len() implies is_identifier_char(#[trigger] t.lexeme[k]) by {
                assert(t.lexeme[k] == src[pos + k]);
            }
        }
    }
}

/// The tokens of `scan_from(src, pos)`, with the spans of their lexemes.
proof fn lemma_scan_from_shape(src: Seq<char>, pos: int)
    requires
        0 <= pos <= src.len(),
    ensures
        scan_from(src, pos) matches Ok(ts) ==> {
            let sp = scan_spans(src, pos);
            &&& sp.len() == ts.len() >= 1
            &&& ts.last() == eof_token(src)
            &&& forall|i: int| 0 <= i < ts.len() ==> pos <= (#[trigger] sp[i]).0 <= sp[i].1 <= src.len()
            &&& forall|i: int, j: int| 0 <= i < j < ts.len() ==> (#[trigger] sp[i]).1 <= (#[trigger] sp[j]).0
            &&& forall|i: int|
                0 <= i < ts.len() ==> (#[trigger] ts[i]).lexeme == src.subrange(sp[i].0, sp[i].1)
                    && ts[i].line == line_at(src, sp[i].1)
            &&& forall|i: int| 0 <= i < ts.len() - 1 ==> token_shape(#[trigger] ts[i])
            &&& forall|i: int| 0 <= i < ts.len() - 1 ==> is_longest(src, (#[trigger] sp[i]).1, ts[i].token_type, ts[i].lexeme)
        },
    decreases src.len() - pos,
{
    if pos < src.len() {
        lemma_lex_at_advances(src, pos);
        match lex_at(src, pos) {
            Lexed::Token { token_type, literal, end } => {
                lemma_scan_from_shape(src, end);
                lemma_token_shape(src, pos);
                if let Ok(rest) = scan_from(src, end) {
                    let t = token_at(src, pos, end, token_type, literal);
                    let ts = seq![t] + rest;
                    let sp_rest = scan_spans(src, end);
                    let sp = scan_spans(src, pos);
                    assert(sp == seq![(pos, end)] + sp_rest);
                    assert forall|i: int| 0 < i < ts.len() implies ts[i] == rest[i - 1] && sp[i] == sp_rest[i - 1] by {}
                    assert forall|i: int, j: int| 0 <= i < j < ts.len() implies (#[trigger] sp[i]).1 <= (#[trigger] sp[j]).0 by {
                        if i > 0 {
                            assert(sp[i] == sp_rest[i - 1]);
                            assert(sp[j] == sp_rest[j - 1]);
                        } else {
                            assert(sp[j] == sp_rest[j - 1]);
                        }
                    }
                    assert forall|i: int| 0 <= i < ts.len() - 1 implies token_shape(#[trigger] ts[i]) by {
                        if i > 0 {
                            assert(ts[i] == rest[i - 1]);
                        }
                    }
                    assert forall|i: int| 0 <= i < ts.len() - 1 implies is_longest(src, (#[trigger] sp[i]).1, ts[i].token_type, ts[i].lexeme) by {
                        if i > 0 {
                            assert(ts[i] == rest[i - 1]);
                            assert(sp[i] == sp_rest[i - 1]);
                        }
                    }
                    assert forall|i: int| 0 <= i < ts.len() implies pos <= (#[trigger] sp[i]).0 <= sp[i].1 <= src.len() by {
                        if i > 0 {
                            assert(sp[i] == sp_rest[i - 1]);
                        }
                    }
                    assert forall|i: int| 0 <= i < ts.len() implies (#[trigger] ts[i]).lexeme == src.subrange(sp[i].0, sp[i].1)
                        && ts[i].line == line_at(src, sp[i].1) by {
                        if i > 0 {
                            assert(ts[i] == rest[i - 1]);
                            assert(sp[i] == sp_rest[i - 1]);
                        }
                    }
                }
            },
            Lexed::Skip { end } => {
                lemma_scan_from_shape(src, end);
            },
            Lexed::Error { .. } => {},
        }
    } else {
        assert(scan_spans(src, pos) == seq![(src.len() as int, src.len() as int)]);
    }
}

pub proof fn lemma_line_monotone(src: Seq<char>, i: int, j: int)
    requires
        0 <= i <= j <= src.len(),
    ensures
        line_at(src, i) <= line_at(src, j),
    decreases j - i,
{
    if i < j {
        lemma_line_monotone(src, i, j - 1);
        lemma_line_step(src, j - 1);
    }
}

/// A successful scan ends with the end-of-file token, whose lexeme is empty
/// and whose line is the last line of the source, and no other token of it is
/// an end-of-file token.
pub proof fn law_scan_ends_with_one_eof(src: Seq<char>)
    ensures
        scan_source(src) matches Ok(ts) ==> {
            &&& ts.len() >= 1
            &&& ts.last() == eof_token(src)
            &&& ts.last().lexeme == Seq::<char>::empty()
            &&& ts.last().line == line_at(src, src.len() as int)
            &&& forall|i: int| 0 <= i < ts.len() - 1 ==> (#[trigger] ts[i]).token_type != TokenType::Eof
        },
{
    lemma_scan_from_shape(src, 0);
    if let Ok(ts) = scan_source(src) {
        assert(ts.last().lexeme =~= Seq::<char>::empty());
    }
}

/// The lexemes of a successful scan are pieces of the source, in the order
/// of the tokens and without overlap, and each token's line is the line on
/// which its lexeme ends.
pub proof fn law_lexemes_are_source_pieces(src: Seq<char>)
    ensures
        scan_source(src) matches Ok(ts) ==> exists|spans: Seq<(int, int)>| {
            &&& spans.len() == ts.len()
            &&& forall|i: int| 0 <= i < ts.len() ==> 0 <= (#[trigger] spans[i]).0 <= spans[i].1 <= src.len()
            &&& forall|i: int, j: int| 0 <= i < j < ts.len() ==> (#[trigger] spans[i]).1 <= (#[trigger] spans[j]).0
            &&& forall|i: int|
                0 <= i < ts.len() ==> (#[trigger] ts[i]).lexeme == src.subrange(spans[i].0, spans[i].1)
                    && ts[i].line == line_at(src, spans[i].1)
        },
{
    lemma_scan_from_shape(src, 0);
    if let Ok(ts) = scan_source(src) {
        let spans = scan_spans(src, 0);
        assert(spans.len() == ts.len());
    }
}

/// Each token of a successful scan before the end-of-file token is as long
/// as it can be: no digit follows a number, nor a point and a digit a number
/// without a point; no identifier character follows an identifier or keyword;
/// no `=` follows `!`, `=`, `<` or `>` taken alone; no `/` follows a slash.
pub proof fn law_tokens_are_longest_matches(src: Seq<char>)
    ensures
        scan_source(src) matches Ok(ts) ==> exists|spans: Seq<(int, int)>| {
            &&& spans.len() == ts.len()
            &&& forall|i: int|
                0 <= i < ts.len() ==> (#[trigger] ts[i]).lexeme == src.subrange(spans[i].0, spans[i].1)
            &&& forall|i: int| 0 <= i < ts.len() - 1 ==> is_longest(src, (#[trigger] spans[i]).1, ts[i].token_type, ts[i].lexeme)
        },
{
    lemma_scan_from_shape(src, 0);
    if let Ok(ts) = scan_source(src) {
        let spans = scan_spans(src, 0);
        assert(spans.len() == ts.len());
    }
}

/// The lines of the tokens of a successful scan never decrease.
pub proof fn law_token_lines_never_decrease(src: Seq<char>)
    ensures
        scan_source(src) matches Ok(ts) ==> forall|i: int, j: int|
            0 <= i <= j < ts.len() ==> (#[trigger] ts[i]).line <= (#[trigger] ts[j]).line,
{
    lemma_scan_from_shape(src, 0);
    if let Ok(ts) = scan_source(src) {
        let sp = scan_spans(src, 0);
        assert forall|i: int, j: int| 0 <= i <= j < ts.len() implies (#[trigger] ts[i]).line <= (#[trigger] ts[j]).line by {
            assert(0 <= sp[i].0 <= sp[i].1 <= src.len());
            assert(0 <= sp[j].0 <= sp[j].1 <= src.len());
            if i < j {
                assert(sp[i].1 <= sp[j].0);
            }
            lemma_line_monotone(src, sp[i].1, sp[j].1);
        }
    }
}

/// Every token of a successful scan before the end-of-file token has the
/// shape of its kind: a string's lexeme is its literal between two quotes,
/// with no quote inside; a number's literal is its lexeme, a decimal numeral;
/// an identifier or keyword is a word whose keyword lookup gives its type;
/// any other token has a lexeme and no literal.
pub proof fn law_tokens_have_their_shape(src: Seq<char>)
    ensures
        scan_source(src) matches Ok(ts) ==> forall|i: int| 0 <= i < ts.len() - 1 ==> token_shape(#[trigger] ts[i]),
{
    lemma_scan_from_shape(src, 0);
}

/// What a successful scan gives is a token stream that the parser can read.
pub proof fn law_scanned_tokens_can_be_parsed(src: Seq<char>)
    ensures
        scan_source(src) matches Ok(ts) ==> well_formed_stream(ts),
{
    lemma_scan_from_shape(src, 0);
}

/// Whether a line comment that starts at `c` runs on to position `k`: `//`
/// at `c`, and no line break from `c` to `k`.
pub open spec fn comment_reaches(src: Seq<char>, c: int, k: int) -> bool {
    &&& 0 <= c <= k < src.len()
    &&& c + 1 < src.len()
    &&& src[c] == '/'
    &&& src[c + 1] == '/'
    &&& forall|m: int| c <= m <= k ==> src[m] != '\n'
}

/// Whether position `k` lies in a line comment.
pub open spec fn in_comment(src: Seq<char>, k: int) -> bool {
    exists|c: int| #[trigger] comment_reaches(src, c, k)
}

/// Whether position `k` lies in one of the spans.
pub open spec fn covered(spans: Seq<(int, int)>, k: int) -> bool {
    exists|i: int| 0 <= i < spans.len() && (#[trigger] spans[i]).0 <= k < spans[i].1
}

proof fn lemma_scan_from_gaps(src: Seq<char>, pos: int)
    requires
        0 <= pos <= src.len(),
    ensures
        scan_from(src, pos) matches Ok(ts) ==> forall|k: int|
            pos <= k < src.len() ==> covered(scan_spans(src, pos), k) || is_white_space(#[trigger] src[k])
                || in_comment(src, k),
    decreases src.len() - pos,
{
    if pos < src.len() {
        lemma_lex_at_advances(src, pos);
        match lex_at(src, pos) {
            Lexed::Token { end, .. } => {
                lemma_scan_from_gaps(src, end);
                if let Ok(ts) = scan_from(src, pos) {
                    let sp = scan_spans(src, pos);
                    let sp_rest = scan_spans(src, end);
                    assert(sp == seq![(pos, end)] + sp_rest);
                    assert forall|k: int| pos <= k < src.len() implies covered(sp, k) || is_white_space(#[trigger] src[k])
                        || in_comment(src, k) by {
                        if k < end {
                            assert(sp[0] == (pos, end));
                        } else if covered(sp_rest, k) {
                            let i = choose|i: int| 0 <= i < sp_rest.len() && (#[trigger] sp_rest[i]).0 <= k < sp_rest[i].1;
                            assert(sp[i + 1] == sp_rest[i]);
                        }
                    }
                }
            },
            Lexed::Skip { end } => {
                lemma_scan_from_gaps(src, end);
                if let Ok(ts) = scan_from(src, pos) {
                    assert(scan_spans(src, pos) == scan_spans(src, end));
                    assert forall|k: int| pos <= k < src.len() implies covered(scan_spans(src, pos), k) || is_white_space(#[trigger] src[k])
                        || in_comment(src, k) by {
                        if k < end {
                            if src[pos] == '/' {
                                lemma_run_end_bounds(src, pos + 2, CharClass::NotNewline);
                                assert forall|m: int| pos <= m <= k implies src[m] != '\n' by {
                                    if m >= pos + 2 {
                                        assert(pos + 2 <= m < run_end(src, pos + 2, CharClass::NotNewline));
                                    }
                                }
                                assert(comment_reaches(src, pos, k));
                            }
                        }
                    }
                }
            },
            Lexed::Error { .. } => {},
        }
    }
}

/// Every character of a successfully scanned source that lies in no lexeme
/// is whitespace or part of a line comment.
pub proof fn law_rest_of_source_is_whitespace_or_comments(src: Seq<char>)
    ensures
        scan_source(src) matches Ok(ts) ==> exists|spans: Seq<(int, int)>| {
            &&& spans.len() == ts.len()
            &&& forall|i: int|
                0 <= i < ts.len() ==> (#[trigger] ts[i]).lexeme == src.subrange(spans[i].0, spans[i].1)
            &&& forall|k: int|
                0 <= k < src.len() ==> covered(spans, k) || is_white_space(#[trigger] src[k]) || in_comment(src, k)
        },
{
    lemma_scan_from_shape(src, 0);
    lemma_scan_from_gaps(src, 0);
    if let Ok(ts) = scan_source(src) {
        let spans = scan_spans(src, 0);
        assert(spans.len() == ts.len());
    }
}

/// Whether the scan, started at `from`, comes to position `to` at the start
/// of a lexeme, of whitespace or of a comment, or at the end: that is,
/// outside comments and string literals.
pub open spec fn reaches(src: Seq<char>, from: int, to: int) -> bool
    decreases src.len() - from,
    via reaches_decreases
{
    if from == to {
        true
    } else if !(0 <= from < to && from < src.len()) {
        false
    } else {
        match lex_at(src, from) {
            Lexed::Token { end, .. } => reaches(src, end, to),
            Lexed::Skip { end } => reaches(src, end, to),
            Lexed::Error { .. } => false,
        }
    }
}

#[via_fn]
proof fn reaches_decreases(src: Seq<char>, from: int, to: int) {
    if 0 <= from < src.len() {
        lemma_lex_at_advances(src, from);
    }
}

/// The characters that start a token.
pub open spec fn starts_token(c: char) -> bool {
    ||| single_char_token(c) is Some
    ||| one_or_two_char_token(c) is Some
    ||| c == '/'
    ||| c == '"'
    ||| is_ascii_digit(c)
    ||| is_identifier_start(c)
}

/// The error that the character at `p` makes where the scan comes to it:
/// a quote with no closing quote after it, or a character that starts no
/// token and is not whitespace.
pub open spec fn fault_at(src: Seq<char>, p: int) -> Option<ErrorView> {
    if !(0 <= p < src.len()) {
        None
    } else if src[p] == '"' && forall|m: int| p < m < src.len() ==> src[m] != '"' {
        Some(error_on(src, src.len() as int, "Unterminated string."@))
    } else if !starts_token(src[p]) && !is_white_space(src[p]) {
        Some(error_on(src, p + 1, "Unexpected character."@))
    } else {
        None
    }
}

proof fn lemma_fault_at(src: Seq<char>, p: int)
    requires
        0 <= p < src.len(),
    ensures
        lex_at(src, p) matches Lexed::Error { message, at } ==> fault_at(src, p) == Some(error_on(src, at, message)),
        !(lex_at(src, p) is Error) ==> fault_at(src, p) is None,
{
    lemma_run_end_bounds(src, p + 1, CharClass::NotQuote);
    let close = run_end(src, p + 1, CharClass::NotQuote);
    if src[p] == '"' {
        if close < src.len() {
            assert(src[close] == '"');
        } else {
            assert forall|m: int| p < m < src.len() implies src[m] != '"' by {
                assert(p + 1 <= m < close);
            }
        }
    }
}

proof fn lemma_reaches_forward(src: Seq<char>, from: int, to: int)
    requires
        reaches(src, from, to),
    ensures
        from <= to,
    decreases src.len() - from,
{
    if from != to {
        lemma_lex_at_advances(src, from);
        match lex_at(src, from) {
            Lexed::Token { end, .. } => lemma_reaches_forward(src, end, to),
            Lexed::Skip { end } => lemma_reaches_forward(src, end, to),
            Lexed::Error { .. } => {},
        }
    }
}

proof fn lemma_scan_from_fails(src: Seq<char>, pos: int)
    requires
        0 <= pos <= src.len(),
    ensures
        scan_from(src, pos) matches Err(e) ==> exists|p: int| #[trigger] reaches(src, pos, p) && fault_at(src, p) == Some(e),
        forall|p: int| #[trigger] reaches(src, pos, p) && fault_at(src, p) is Some
            ==> scan_from(src, pos) == Err::<Seq<TokenView>, ErrorView>(fault_at(src, p)->0),
    decreases src.len() - pos,
{
    if pos < src.len() {
        lemma_lex_at_advances(src, pos);
        lemma_fault_at(src, pos);
        match lex_at(src, pos) {
            Lexed::Error { message, at } => {
                assert(reaches(src, pos, pos));
                assert forall|p: int| #[trigger] reaches(src, pos, p) && fault_at(src, p) is Some implies scan_from(src, pos)
                    == Err::<Seq<TokenView>, ErrorView>(fault_at(src, p)->0) by {
                    assert(p == pos);
                }
            },
            Lexed::Token { end, .. } => {
                lemma_scan_from_fails(src, end);
                if let Err(e) = scan_from(src, pos) {
                    let p = choose|p: int| #[trigger] reaches(src, end, p) && fault_at(src, p) == Some(e);
                    lemma_reaches_forward(src, end, p);
                    assert(reaches(src, pos, p));
                }
                assert forall|p: int| #[trigger] reaches(src, pos, p) && fault_at(src, p) is Some implies scan_from(src, pos)
                    == Err::<Seq<TokenView>, ErrorView>(fault_at(src, p)->0) by {
                    if p != pos {
                        assert(reaches(src, end, p));
                    }
                }
            },
            Lexed::Skip { end } => {
                lemma_scan_from_fails(src, end);
                if let Err(e) = scan_from(src, pos) {
                    let p = choose|p: int| #[trigger] reaches(src, end, p) && fault_at(src, p) == Some(e);
                    lemma_reaches_forward(src, end, p);
                    assert(reaches(src, pos, p));
                }
                assert forall|p: int| #[trigger] reaches(src, pos, p) && fault_at(src, p) is Some implies scan_from(src, pos)
                    == Err::<Seq<TokenView>, ErrorView>(fault_at(src, p)->0) by {
                    if p != pos {
                        assert(reaches(src, end, p));
                    }
                }
            },
        }
    } else {
        assert forall|p: int| #[trigger] reaches(src, pos, p) && fault_at(src, p) is Some implies scan_from(src, pos)
            == Err::<Seq<TokenView>, ErrorView>(fault_at(src, p)->0) by {
            assert(p == pos);
        }
    }
}

/// A scan fails exactly where, outside comments and string literals, it
/// comes to a quote that no quote closes or to a character that starts no
/// token and is not whitespace; the error is that of the first such place.
pub proof fn law_scan_fails_at_the_first_fault(src: Seq<char>)
    ensures
        scan_source(src) matches Err(e) ==> exists|p: int| #[trigger] reaches(src, 0, p) && fault_at(src, p) == Some(e),
        forall|p: int| #[trigger] reaches(src, 0, p) && fault_at(src, p) is Some
            ==> scan_source(src) == Err::<Seq<TokenView>, ErrorView>(fault_at(src, p)->0),
{
    lemma_scan_from_fails(src, 0);
}

/// What one set of spans says of a whole successful scan: the lexemes are
/// pieces of the source, in order and without overlap; each token's line is
/// the line on which its lexeme ends; every character in no lexeme is
/// whitespace or part of a line comment; and a token carries a literal
/// exactly when it is a number or a string.
pub open spec fn spans_describe_scan(src: Seq<char>, ts: Seq<TokenView>, spans: Seq<(int, int)>) -> bool {
    &&& spans.len() == ts.len()
    &&& forall|i: int| 0 <= i < ts.len() ==> 0 <= (#[trigger] spans[i]).0 <= spans[i].1 <= src.len()
    &&& forall|i: int, j: int| 0 <= i < j < ts.len() ==> (#[trigger] spans[i]).1 <= (#[trigger] spans[j]).0
    &&& forall|i: int|
        0 <= i < ts.len() ==> (#[trigger] ts[i]).lexeme == src.subrange(spans[i].0, spans[i].1)
            && ts[i].line == line_at(src, spans[i].1)
    &&& forall|k: int|
        0 <= k < src.len() ==> covered(spans, k) || is_white_space(#[trigger] src[k]) || in_comment(src, k)
    &&& forall|i: int|
        0 <= i < ts.len() ==> ((#[trigger] ts[i]).literal is Some <==> (ts[i].token_type
            == TokenType::Number || ts[i].token_type == TokenType::String))
}

proof fn lemma_literals_by_kind(ts: Seq<TokenView>, src: Seq<char>)
    requires
        ts.len() >= 1,
        ts.last() == eof_token(src),
        forall|i: int| 0 <= i < ts.len() - 1 ==> token_shape(#[trigger] ts[i]),
    ensures
        forall|i: int|
            0 <= i < ts.len() ==> ((#[trigger] ts[i]).literal is Some <==> (ts[i].token_type
                == TokenType::Number || ts[i].token_type == TokenType::String)),
{
    assert forall|i: int|
        0 <= i < ts.len() implies ((#[trigger] ts[i]).literal is Some <==> (ts[i].token_type
            == TokenType::Number || ts[i].token_type == TokenType::String)) by {
        if i < ts.len() - 1 {
            assert(token_shape(ts[i]));
        }
    }
}

/// One set of spans describes the whole of every successful scan (see
/// `spans_describe_scan`).
pub proof fn law_scan_covers_the_source(src: Seq<char>)
    ensures
        scan_source(src) matches Ok(ts) ==> exists|spans: Seq<(int, int)>| #[trigger] spans_describe_scan(src, ts, spans),
{
    lemma_scan_from_shape(src, 0);
    lemma_scan_from_gaps(src, 0);
    if let Ok(ts) = scan_source(src) {
        lemma_literals_by_kind(ts, src);
        let spans = scan_spans(src, 0);
        assert(spans_describe_scan(src, ts, spans));
    }
}

/// The spelling of each keyword; `None` for a type that is no keyword.
pub open spec fn keyword_spelling(t: TokenType) -> Option<Seq<char>> {
    match t {
        TokenType::And => Some("and"@),
        TokenType::Class => Some("class"@),
        TokenType::Else => Some("else"@),
        TokenType::False => Some("false"@),
        TokenType::For => Some("for"@),
        TokenType::Fun => Some("fun"@),
        TokenType::If => Some("if"@),
        TokenType::Nil => Some("nil"@),
        TokenType::Or => Some("or"@),
        TokenType::Print => Some("print"@),
        TokenType::Return => Some("return"@),
        TokenType::Super => Some("super"@),
        TokenType::This => Some("this"@),
        TokenType::True => Some("true"@),
        TokenType::Var => Some("var"@),
        TokenType::While => Some("while"@),
        _ => None,
    }
}

/// Every identifier or keyword of a successful scan is made of ASCII letters,
/// digits and underscores only. A keyword's lexeme is exactly that keyword's
/// spelling, and an identifier's lexeme is no keyword's spelling.
pub proof fn law_words_are_spelled_exactly(src: Seq<char>)
    ensures
        scan_source(src) matches Ok(ts) ==> forall|i: int|
            0 <= i < ts.len() - 1 && is_word_type((#[trigger] ts[i]).token_type) ==> {
                &&& forall|k: int|
                    0 <= k < ts[i].lexeme.len() ==> {
                        let c = #[trigger] ts[i].lexeme[k];
                        ||| 'a' as u32 <= c as u32 <= 'z' as u32
                        ||| 'A' as u32 <= c as u32 <= 'Z' as u32
                        ||| '0' as u32 <= c as u32 <= '9' as u32
                        ||| c == '_'
                    }
                &&& ts[i].token_type == TokenType::Identifier ==> forall|t: TokenType|
                    keyword_spelling(t) != Some(ts[i].lexeme)
                &&& ts[i].token_type != TokenType::Identifier ==> keyword_spelling(ts[i].token_type)
                    == Some(ts[i].lexeme)
            },
{
    lemma_scan_from_shape(src, 0);
    if let Ok(ts) = scan_source(src) {
        assert forall|i: int|
            0 <= i < ts.len() - 1 && is_word_type((#[trigger] ts[i]).token_type) implies {
                &&& forall|k: int|
                    0 <= k < ts[i].lexeme.len() ==> {
                        let c = #[trigger] ts[i].lexeme[k];
                        ||| 'a' as u32 <= c as u32 <= 'z' as u32
                        ||| 'A' as u32 <= c as u32 <= 'Z' as u32
                        ||| '0' as u32 <= c as u32 <= '9' as u32
                        ||| c == '_'
                    }
                &&& ts[i].token_type == TokenType::Identifier ==> forall|t: TokenType|
                    keyword_spelling(t) != Some(ts[i].lexeme)
                &&& ts[i].token_type != TokenType::Identifier ==> keyword_spelling(ts[i].token_type)
                    == Some(ts[i].lexeme)
            } by {
            assert(token_shape(ts[i]));
            assert(is_word(ts[i].lexeme));
        }
    }
}

} // verus!
