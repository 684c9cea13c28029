use rlox::lox::LoxError;
use rlox::scanner::Scanner;
use rlox::tokens::{Token, TokenLiteral, TokenType};

fn scan(source: &str) -> Vec<Token> {
    Scanner::new(source).scan().expect("source should scan")
}

fn token(token_type: TokenType, lexeme: &str, line: usize) -> Token {
    Token::new(token_type, lexeme, line)
}

fn token_with_literal(
    token_type: TokenType,
    lexeme: &str,
    literal: TokenLiteral,
    line: usize,
) -> Token {
    Token::new(token_type, lexeme, line).with_literal(literal)
}

/// The literal of a number token whose value is `value`: the library holds a
/// number as its decimal numeral, which for these sources is the shortest
/// numeral of the value.
fn number(value: f64) -> TokenLiteral {
    TokenLiteral::Number(value.to_string())
}

#[test]
fn empty_input_produces_only_eof() {
    assert_eq!(scan(""), vec![token(TokenType::Eof, "", 1)]);
}

#[test]
fn scans_every_single_character_token() {
    let tokens = scan("(){}.,-+;/*");

    assert_eq!(
        tokens,
        vec![
            token(TokenType::LeftParen, "(", 1),
            token(TokenType::RightParen, ")", 1),
            token(TokenType::LeftBrace, "{", 1),
            token(TokenType::RightBrace, "}", 1),
            token(TokenType::Dot, ".", 1),
            token(TokenType::Comma, ",", 1),
            token(TokenType::Minus, "-", 1),
            token(TokenType::Plus, "+", 1),
            token(TokenType::Semicolon, ";", 1),
            token(TokenType::Slash, "/", 1),
            token(TokenType::Star, "*", 1),
            token(TokenType::Eof, "", 1),
        ]
    );
}

#[test]
fn distinguishes_one_and_two_character_operators() {
    let tokens = scan("! != = == > >= < <=");

    assert_eq!(
        tokens,
        vec![
            token(TokenType::Bang, "!", 1),
            token(TokenType::BangEqual, "!=", 1),
            token(TokenType::Equal, "=", 1),
            token(TokenType::EqualEqual, "==", 1),
            token(TokenType::Greater, ">", 1),
            token(TokenType::GreaterEqual, ">=", 1),
            token(TokenType::Less, "<", 1),
            token(TokenType::LessEqual, "<=", 1),
            token(TokenType::Eof, "", 1),
        ]
    );
}

#[test]
fn ignores_whitespace() {
    assert_eq!(
        scan(" \t\r\n("),
        vec![
            token(TokenType::LeftParen, "(", 2),
            token(TokenType::Eof, "", 2),
        ]
    );
}

#[test]
fn tracks_token_line_numbers() {
    assert_eq!(
        scan("var\nname\n= 1;"),
        vec![
            token(TokenType::Var, "var", 1),
            token(TokenType::Identifier, "name", 2),
            token(TokenType::Equal, "=", 3),
            token_with_literal(TokenType::Number, "1", number(1.0), 3,),
            token(TokenType::Semicolon, ";", 3),
            token(TokenType::Eof, "", 3),
        ]
    );
}

#[test]
fn ignores_line_comments() {
    assert_eq!(
        scan("// first\nvar // second\nprint"),
        vec![
            token(TokenType::Var, "var", 2),
            token(TokenType::Print, "print", 3),
            token(TokenType::Eof, "", 3),
        ]
    );
}

#[test]
fn ignores_a_line_comment_at_eof() {
    assert_eq!(
        scan("var // no final newline"),
        vec![
            token(TokenType::Var, "var", 1),
            token(TokenType::Eof, "", 1),
        ]
    );
}

#[test]
fn scans_slash_when_it_does_not_start_a_comment() {
    assert_eq!(
        scan("/"),
        vec![
            token(TokenType::Slash, "/", 1),
            token(TokenType::Eof, "", 1),
        ]
    );
}

#[test]
fn scans_integer_and_fractional_numbers() {
    assert_eq!(
        scan("0 123 45.67"),
        vec![
            token_with_literal(TokenType::Number, "0", number(0.0), 1,),
            token_with_literal(TokenType::Number, "123", number(123.0), 1,),
            token_with_literal(TokenType::Number, "45.67", number(45.67), 1,),
            token(TokenType::Eof, "", 1),
        ]
    );
}

#[test]
fn only_includes_a_decimal_point_when_followed_by_a_digit() {
    assert_eq!(
        scan("123. 1.2.3"),
        vec![
            token_with_literal(TokenType::Number, "123", number(123.0), 1,),
            token(TokenType::Dot, ".", 1),
            token_with_literal(TokenType::Number, "1.2", number(1.2), 1,),
            token(TokenType::Dot, ".", 1),
            token_with_literal(TokenType::Number, "3", number(3.0), 1,),
            token(TokenType::Eof, "", 1),
        ]
    );
}

#[test]
fn scans_identifiers_with_digits_and_underscores() {
    assert_eq!(
        scan("name thing2 foo_bar _private"),
        vec![
            token(TokenType::Identifier, "name", 1),
            token(TokenType::Identifier, "thing2", 1),
            token(TokenType::Identifier, "foo_bar", 1),
            token(TokenType::Identifier, "_private", 1),
            token(TokenType::Eof, "", 1),
        ]
    );
}

#[test]
fn recognizes_every_keyword() {
    assert_eq!(
        scan("and class else false for fun if nil or print return super this true var while"),
        vec![
            token(TokenType::And, "and", 1),
            token(TokenType::Class, "class", 1),
            token(TokenType::Else, "else", 1),
            token(TokenType::False, "false", 1),
            token(TokenType::For, "for", 1),
            token(TokenType::Fun, "fun", 1),
            token(TokenType::If, "if", 1),
            token(TokenType::Nil, "nil", 1),
            token(TokenType::Or, "or", 1),
            token(TokenType::Print, "print", 1),
            token(TokenType::Return, "return", 1),
            token(TokenType::Super, "super", 1),
            token(TokenType::This, "this", 1),
            token(TokenType::True, "true", 1),
            token(TokenType::Var, "var", 1),
            token(TokenType::While, "while", 1),
            token(TokenType::Eof, "", 1),
        ]
    );
}

#[test]
fn keyword_prefixes_and_suffixes_are_identifiers() {
    assert_eq!(
        scan("andy classy falsehood variable"),
        vec![
            token(TokenType::Identifier, "andy", 1),
            token(TokenType::Identifier, "classy", 1),
            token(TokenType::Identifier, "falsehood", 1),
            token(TokenType::Identifier, "variable", 1),
            token(TokenType::Eof, "", 1),
        ]
    );
}

#[test]
fn string_lexeme_keeps_quotes_while_literal_does_not() {
    assert_eq!(
        scan("\"hello world\""),
        vec![
            token_with_literal(
                TokenType::String,
                "\"hello world\"",
                TokenLiteral::String("hello world".to_owned()),
                1,
            ),
            token(TokenType::Eof, "", 1),
        ]
    );
}

#[test]
fn scans_an_empty_string() {
    assert_eq!(
        scan("\"\""),
        vec![
            token_with_literal(
                TokenType::String,
                "\"\"",
                TokenLiteral::String(String::new()),
                1,
            ),
            token(TokenType::Eof, "", 1),
        ]
    );
}

#[test]
fn scans_a_multiline_string_and_tracks_its_ending_line() {
    assert_eq!(
        scan("\"first\nsecond\""),
        vec![
            token_with_literal(
                TokenType::String,
                "\"first\nsecond\"",
                TokenLiteral::String("first\nsecond".to_owned()),
                2,
            ),
            token(TokenType::Eof, "", 2),
        ]
    );
}

#[test]
fn rejects_an_unexpected_character_on_the_correct_line() {
    let error = Scanner::new("\n@").scan().expect_err("scan should fail");

    match error {
        LoxError::Compile(error) => {
            assert_eq!(error.line, 2);
            assert_eq!(error.at, "");
            assert_eq!(error.message, "Unexpected character.");
        }
        other => panic!("expected compile error, got {other:?}"),
    }
}

#[test]
fn rejects_non_ascii_identifier_characters() {
    let error = Scanner::new("café").scan().expect_err("scan should fail");

    match error {
        LoxError::Compile(error) => {
            assert_eq!(error.line, 1);
            assert_eq!(error.message, "Unexpected character.");
        }
        other => panic!("expected compile error, got {other:?}"),
    }
}

#[test]
fn reports_an_unterminated_string_on_its_ending_line() {
    let error = Scanner::new("\"first\nsecond")
        .scan()
        .expect_err("scan should fail");

    match error {
        LoxError::Compile(error) => {
            assert_eq!(error.line, 2);
            assert_eq!(error.at, "");
            assert_eq!(error.message, "Unterminated string.");
        }
        other => panic!("expected compile error, got {other:?}"),
    }
}

#[test]
fn successful_scan_appends_exactly_one_eof_token() {
    let tokens = scan("var value = 1;");

    assert_eq!(
        tokens
            .iter()
            .filter(|token| token.token_type == TokenType::Eof)
            .count(),
        1
    );
    assert_eq!(tokens.last(), Some(&token(TokenType::Eof, "", 1)));
}
