use rlox::lox::LoxError;
use rlox::scanner::Scanner;
use rlox::tokens::{Token, TokenLiteral, TokenType};

fn scan(source: &str) -> Vec<Token> {
    Scanner::new(source).scan().expect("source should scan")
}

fn scan_error(source: &str) -> (usize, String, String) {
    match Scanner::new(source).scan() {
        Err(LoxError::Compile(error)) => (error.line, error.at, error.message),
        Ok(tokens) => panic!("expected an error, got {tokens:?}"),
        Err(other) => panic!("expected a compile error, got {other:?}"),
    }
}

#[test]
fn lexemes_are_pieces_of_the_source_in_order() {
    let source = "var x = (12.5 + \"s\");  // note\nprint x;";
    let tokens = scan(source);
    let mut rest = source;
    for token in &tokens {
        let at = rest.find(token.lexeme.as_str()).expect("lexeme should occur in order");
        rest = &rest[at + token.lexeme.len()..];
    }
    assert_eq!(tokens.len(), 13);
}

#[test]
fn token_lines_never_decrease() {
    let tokens = scan("a\n\"b\nc\"\n// d\ne f\n\n");
    let lines: Vec<usize> = tokens.iter().map(|t| t.line).collect();
    assert_eq!(lines, vec![1, 3, 5, 5, 7]);
    assert!(lines.windows(2).all(|w| w[0] <= w[1]));
}

#[test]
fn eof_token_has_the_last_line() {
    let tokens = scan("a\n\n");
    assert_eq!(tokens.last(), Some(&Token::new(TokenType::Eof, "", 3)));
}

#[test]
fn string_literal_is_lexeme_between_quotes() {
    let tokens = scan("\"a b\" \"\"");
    for token in &tokens[..2] {
        let inner = &token.lexeme[1..token.lexeme.len() - 1];
        assert_eq!(token.literal, Some(TokenLiteral::String(inner.to_owned())));
    }
}

#[test]
fn number_literal_is_its_numeral() {
    let tokens = scan("007 1.50 2.");
    assert_eq!(tokens[0].literal, Some(TokenLiteral::Number("007".to_owned())));
    assert_eq!(tokens[1].literal, Some(TokenLiteral::Number("1.50".to_owned())));
    assert_eq!(tokens[2].literal, Some(TokenLiteral::Number("2".to_owned())));
    assert_eq!(tokens[3].token_type, TokenType::Dot);
    for token in &tokens[..3] {
        match &token.literal {
            Some(TokenLiteral::Number(numeral)) => {
                assert!(numeral.parse::<f64>().is_ok());
            }
            other => panic!("expected a number literal, got {other:?}"),
        }
    }
}

#[test]
fn keyword_lookup_gives_identifiers_for_other_words() {
    let tokens = scan("nil nils _ or_ While");
    let types: Vec<TokenType> = tokens.iter().map(|t| t.token_type).collect();
    assert_eq!(
        types,
        vec![
            TokenType::Nil,
            TokenType::Identifier,
            TokenType::Identifier,
            TokenType::Identifier,
            TokenType::Identifier,
            TokenType::Eof,
        ]
    );
}

#[test]
fn unicode_whitespace_separates_tokens() {
    let tokens = scan("(\u{a0}\u{2003})");
    assert_eq!(
        tokens,
        vec![
            Token::new(TokenType::LeftParen, "(", 1),
            Token::new(TokenType::RightParen, ")", 1),
            Token::new(TokenType::Eof, "", 1),
        ]
    );
}

#[test]
fn a_character_that_is_not_whitespace_is_unexpected() {
    let (line, at, message) = scan_error("(\u{200b})");
    assert_eq!(line, 1);
    assert_eq!(at, "");
    assert_eq!(message, "Unexpected character.");
}

#[test]
fn comment_may_hold_any_character() {
    let tokens = scan("// é @ \"\n;");
    assert_eq!(
        tokens,
        vec![Token::new(TokenType::Semicolon, ";", 2), Token::new(TokenType::Eof, "", 2)]
    );
}

#[test]
fn string_may_hold_any_character() {
    let tokens = scan("\"é @\"");
    assert_eq!(tokens[0].literal, Some(TokenLiteral::String("é @".to_owned())));
    assert_eq!(tokens[0].lexeme, "\"é @\"");
}

#[test]
fn first_error_stops_the_scan() {
    let (line, _, message) = scan_error("a\n# \"unterminated");
    assert_eq!(line, 2);
    assert_eq!(message, "Unexpected character.");
}

#[test]
fn unterminated_string_reports_the_last_line() {
    let (line, at, message) = scan_error("\"a\nb\n");
    assert_eq!(line, 3);
    assert_eq!(at, "");
    assert_eq!(message, "Unterminated string.");
}

#[test]
fn two_character_operators_at_the_end() {
    let tokens = scan("<");
    assert_eq!(tokens[0], Token::new(TokenType::Less, "<", 1));
    let tokens = scan("!=");
    assert_eq!(tokens[0], Token::new(TokenType::BangEqual, "!=", 1));
}

#[test]
fn tokens_are_longest_matches() {
    let types: Vec<TokenType> = scan("!== <== 12.3.4 ab_1c //x\n/ /").iter().map(|t| t.token_type).collect();
    assert_eq!(
        types,
        vec![
            TokenType::BangEqual,
            TokenType::Equal,
            TokenType::LessEqual,
            TokenType::Equal,
            TokenType::Number,
            TokenType::Dot,
            TokenType::Number,
            TokenType::Identifier,
            TokenType::Slash,
            TokenType::Slash,
            TokenType::Eof,
        ]
    );
    let tokens = scan("12.3.4");
    assert_eq!(tokens[0].lexeme, "12.3");
    assert_eq!(tokens[2].lexeme, "4");
}

#[test]
fn characters_outside_lexemes_are_whitespace_or_comments() {
    let source = "a\t( // x y ;\n\u{a0}1";
    let tokens = scan(source);
    let lexemes: Vec<&str> = tokens.iter().map(|t| t.lexeme.as_str()).collect();
    assert_eq!(lexemes, vec!["a", "(", "1", ""]);
    let mut rest = String::new();
    let mut remaining = source;
    for lexeme in &lexemes[..3] {
        let at = remaining.find(lexeme).unwrap();
        rest.push_str(&remaining[..at]);
        remaining = &remaining[at + lexeme.len()..];
    }
    rest.push_str(remaining);
    assert_eq!(rest, "\t // x y ;\n\u{a0}");
}

#[test]
fn scan_fails_at_the_first_fault_outside_comments_and_strings() {
    assert_eq!(Scanner::new("// @\n\"@\" ok").scan().unwrap().len(), 3);
    let (line, _, message) = scan_error("\"a\" @ \"b");
    assert_eq!((line, message.as_str()), (1, "Unexpected character."));
    let (line, _, message) = scan_error("\"a\" \"b\n@");
    assert_eq!((line, message.as_str()), (2, "Unterminated string."));
}
