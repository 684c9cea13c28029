use rlox::ast::AstPrinter;
use rlox::lox::CompileError;
use rlox::parser::Parser;
use rlox::scanner::Scanner;
use rlox::tokens::{Token, TokenLiteral, TokenType};

fn tokens(source: &str) -> Vec<Token> {
    Scanner::new(source).scan().expect("source should scan")
}

fn parse(source: &str) -> Result<String, CompileError> {
    let tokens = tokens(source);
    let mut parser = Parser::new(&tokens);
    let expression = parser.expression()?;
    Ok(AstPrinter.print(&expression))
}

fn parse_error(source: &str) -> (usize, String, String) {
    match parse(source) {
        Err(error) => (error.line, error.at, error.message),
        Ok(printed) => panic!("expected an error, got {printed}"),
    }
}

#[test]
fn multiplication_binds_tighter_than_addition() {
    assert_eq!(parse("1 + 2 * 3").unwrap(), "(Plus 1 (Times 2 3))");
    assert_eq!(parse("1 * 2 + 3").unwrap(), "(Plus (Times 1 2) 3)");
}

#[test]
fn binary_operators_associate_to_the_left() {
    assert_eq!(parse("1 - 2 - 3").unwrap(), "(Minus (Minus 1 2) 3)");
    assert_eq!(parse("8 / 4 / 2").unwrap(), "(Divide (Divide 8 4) 2)");
}

#[test]
fn comparison_binds_tighter_than_equality() {
    assert_eq!(parse("1 < 2 == true").unwrap(), "(Equals (LessThan 1 2) true)");
    assert_eq!(parse("1 >= 2 != 3 <= 4").unwrap(), "(NotEquals (GreaterThanEqual 1 2) (LessThanEqual 3 4))");
    assert_eq!(parse("1 > 2").unwrap(), "(GreaterThan 1 2)");
}

#[test]
fn unary_operators_nest() {
    assert_eq!(parse("!-1").unwrap(), "(Not (Negate 1))");
    assert_eq!(parse("-1 - -2").unwrap(), "(Minus (Negate 1) (Negate 2))");
}

#[test]
fn grouping_overrides_precedence() {
    assert_eq!(parse("(1 + 2) * 3").unwrap(), "(Times (group (Plus 1 2)) 3)");
}

#[test]
fn literals_of_every_kind() {
    assert_eq!(parse("\"hi there\"").unwrap(), "hi there");
    assert_eq!(parse("nil").unwrap(), "nil");
    assert_eq!(parse("false").unwrap(), "false");
    assert_eq!(parse("true").unwrap(), "true");
    assert_eq!(parse("12.50").unwrap(), "12.50");
}

#[test]
fn missing_closing_parenthesis_is_reported_at_the_next_token() {
    assert_eq!(
        parse_error("(1 + 2"),
        (1, String::new(), "Expect ')' after expression.".to_owned())
    );
    assert_eq!(
        parse_error("(1\n;"),
        (2, ";".to_owned(), "Expect ')' after expression.".to_owned())
    );
}

#[test]
fn missing_operand_is_reported_at_the_token_found() {
    assert_eq!(parse_error("1 +\n)"), (2, ")".to_owned(), "Expect expression.".to_owned()));
    assert_eq!(parse_error("x"), (1, "x".to_owned(), "Expect expression.".to_owned()));
    assert_eq!(parse_error(""), (1, String::new(), "Expect expression.".to_owned()));
}

#[test]
fn number_token_without_a_literal_is_an_error() {
    let tokens = vec![Token::new(TokenType::Number, "7", 4), Token::new(TokenType::Eof, "", 4)];
    let mut parser = Parser::new(&tokens);
    let error = parser.expression().expect_err("parse should fail");
    assert_eq!(error.line, 4);
    assert_eq!(error.at, "7");
    assert_eq!(error.message, "Expected a literal value.");
}

#[test]
fn parse_stops_before_what_does_not_continue_the_expression() {
    let tokens = tokens("1 + 2 3 ;");
    let mut parser = Parser::new(&tokens);
    let first = parser.expression().unwrap();
    assert_eq!(AstPrinter.print(&first), "(Plus 1 2)");
    let second = parser.expression().unwrap();
    assert_eq!(AstPrinter.print(&second), "3");
    let error = parser.expression().expect_err("no expression at ';'");
    assert_eq!(error.at, ";");
    assert_eq!(error.message, "Expect expression.");
}

#[test]
fn parser_never_reads_the_end_of_file_token() {
    let tokens = tokens("1");
    let mut parser = Parser::new(&tokens);
    assert_eq!(AstPrinter.print(&parser.expression().unwrap()), "1");
    let error = parser.expression().expect_err("only the end of file is left");
    assert_eq!(error.at, "");
    assert_eq!(error.message, "Expect expression.");
    let error = parser.expression().expect_err("still only the end of file");
    assert_eq!(error.message, "Expect expression.");
}

#[test]
fn after_a_literal_without_value_the_parser_is_past_that_token() {
    let tokens = vec![
        Token::new(TokenType::Number, "7", 1),
        Token::new(TokenType::Number, "8", 1).with_literal(TokenLiteral::Number("8".to_owned())),
        Token::new(TokenType::Eof, "", 1),
    ];
    let mut parser = Parser::new(&tokens);
    let error = parser.expression().expect_err("7 has no literal");
    assert_eq!(error.message, "Expected a literal value.");
    assert_eq!(AstPrinter.print(&parser.expression().unwrap()), "8");
}

#[test]
fn after_a_missing_operand_the_parser_stays_at_the_token_found() {
    let tokens = tokens(") 1");
    let mut parser = Parser::new(&tokens);
    let error = parser.expression().expect_err("no operand at )");
    assert_eq!(error.at, ")");
    let error = parser.expression().expect_err("still at )");
    assert_eq!(error.at, ")");
}

#[test]
fn after_an_unclosed_parenthesis_the_parser_stays_where_the_parenthesis_was_expected() {
    let tokens = tokens("(1 2");
    let mut parser = Parser::new(&tokens);
    let error = parser.expression().expect_err("no closing parenthesis");
    assert_eq!(error.at, "2");
    assert_eq!(error.message, "Expect ')' after expression.");
    assert_eq!(AstPrinter.print(&parser.expression().unwrap()), "2");
}
