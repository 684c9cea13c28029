use rlox::ast::{AstPrinter, BinaryOperator, Expression, ExpressionVisitor, Literal, UnaryOperator};
use rlox::lox::Lox;
use rlox::tokens::{Token, TokenType};

#[test]
fn prints_the_example_expression_in_prefix_form() {
    // Represents: -123 * 45.67
    let expression = Expression::Binary {
        lhs: Box::new(Expression::Unary {
            operator: UnaryOperator::Negate,
            rhs: Box::new(Expression::Literal(Literal::Number(123.0f64.to_string()))),
        }),
        operator: BinaryOperator::Times,
        rhs: Box::new(Expression::Literal(Literal::Number(45.67f64.to_string()))),
    };
    let mut printer = AstPrinter;
    assert_eq!(printer.print(&expression), "(Times (Negate 123) 45.67)");
}

#[test]
fn prints_grouping_and_constants() {
    let expression = Expression::Grouping(Box::new(Expression::Binary {
        lhs: Box::new(Expression::Literal(Literal::Nil)),
        operator: BinaryOperator::NotEquals,
        rhs: Box::new(Expression::Unary {
            operator: UnaryOperator::Not,
            rhs: Box::new(Expression::Literal(Literal::False)),
        }),
    }));
    assert_eq!(AstPrinter.print(&expression), "(group (NotEquals nil (Not false)))");
    assert_eq!(AstPrinter.print(&Expression::Literal(Literal::String("s t".to_owned()))), "s t");
    assert_eq!(AstPrinter.print(&Expression::Literal(Literal::True)), "true");
}

#[test]
fn operator_names() {
    assert_eq!(BinaryOperator::GreaterThanEqual.name(), "GreaterThanEqual");
    assert_eq!(BinaryOperator::Equals.name(), "Equals");
    assert_eq!(UnaryOperator::Negate.name(), "Negate");
}

#[test]
fn binary_operator_from_each_token() {
    let cases = [
        (TokenType::EqualEqual, BinaryOperator::Equals),
        (TokenType::BangEqual, BinaryOperator::NotEquals),
        (TokenType::Less, BinaryOperator::LessThan),
        (TokenType::LessEqual, BinaryOperator::LessThanEqual),
        (TokenType::Greater, BinaryOperator::GreaterThan),
        (TokenType::GreaterEqual, BinaryOperator::GreaterThanEqual),
        (TokenType::Plus, BinaryOperator::Plus),
        (TokenType::Minus, BinaryOperator::Minus),
        (TokenType::Star, BinaryOperator::Times),
        (TokenType::Slash, BinaryOperator::Divide),
    ];
    for (token_type, operator) in cases {
        let token = Token::new(token_type, "op", 1);
        assert_eq!(BinaryOperator::try_from(&token).unwrap(), operator);
    }
}

#[test]
fn binary_operator_from_another_token_is_an_error() {
    let token = Token::new(TokenType::Bang, "!", 7);
    let error = BinaryOperator::try_from(&token).expect_err("! is not binary");
    assert_eq!(error.line, 7);
    assert_eq!(error.at, "!");
    assert_eq!(error.message, "Expected a binary operator.");
}

#[test]
fn unary_operator_from_tokens() {
    assert_eq!(UnaryOperator::try_from(&Token::new(TokenType::Minus, "-", 1)).unwrap(), UnaryOperator::Negate);
    assert_eq!(UnaryOperator::try_from(&Token::new(TokenType::Bang, "!", 1)).unwrap(), UnaryOperator::Not);
    let error = UnaryOperator::try_from(&Token::new(TokenType::Plus, "+", 2)).expect_err("+ is not unary");
    assert_eq!(error.line, 2);
    assert_eq!(error.at, "+");
    assert_eq!(error.message, "Expected a unary operator.");
}

#[test]
fn token_with_literal_keeps_the_rest() {
    let token = Token::new(TokenType::String, "\"x\"", 3).with_literal(rlox::tokens::TokenLiteral::String("x".to_owned()));
    assert_eq!(token.lexeme, "\"x\"");
    assert_eq!(token.line, 3);
    assert_eq!(token.token_type, TokenType::String);
}

#[test]
fn lox_can_be_created() {
    let _lox = Lox::new();
}

#[test]
fn accept_hands_the_expression_to_the_visitor() {
    let expression = Expression::Binary {
        lhs: Box::new(Expression::Literal(Literal::Number("1".to_owned()))),
        operator: BinaryOperator::Plus,
        rhs: Box::new(Expression::Grouping(Box::new(Expression::Literal(Literal::Nil)))),
    };
    let mut printer = AstPrinter;
    assert_eq!(expression.accept(&mut printer), "(Plus 1 (group nil))");
    assert_eq!(printer.visit_literal(&Literal::True), "true");
}

#[test]
fn token_description_names_type_lexeme_and_literal() {
    let token = Token::new(TokenType::LeftParen, "(", 1);
    assert_eq!(token.describe(""), "LeftParen ( null");
    let token = Token::new(TokenType::String, "\"a b\"", 1)
        .with_literal(rlox::tokens::TokenLiteral::String("a b".to_owned()));
    assert_eq!(token.describe(""), "String \"a b\" a b");
    let token = Token::new(TokenType::Number, "1.50", 2)
        .with_literal(rlox::tokens::TokenLiteral::Number("1.50".to_owned()));
    assert_eq!(token.describe("1.5"), "Number 1.50 1.5");
    assert_eq!(Token::new(TokenType::Eof, "", 3).describe(""), "Eof  null");
    assert_eq!(TokenType::GreaterEqual.name(), "GreaterEqual");
}
