use plitedb::ast::{
    Expression, MathematicalOperation, MathematicalOperator, UnaryOperation, UnaryOperator, Value,
};
use plitedb::cursor::{Location, PeekingCursor};
use plitedb::expression::parse_expression;
use plitedb::parser_error::ParserError;
use plitedb::token::{Token, TokenType};

fn tokens_of(token_types: Vec<TokenType>) -> Vec<Token> {
    token_types
        .iter()
        .zip(1..)
        .map(|(token_type, column)| Token::new(token_type.clone(), Location { line: 1, column }))
        .collect()
}

fn number(text: &str) -> TokenType {
    TokenType::Number(text.to_string())
}

fn integer(value: i64) -> Box<Expression> {
    Box::new(Expression::Literal(Value::Integer(value)))
}

fn math(left: Box<Expression>, operator: MathematicalOperator, right: Box<Expression>) -> Box<Expression> {
    Box::new(Expression::BinaryOperation(MathematicalOperation { left, operator, right }))
}

fn negate(operand: Box<Expression>) -> Box<Expression> {
    Box::new(Expression::UnaryOperation(UnaryOperation { operator: UnaryOperator::Negate, operand }))
}

fn parse_all(token_types: Vec<TokenType>) -> Result<Expression, ParserError> {
    let mut cursor = PeekingCursor::new(tokens_of(token_types));
    parse_expression(&mut cursor, 0)
}

#[test]
fn parses_basic_math_equation() {
    // 1 + 2 + 3: operators of equal precedence nest to the right.
    let ast = parse_all(vec![number("1"), TokenType::Plus, number("2"), TokenType::Plus, number("3")]).unwrap();

    assert_eq!(
        ast,
        *math(integer(1), MathematicalOperator::Add, math(integer(2), MathematicalOperator::Add, integer(3)))
    );
}

#[test]
fn parses_basic_parenthetical_math_equation() {
    // 1 * (2 + 3)
    let ast = parse_all(vec![
        number("1"),
        TokenType::Asterisk,
        TokenType::LeftParenthesis,
        number("2"),
        TokenType::Plus,
        number("3"),
        TokenType::RightParenthesis,
    ])
    .unwrap();

    assert_eq!(
        ast,
        *math(integer(1), MathematicalOperator::Multiply, math(integer(2), MathematicalOperator::Add, integer(3)))
    );
}

#[test]
fn parses_unary_expression() {
    // 1 + -1 - (1 * -5)
    let ast = parse_all(vec![
        number("1"),
        TokenType::Plus,
        TokenType::Minus,
        number("1"),
        TokenType::Minus,
        TokenType::LeftParenthesis,
        number("1"),
        TokenType::Asterisk,
        TokenType::Minus,
        number("5"),
        TokenType::RightParenthesis,
    ])
    .unwrap();

    assert_eq!(
        ast,
        *math(
            integer(1),
            MathematicalOperator::Add,
            math(
                negate(integer(1)),
                MathematicalOperator::Subtract,
                math(integer(1), MathematicalOperator::Multiply, negate(integer(5)))
            )
        )
    );
}

#[test]
fn parses_complex_expression() {
    // ( (5 - 2) / 2) + ( 2 + ( 9 * 4 - 2 ) / 2 )
    let ast = parse_all(vec![
        TokenType::LeftParenthesis,
        TokenType::LeftParenthesis,
        number("5"),
        TokenType::Minus,
        number("2"),
        TokenType::RightParenthesis,
        TokenType::Slash,
        number("2"),
        TokenType::RightParenthesis,
        TokenType::Plus,
        TokenType::LeftParenthesis,
        number("2"),
        TokenType::Plus,
        TokenType::LeftParenthesis,
        number("9"),
        TokenType::Asterisk,
        number("4"),
        TokenType::Minus,
        number("2"),
        TokenType::RightParenthesis,
        TokenType::Slash,
        number("2"),
        TokenType::RightParenthesis,
    ])
    .unwrap();

    assert_eq!(
        ast,
        *math(
            math(
                math(integer(5), MathematicalOperator::Subtract, integer(2)),
                MathematicalOperator::Divide,
                integer(2)
            ),
            MathematicalOperator::Add,
            math(
                integer(2),
                MathematicalOperator::Add,
                math(
                    math(math(integer(9), MathematicalOperator::Multiply, integer(4)), MathematicalOperator::Subtract, integer(2)),
                    MathematicalOperator::Divide,
                    integer(2)
                )
            )
        )
    );
}

#[test]
fn negation_takes_one_operand() {
    // -2 ^ 3 negates the 2 alone.
    let ast = parse_all(vec![TokenType::Minus, number("2"), TokenType::Caret, number("3")]).unwrap();
    assert_eq!(ast, *math(negate(integer(2)), MathematicalOperator::Exponentiate, integer(3)));
}

#[test]
fn higher_precedence_binds_tighter() {
    // 1 + 2 * 3 ^ 4
    let ast = parse_all(vec![
        number("1"),
        TokenType::Plus,
        number("2"),
        TokenType::Asterisk,
        number("3"),
        TokenType::Caret,
        number("4"),
    ])
    .unwrap();
    assert_eq!(
        ast,
        *math(
            integer(1),
            MathematicalOperator::Add,
            math(integer(2), MathematicalOperator::Multiply, math(integer(3), MathematicalOperator::Exponentiate, integer(4)))
        )
    );
}

#[test]
fn parses_literals() {
    assert_eq!(parse_all(vec![TokenType::String("x".to_string())]), Ok(Expression::Literal(Value::String("x".to_string()))));
    assert_eq!(
        parse_all(vec![TokenType::Keyword(plitedb::token::Keyword::False)]),
        Ok(Expression::Literal(Value::Boolean(false)))
    );
    assert_eq!(parse_all(vec![number("2.5")]), Ok(Expression::Literal(Value::Float("2.5".to_string()))));
    assert_eq!(
        parse_all(vec![number("99999999999999999999")]),
        Ok(Expression::Literal(Value::Float("99999999999999999999".to_string())))
    );
    assert_eq!(
        parse_all(vec![number("9223372036854775807")]),
        Ok(Expression::Literal(Value::Integer(i64::MAX)))
    );
}

#[test]
fn invalid_number_is_an_error() {
    assert_eq!(
        parse_all(vec![number("1.2.3")]),
        Err(ParserError::InvalidNumericalValue("1.2.3".to_string()))
    );
}

#[test]
fn missing_operand_ends_input() {
    assert_eq!(parse_all(vec![]), Err(ParserError::UnexpectedEndOfInput));
    assert_eq!(parse_all(vec![number("1"), TokenType::Plus]), Err(ParserError::UnexpectedEndOfInput));
}

#[test]
fn unclosed_parenthesis() {
    assert_eq!(
        parse_all(vec![TokenType::LeftParenthesis, number("1")]),
        Err(ParserError::MissingParenthesis)
    );
    let mut cursor = PeekingCursor::new(tokens_of(vec![
        TokenType::LeftParenthesis,
        number("1"),
        TokenType::RightCurlyBrace,
    ]));
    assert_eq!(parse_expression(&mut cursor, 0), Err(ParserError::MissingParenthesis));
}

#[test]
fn unexpected_token_in_operand_position() {
    let tokens = tokens_of(vec![TokenType::Comma]);
    let comma = tokens[0].clone();
    let mut cursor = PeekingCursor::new(tokens);
    assert_eq!(
        parse_expression(&mut cursor, 0),
        Err(ParserError::UnexpectedToken(comma, "value, keyword, or identifier".to_string()))
    );
}

#[test]
fn stops_before_weaker_operator() {
    let mut cursor = PeekingCursor::new(tokens_of(vec![number("1"), TokenType::Plus, number("2")]));
    assert_eq!(parse_expression(&mut cursor, 3), Ok(Expression::Literal(Value::Integer(1))));
    assert_eq!(cursor.peek().map(|t| t.token_type.clone()), Some(TokenType::Plus));
}

#[test]
fn error_consumes_only_the_offending_token() {
    let mut cursor = PeekingCursor::new(tokens_of(vec![TokenType::Comma, number("7")]));
    assert!(parse_expression(&mut cursor, 0).is_err());
    assert_eq!(cursor.peek().map(|t| t.token_type.clone()), Some(number("7")));

    // A group closed by another token: that token is consumed in place of `)`.
    let mut cursor = PeekingCursor::new(tokens_of(vec![
        TokenType::LeftParenthesis,
        number("1"),
        TokenType::Comma,
        number("8"),
    ]));
    assert_eq!(parse_expression(&mut cursor, 0), Err(ParserError::MissingParenthesis));
    assert_eq!(cursor.peek().map(|t| t.token_type.clone()), Some(number("8")));
}
