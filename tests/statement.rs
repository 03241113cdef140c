use plitedb::ast::{
    Assignment, Comparison, ComparisonOperator, Expression, MathematicalOperation, MathematicalOperator,
    Statement, Value,
};
use plitedb::error::{parse_query, IntoFfiErrorCode, PliteDbError, QueryError};
use plitedb::lexer::{tokenize, LexerError};
use plitedb::parser_error::ParserError;
use plitedb::cursor::PeekingCursor;
use plitedb::statement::{parse, parse_statement};
use plitedb::token::TokenType;

fn parse_text(text: &str) -> Result<Statement, ParserError> {
    parse(tokenize(text).unwrap())
}

fn literal(value: Value) -> Expression {
    Expression::Literal(value)
}

#[test]
fn parses_put_item_in_order() {
    let statement = parse_text("PUT users { userId: 'abcd123', age: 30, isRegistered: true }").unwrap();
    assert_eq!(
        statement,
        Statement::PutItem {
            store_name: "users".to_string(),
            assignments: vec![
                Assignment { name: "userId".to_string(), value: literal(Value::String("abcd123".to_string())) },
                Assignment { name: "age".to_string(), value: literal(Value::Integer(30)) },
                Assignment { name: "isRegistered".to_string(), value: literal(Value::Boolean(true)) },
            ],
        }
    );
}

#[test]
fn parses_get_item() {
    let statement = parse_text("GET users WHERE { age >= 18 }").unwrap();
    assert_eq!(
        statement,
        Statement::GetItem {
            store_name: "users".to_string(),
            comparisons: vec![Comparison {
                left: Box::new(Expression::Identifier("age".to_string())),
                operator: ComparisonOperator::GreaterThanOrEqual,
                right: Box::new(literal(Value::Integer(18))),
            }],
        }
    );
}

#[test]
fn get_item_keeps_every_predicate() {
    let statement = parse_text("GET users WHERE { age >= 18, age >= 18, 'name' != 'Bob' }").unwrap();
    match statement {
        Statement::GetItem { store_name, comparisons } => {
            assert_eq!(store_name, "users");
            assert_eq!(comparisons.len(), 3);
            assert_eq!(comparisons[0], comparisons[1]);
            assert_eq!(comparisons[2].operator, ComparisonOperator::NotEqual);
            assert_eq!(*comparisons[2].left, literal(Value::String("name".to_string())));
        },
        other => panic!("expected a GET, found {:?}", other),
    }
}

#[test]
fn predicate_may_hold_arithmetic() {
    let statement = parse_text("GET s WHERE { total < price * 2 }").unwrap();
    assert_eq!(
        statement,
        Statement::GetItem {
            store_name: "s".to_string(),
            comparisons: vec![Comparison {
                left: Box::new(Expression::Identifier("total".to_string())),
                operator: ComparisonOperator::LessThan,
                right: Box::new(Expression::BinaryOperation(MathematicalOperation {
                    left: Box::new(Expression::Identifier("price".to_string())),
                    operator: MathematicalOperator::Multiply,
                    right: Box::new(literal(Value::Integer(2))),
                })),
            }],
        }
    );
}

#[test]
fn quoted_names_may_spell_keywords() {
    let statement = parse_text("PUT 'GET' { 'WHERE': 1 }").unwrap();
    assert_eq!(
        statement,
        Statement::PutItem {
            store_name: "GET".to_string(),
            assignments: vec![Assignment { name: "WHERE".to_string(), value: literal(Value::Integer(1)) }],
        }
    );
}

#[test]
fn empty_input_to_parse_ends_input() {
    assert_eq!(parse(vec![]), Err(ParserError::UnexpectedEndOfInput));
}

#[test]
fn statement_needs_get_or_put() {
    let tokens = tokenize("DELETE users").unwrap();
    let first = tokens[0].clone();
    assert_eq!(parse(tokens), Err(ParserError::UnexpectedToken(first, "GET or PUT".to_string())));
}

#[test]
fn get_needs_where() {
    let tokens = tokenize("GET users { a = 1 }").unwrap();
    let brace = tokens[2].clone();
    assert_eq!(parse(tokens), Err(ParserError::UnexpectedToken(brace, "WHERE".to_string())));
}

#[test]
fn predicate_must_be_a_comparison() {
    assert_eq!(
        parse_text("GET users WHERE { age }"),
        Err(ParserError::InvalidPredicate(Expression::Identifier("age".to_string())))
    );
}

#[test]
fn assignment_needs_colon() {
    let tokens = tokenize("PUT users { age 30 }").unwrap();
    let thirty = tokens[4].clone();
    assert_eq!(parse(tokens), Err(ParserError::UnexpectedToken(thirty, ":".to_string())));
}

#[test]
fn list_needs_comma_or_closing_brace() {
    let tokens = tokenize("PUT users { a: 1 b: 2 }").unwrap();
    let b = tokens[6].clone();
    assert_eq!(parse(tokens), Err(ParserError::UnexpectedToken(b, "}".to_string())));
}

#[test]
fn unfinished_list_ends_input() {
    assert_eq!(parse_text("PUT users { a: 1,"), Err(ParserError::UnexpectedEndOfInput));
    assert_eq!(parse_text("PUT users { a: 1"), Err(ParserError::UnexpectedEndOfInput));
    assert_eq!(parse_text("GET users WHERE { a = 1"), Err(ParserError::UnexpectedEndOfInput));
}

#[test]
fn store_name_is_required() {
    let tokens = tokenize("PUT { a: 1 }").unwrap();
    let brace = tokens[1].clone();
    assert_eq!(parse(tokens), Err(ParserError::UnexpectedToken(brace, "store name".to_string())));
}

#[test]
fn parse_query_reports_each_stage() {
    assert_eq!(
        parse_query("GET users WHERE { age >= 18 }"),
        Ok(parse_text("GET users WHERE { age >= 18 }").unwrap())
    );
    assert_eq!(parse_query("GET #"), Err(QueryError::LexerError(LexerError::UnexpectedCharacter('#'))));
    assert_eq!(parse_query(""), Err(QueryError::ParserError(ParserError::UnexpectedEndOfInput)));
}

#[test]
fn error_codes_are_fixed() {
    assert_eq!(LexerError::UnexpectedCharacter('a').to_error_code(), 1101);
    assert_eq!(LexerError::UnexpectedEndOfInput.to_error_code(), 1102);
    assert_eq!(PliteDbError::LexerError(LexerError::UnexpectedCharacter('a')).to_error_code(), 1101);
    assert_eq!(
        PliteDbError::IoError(std::io::Error::new(std::io::ErrorKind::Other, "closed")).to_error_code(),
        1
    );
    assert_eq!(QueryError::ParserError(ParserError::MissingParenthesis).to_error_code(), 1208);
    assert_eq!(PliteDbError::ParserError(ParserError::UnexpectedEndOfInput).to_error_code(), 1210);
}

#[test]
fn statement_error_consumes_only_the_first_token() {
    let mut cursor = PeekingCursor::new(tokenize("users GET").unwrap());
    assert!(parse_statement(&mut cursor).is_err());
    assert_eq!(
        cursor.peek().map(|t| t.token_type.clone()),
        Some(TokenType::Keyword(plitedb::token::Keyword::Get))
    );

    let mut cursor = PeekingCursor::new(tokenize("PUT users { 7: 1 } x").unwrap());
    assert!(parse_statement(&mut cursor).is_err());
    assert_eq!(cursor.peek().map(|t| t.token_type.clone()), Some(TokenType::Colon));
}
