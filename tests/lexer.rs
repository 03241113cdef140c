use plitedb::cursor::Location;
use plitedb::lexer::{tokenize, LexerError};
use plitedb::token::{Keyword, Token, TokenType};

fn types_of(input: &str) -> Vec<TokenType> {
    tokenize(input).unwrap().into_iter().map(|t| t.token_type).collect()
}

#[test]
fn tokenize_put_statement() {
    let input = "PUT users { userId: 'abcd123', name: 'Alice', age: 30, isRegistered: true }";

    let expected_types = vec![
        TokenType::Keyword(Keyword::Put),
        TokenType::Identifier(String::from("users")),
        TokenType::LeftCurlyBrace,
        TokenType::Identifier(String::from("userId")),
        TokenType::Colon,
        TokenType::String(String::from("abcd123")),
        TokenType::Comma,
        TokenType::Identifier(String::from("name")),
        TokenType::Colon,
        TokenType::String(String::from("Alice")),
        TokenType::Comma,
        TokenType::Identifier(String::from("age")),
        TokenType::Colon,
        TokenType::Number(String::from("30")),
        TokenType::Comma,
        TokenType::Identifier(String::from("isRegistered")),
        TokenType::Colon,
        TokenType::Keyword(Keyword::True),
        TokenType::RightCurlyBrace,
    ];
    // Each token carries the position after its last character.
    let end_columns = vec![3, 9, 11, 18, 19, 29, 30, 35, 36, 44, 45, 49, 50, 53, 54, 67, 68, 73, 75];

    let expected: Vec<Token> = expected_types
        .iter()
        .zip(end_columns)
        .map(|(token_type, column)| Token::new(token_type.clone(), Location { line: 1, column }))
        .collect();

    assert_eq!(tokenize(input).unwrap(), expected);
}

#[test]
fn keyword_needs_exact_spelling() {
    assert_eq!(types_of("GET"), vec![TokenType::Keyword(Keyword::Get)]);
    assert_eq!(types_of("GETX"), vec![TokenType::Identifier(String::from("GETX"))]);
    assert_eq!(types_of("get"), vec![TokenType::Identifier(String::from("get"))]);
    assert_eq!(
        types_of("PUT WHERE true false"),
        vec![
            TokenType::Keyword(Keyword::Put),
            TokenType::Keyword(Keyword::Where),
            TokenType::Keyword(Keyword::True),
            TokenType::Keyword(Keyword::False),
        ]
    );
    assert_eq!(types_of("_tmp1"), vec![TokenType::Identifier(String::from("_tmp1"))]);
}

#[test]
fn two_character_operators() {
    assert_eq!(
        types_of("a >= 3"),
        vec![
            TokenType::Identifier(String::from("a")),
            TokenType::GreaterThanOrEqual,
            TokenType::Number(String::from("3")),
        ]
    );
    assert_eq!(
        types_of("a > 3"),
        vec![
            TokenType::Identifier(String::from("a")),
            TokenType::GreaterThan,
            TokenType::Number(String::from("3")),
        ]
    );
    assert_eq!(types_of("<= < = !="), vec![
        TokenType::LessThanOrEqual,
        TokenType::LessThan,
        TokenType::Equal,
        TokenType::NotEqual,
    ]);
    assert_eq!(types_of("> ="), vec![TokenType::GreaterThan, TokenType::Equal]);
}

#[test]
fn unterminated_string_ends_input() {
    assert_eq!(tokenize("'abc"), Err(LexerError::UnexpectedEndOfInput));
    assert_eq!(tokenize("\"abc"), Err(LexerError::UnexpectedEndOfInput));
}

#[test]
fn other_quote_does_not_close_a_string() {
    // The body runs up to the same quote that opened it, so the other quote is
    // part of the body and the string is never closed.
    assert_eq!(tokenize("'abc\""), Err(LexerError::UnexpectedEndOfInput));
    assert_eq!(types_of("'say \"hi\"'"), vec![TokenType::String(String::from("say \"hi\""))]);
}

#[test]
fn bang_needs_equal_sign() {
    assert_eq!(tokenize("!"), Err(LexerError::UnexpectedCharacter('!')));
    assert_eq!(tokenize("a ! b"), Err(LexerError::UnexpectedCharacter('!')));
    assert_eq!(types_of("!="), vec![TokenType::NotEqual]);
}

#[test]
fn unknown_character_is_rejected() {
    assert_eq!(tokenize("a # b"), Err(LexerError::UnexpectedCharacter('#')));
    assert_eq!(tokenize("@"), Err(LexerError::UnexpectedCharacter('@')));
}

#[test]
fn empty_input_has_no_tokens() {
    assert_eq!(tokenize(""), Ok(vec![]));
    assert_eq!(tokenize(" \t\n "), Ok(vec![]));
}

#[test]
fn numbers_keep_digits_and_periods() {
    assert_eq!(types_of("1.2.3"), vec![TokenType::Number(String::from("1.2.3"))]);
    assert_eq!(types_of("12abc"), vec![
        TokenType::Number(String::from("12")),
        TokenType::Identifier(String::from("abc")),
    ]);
}

#[test]
fn all_single_character_tokens() {
    assert_eq!(types_of("(){}:;,.*+-/%^"), vec![
        TokenType::LeftParenthesis,
        TokenType::RightParenthesis,
        TokenType::LeftCurlyBrace,
        TokenType::RightCurlyBrace,
        TokenType::Colon,
        TokenType::Semicolon,
        TokenType::Comma,
        TokenType::Period,
        TokenType::Asterisk,
        TokenType::Plus,
        TokenType::Minus,
        TokenType::Slash,
        TokenType::Percent,
        TokenType::Caret,
    ]);
}

#[test]
fn locations_follow_lines() {
    let tokens = tokenize("a\n  bc").unwrap();
    assert_eq!(tokens[0].location, Location { line: 1, column: 1 });
    assert_eq!(tokens[1].location, Location { line: 2, column: 4 });
}

#[test]
fn unicode_words_and_digits() {
    assert_eq!(types_of("名前"), vec![TokenType::Identifier(String::from("名前"))]);
    assert_eq!(types_of("x\u{a0}y"), vec![
        TokenType::Identifier(String::from("x")),
        TokenType::Identifier(String::from("y")),
    ]);
}
