use vstd::prelude::*;

use crate::cursor::{CursorTrackable, Location};

verus! {

#[derive(Debug, Clone, Copy, PartialEq, Eq, Structural)]
pub enum Keyword {
    Get,
    Put,
    Where,
    True,
    False,
}

/// The lexical category of a token, with its text where it has one.
#[derive(Debug, PartialEq, Eq)]
pub enum TokenType {
    LeftParenthesis,
    RightParenthesis,
    LeftCurlyBrace,
    RightCurlyBrace,
    Colon,
    Semicolon,
    Comma,
    Period,
    GreaterThan,
    GreaterThanOrEqual,
    LessThan,
    LessThanOrEqual,
    Equal,
    NotEqual,
    Asterisk,
    Plus,
    Minus,
    Slash,
    Percent,
    Caret,
    Keyword(Keyword),
    /// The digits and periods of a numeric literal, as written.
    Number(String),
    /// The contents of a quoted string, without the quotes.
    String(String),
    Identifier(String),
}

/// What a `TokenType` stands for, with its text as a sequence of characters.
pub enum TokenKind {
    LeftParenthesis,
    RightParenthesis,
    LeftCurlyBrace,
    RightCurlyBrace,
    Colon,
    Semicolon,
    Comma,
    Period,
    GreaterThan,
    GreaterThanOrEqual,
    LessThan,
    LessThanOrEqual,
    Equal,
    NotEqual,
    Asterisk,
    Plus,
    Minus,
    Slash,
    Percent,
    Caret,
    Keyword(Keyword),
    Number(Seq<char>),
    String(Seq<char>),
    Identifier(Seq<char>),
}

impl View for TokenType {
    type V = TokenKind;

    open spec fn view(&self) -> TokenKind {
        match self {
            TokenType::LeftParenthesis => TokenKind::LeftParenthesis,
            TokenType::RightParenthesis => TokenKind::RightParenthesis,
            TokenType::LeftCurlyBrace => TokenKind::LeftCurlyBrace,
            TokenType::RightCurlyBrace => TokenKind::RightCurlyBrace,
            TokenType::Colon => TokenKind::Colon,
            TokenType::Semicolon => TokenKind::Semicolon,
            TokenType::Comma => TokenKind::Comma,
            TokenType::Period => TokenKind::Period,
            TokenType::GreaterThan => TokenKind::GreaterThan,
            TokenType::GreaterThanOrEqual => TokenKind::GreaterThanOrEqual,
            TokenType::LessThan => TokenKind::LessThan,
            TokenType::LessThanOrEqual => TokenKind::LessThanOrEqual,
            TokenType::Equal => TokenKind::Equal,
            TokenType::NotEqual => TokenKind::NotEqual,
            TokenType::Asterisk => TokenKind::Asterisk,
            TokenType::Plus => TokenKind::Plus,
            TokenType::Minus => TokenKind::Minus,
            TokenType::Slash => TokenKind::Slash,
            TokenType::Percent => TokenKind::Percent,
            TokenType::Caret => TokenKind::Caret,
            TokenType::Keyword(k) => TokenKind::Keyword(*k),
            TokenType::Number(s) => TokenKind::Number(s@),
            TokenType::String(s) => TokenKind::String(s@),
            TokenType::Identifier(s) => TokenKind::Identifier(s@),
        }
    }
}

/// A token with the position reached once it has been read.
#[derive(Debug, PartialEq, Eq)]
pub struct Token {
    pub token_type: TokenType,
    pub location: Location,
}

/// What a `Token` stands for.
pub struct TokenModel {
    pub kind: TokenKind,
    pub location: Location,
}

impl View for Token {
    type V = TokenModel;

    open spec fn view(&self) -> TokenModel {
        TokenModel { kind: self.token_type@, location: self.location }
    }
}

impl Clone for TokenType {
    fn clone(&self) -> (r: TokenType)
        ensures
            r == *self,
    {
        match self {
            TokenType::Keyword(k) => TokenType::Keyword(*k),
            TokenType::Number(s) => TokenType::Number(s.clone()),
            TokenType::String(s) => TokenType::String(s.clone()),
            TokenType::Identifier(s) => TokenType::Identifier(s.clone()),
            TokenType::LeftParenthesis => TokenType::LeftParenthesis,
            TokenType::RightParenthesis => TokenType::RightParenthesis,
            TokenType::LeftCurlyBrace => TokenType::LeftCurlyBrace,
            TokenType::RightCurlyBrace => TokenType::RightCurlyBrace,
            TokenType::Colon => TokenType::Colon,
            TokenType::Semicolon => TokenType::Semicolon,
            TokenType::Comma => TokenType::Comma,
            TokenType::Period => TokenType::Period,
            TokenType::GreaterThan => TokenType::GreaterThan,
            TokenType::GreaterThanOrEqual => TokenType::GreaterThanOrEqual,
            TokenType::LessThan => TokenType::LessThan,
            TokenType::LessThanOrEqual => TokenType::LessThanOrEqual,
            TokenType::Equal => TokenType::Equal,
            TokenType::NotEqual => TokenType::NotEqual,
            TokenType::Asterisk => TokenType::Asterisk,
            TokenType::Plus => TokenType::Plus,
            TokenType::Minus => TokenType::Minus,
            TokenType::Slash => TokenType::Slash,
            TokenType::Percent => TokenType::Percent,
            TokenType::Caret => TokenType::Caret,
        }
    }
}

impl Clone for Token {
    fn clone(&self) -> (r: Token)
        ensures
            r == *self,
    {
        Token { token_type: self.token_type.clone(), location: self.location }
    }
}

impl Token {
    pub fn new(token_type: TokenType, location: Location) -> (r: Token)
        ensures
            r.token_type == token_type,
            r.location == location,
    {
        Token { token_type, location }
    }
}

/// The models of a sequence of tokens.
pub open spec fn token_models(tokens: Seq<Token>) -> Seq<TokenModel> {
    tokens.map_values(|t: Token| t@)
}

/// The kinds of a sequence of token models.
pub open spec fn kinds(tokens: Seq<TokenModel>) -> Seq<TokenKind> {
    tokens.map_values(|t: TokenModel| t.kind)
}

impl CursorTrackable for Token {
    /// A token carries its own position.
    open spec fn spec_next_location(&self, location: Location) -> Location {
        self.location
    }

    fn next_location(&self, location: Location) -> (r: Location) {
        self.location
    }
}

} // verus!
