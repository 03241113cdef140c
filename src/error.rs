use vstd::prelude::*;

use crate::ast::{Statement, StatementModel};
use crate::congruence::{lemma_same_statement, same_error, same_statement};
use crate::expression::Parsed;
use crate::lexer::{spec_tokenize, tokenize, LexerError};
use crate::parser_error::ParserError;
use crate::statement::{parse, spec_parse_statement};
use crate::token::{token_models, Token};

verus! {

/// Declares `std::io::Error`, which a `PliteDbError` carries without looking inside.
#[verifier::external_type_specification]
#[verifier::external_body]
pub struct ExIoError(std::io::Error);

/// A failure to read or to parse a query.
#[derive(Debug, Clone, PartialEq)]
pub enum QueryError {
    LexerError(LexerError),
    ParserError(ParserError),
}

#[derive(Debug)]
pub enum PliteDbError {
    IoError(std::io::Error),
    LexerError(LexerError),
    QueryError(QueryError),
    ParserError(ParserError),
}

pub const IO_ERROR_CODE: isize = 1;

pub const UNEXPECTED_CHARACTER_CODE: isize = 1101;

pub const LEXER_END_OF_INPUT_CODE: isize = 1102;

pub const UNEXPECTED_TOKEN_CODE: isize = 1201;

pub const INVALID_NUMERICAL_VALUE_CODE: isize = 1202;

pub const INVALID_COMPARISON_OPERATOR_CODE: isize = 1203;

pub const INVALID_MATHEMATICAL_OPERATOR_CODE: isize = 1204;

pub const INVALID_OPERATOR_VALUE_CODE: isize = 1205;

pub const INVALID_UNARY_OPERATOR_CODE: isize = 1206;

pub const MISSING_IDENTIFIER_CODE: isize = 1207;

pub const MISSING_PARENTHESIS_CODE: isize = 1208;

pub const INVALID_PREDICATE_CODE: isize = 1209;

pub const PARSER_END_OF_INPUT_CODE: isize = 1210;

/// A fixed number for each kind of error, for callers that cannot inspect the error.
pub trait IntoFfiErrorCode {
    spec fn spec_error_code(&self) -> isize;

    fn to_error_code(&self) -> (r: libc::intptr_t)
        ensures
            r == self.spec_error_code(),
    ;
}

impl IntoFfiErrorCode for LexerError {
    open spec fn spec_error_code(&self) -> isize {
        match self {
            LexerError::UnexpectedCharacter(_) => UNEXPECTED_CHARACTER_CODE,
            LexerError::UnexpectedEndOfInput => LEXER_END_OF_INPUT_CODE,
        }
    }

    fn to_error_code(&self) -> (r: libc::intptr_t) {
        match self {
            LexerError::UnexpectedCharacter(_) => UNEXPECTED_CHARACTER_CODE,
            LexerError::UnexpectedEndOfInput => LEXER_END_OF_INPUT_CODE,
        }
    }
}

impl IntoFfiErrorCode for ParserError {
    open spec fn spec_error_code(&self) -> isize {
        match self {
            ParserError::UnexpectedToken(..) => UNEXPECTED_TOKEN_CODE,
            ParserError::InvalidNumericalValue(_) => INVALID_NUMERICAL_VALUE_CODE,
            ParserError::InvalidComparisonOperator(_) => INVALID_COMPARISON_OPERATOR_CODE,
            ParserError::InvalidMathematicalOperator(_) => INVALID_MATHEMATICAL_OPERATOR_CODE,
            ParserError::InvalidOperatorValue(_) => INVALID_OPERATOR_VALUE_CODE,
            ParserError::InvalidUnaryOperator(_) => INVALID_UNARY_OPERATOR_CODE,
            ParserError::MissingIdentifier(_) => MISSING_IDENTIFIER_CODE,
            ParserError::MissingParenthesis => MISSING_PARENTHESIS_CODE,
            ParserError::InvalidPredicate(_) => INVALID_PREDICATE_CODE,
            ParserError::UnexpectedEndOfInput => PARSER_END_OF_INPUT_CODE,
        }
    }

    fn to_error_code(&self) -> (r: libc::intptr_t) {
        match self {
            ParserError::UnexpectedToken(..) => UNEXPECTED_TOKEN_CODE,
            ParserError::InvalidNumericalValue(_) => INVALID_NUMERICAL_VALUE_CODE,
            ParserError::InvalidComparisonOperator(_) => INVALID_COMPARISON_OPERATOR_CODE,
            ParserError::InvalidMathematicalOperator(_) => INVALID_MATHEMATICAL_OPERATOR_CODE,
            ParserError::InvalidOperatorValue(_) => INVALID_OPERATOR_VALUE_CODE,
            ParserError::InvalidUnaryOperator(_) => INVALID_UNARY_OPERATOR_CODE,
            ParserError::MissingIdentifier(_) => MISSING_IDENTIFIER_CODE,
            ParserError::MissingParenthesis => MISSING_PARENTHESIS_CODE,
            ParserError::InvalidPredicate(_) => INVALID_PREDICATE_CODE,
            ParserError::UnexpectedEndOfInput => PARSER_END_OF_INPUT_CODE,
        }
    }
}

impl IntoFfiErrorCode for QueryError {
    open spec fn spec_error_code(&self) -> isize {
        match self {
            QueryError::LexerError(e) => e.spec_error_code(),
            QueryError::ParserError(e) => e.spec_error_code(),
        }
    }

    fn to_error_code(&self) -> (r: libc::intptr_t) {
        match self {
            QueryError::LexerError(e) => e.to_error_code(),
            QueryError::ParserError(e) => e.to_error_code(),
        }
    }
}

impl IntoFfiErrorCode for PliteDbError {
    open spec fn spec_error_code(&self) -> isize {
        match self {
            PliteDbError::IoError(_) => IO_ERROR_CODE,
            PliteDbError::LexerError(e) => e.spec_error_code(),
            PliteDbError::QueryError(e) => e.spec_error_code(),
            PliteDbError::ParserError(e) => e.spec_error_code(),
        }
    }

    fn to_error_code(&self) -> (r: libc::intptr_t) {
        match self {
            PliteDbError::IoError(_) => IO_ERROR_CODE,
            PliteDbError::LexerError(e) => e.to_error_code(),
            PliteDbError::QueryError(e) => e.to_error_code(),
            PliteDbError::ParserError(e) => e.to_error_code(),
        }
    }
}

/// `r` is the outcome `expected` describes, up to the characters of texts.
pub open spec fn query_delivers(r: Result<Statement, QueryError>, expected: Parsed<StatementModel>) -> bool {
    match expected {
        Ok((statement, _)) => r is Ok && same_statement(r->Ok_0@, statement),
        Err((e, _)) => r is Err && r->Err_0 is ParserError && same_error(r->Err_0->ParserError_0@, e),
    }
}

/// The statement that a line of text holds: its tokens, then the statement they
/// begin with. Whatever token values carry the lexer's kinds, texts and positions,
/// the outcome is the one the parser gives on them.
pub fn parse_query(query: &str) -> (r: Result<Statement, QueryError>)
    ensures
        match spec_tokenize(query@) {
            Err(e) => r == Err::<Statement, QueryError>(QueryError::LexerError(e)),
            Ok(models) => forall|tokens: Seq<Token>|
                #![trigger token_models(tokens)]
                token_models(tokens) == models ==> query_delivers(r, spec_parse_statement(tokens)),
        },
{
    let tokens = match tokenize(query) {
        Ok(tokens) => tokens,
        Err(e) => return Err(QueryError::LexerError(e)),
    };
    let ghost read = tokens@;
    let r = match parse(tokens) {
        Ok(statement) => Ok(statement),
        Err(e) => Err(QueryError::ParserError(e)),
    };
    proof {
        assert forall|other: Seq<Token>| #[trigger] token_models(other) == token_models(read) implies query_delivers(
            r,
            spec_parse_statement(other),
        ) by {
            lemma_same_statement(read, other);
        }
    }
    r
}

} // verus!
