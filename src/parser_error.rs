use vstd::prelude::*;

use crate::ast::Expression;
use crate::token::Token;

verus! {

#[derive(Debug, Clone, PartialEq)]
pub enum ParserError {
    /// A token where another was expected; the text says what was expected.
    UnexpectedToken(Token, String),
    InvalidNumericalValue(String),
    InvalidComparisonOperator(Token),
    InvalidMathematicalOperator(Token),
    InvalidOperatorValue(Token),
    InvalidUnaryOperator(Token),
    MissingIdentifier(String),
    MissingParenthesis,
    /// A `GET` predicate that is no comparison.
    InvalidPredicate(Expression),
    UnexpectedEndOfInput,
}

/// What a `ParserError` stands for, with its texts as sequences of characters.
pub enum ParserErrorModel {
    UnexpectedToken(Token, Seq<char>),
    InvalidNumericalValue(Seq<char>),
    InvalidComparisonOperator(Token),
    InvalidMathematicalOperator(Token),
    InvalidOperatorValue(Token),
    InvalidUnaryOperator(Token),
    MissingIdentifier(Seq<char>),
    MissingParenthesis,
    InvalidPredicate(Expression),
    UnexpectedEndOfInput,
}

impl View for ParserError {
    type V = ParserErrorModel;

    open spec fn view(&self) -> ParserErrorModel {
        match self {
            ParserError::UnexpectedToken(t, s) => ParserErrorModel::UnexpectedToken(*t, s@),
            ParserError::InvalidNumericalValue(s) => ParserErrorModel::InvalidNumericalValue(s@),
            ParserError::InvalidComparisonOperator(t) => ParserErrorModel::InvalidComparisonOperator(*t),
            ParserError::InvalidMathematicalOperator(t) => ParserErrorModel::InvalidMathematicalOperator(*t),
            ParserError::InvalidOperatorValue(t) => ParserErrorModel::InvalidOperatorValue(*t),
            ParserError::InvalidUnaryOperator(t) => ParserErrorModel::InvalidUnaryOperator(*t),
            ParserError::MissingIdentifier(s) => ParserErrorModel::MissingIdentifier(s@),
            ParserError::MissingParenthesis => ParserErrorModel::MissingParenthesis,
            ParserError::InvalidPredicate(e) => ParserErrorModel::InvalidPredicate(*e),
            ParserError::UnexpectedEndOfInput => ParserErrorModel::UnexpectedEndOfInput,
        }
    }
}

} // verus!
