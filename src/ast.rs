use vstd::prelude::*;

use crate::parser_error::ParserError;
use crate::token::{Token, TokenType};

verus! {

/// One statement against the store.
#[derive(Debug, Clone, PartialEq)]
pub enum Statement {
    PutItem { store_name: String, assignments: Vec<Assignment> },
    GetItem { store_name: String, comparisons: Vec<Comparison> },
}

/// What a `Statement` stands for, with its lists as sequences.
pub enum StatementModel {
    PutItem { store_name: String, assignments: Seq<Assignment> },
    GetItem { store_name: String, comparisons: Seq<Comparison> },
}

impl View for Statement {
    type V = StatementModel;

    open spec fn view(&self) -> StatementModel {
        match self {
            Statement::PutItem { store_name, assignments } => StatementModel::PutItem {
                store_name: *store_name,
                assignments: assignments@,
            },
            Statement::GetItem { store_name, comparisons } => StatementModel::GetItem {
                store_name: *store_name,
                comparisons: comparisons@,
            },
        }
    }
}

/// One field written by a `PUT`.
#[derive(Debug, Clone, PartialEq)]
pub struct Assignment {
    pub name: String,
    pub value: Expression,
}

#[derive(Debug, PartialEq)]
pub enum Expression {
    Literal(Value),
    Identifier(String),
    Comparison(Comparison),
    BinaryOperation(MathematicalOperation),
    UnaryOperation(UnaryOperation),
}

/// A literal value. A numeric literal that is no `i64` is kept as `Float`, with
/// the text it was written as.
#[derive(Debug, PartialEq)]
pub enum Value {
    Float(String),
    Integer(i64),
    String(String),
    Boolean(bool),
}

/// A predicate of a `GET`, or a comparison inside an expression.
#[derive(Debug, PartialEq)]
pub struct Comparison {
    pub left: Box<Expression>,
    pub operator: ComparisonOperator,
    pub right: Box<Expression>,
}

pub trait HasPrecedence {
    /// How tightly the operator binds: a higher value binds tighter.
    spec fn spec_precedence(&self) -> u8;

    fn precedence(&self) -> (r: u8)
        ensures
            r == self.spec_precedence(),
    ;
}

#[derive(Debug, Clone, Copy, PartialEq, Eq, PartialOrd, Ord, Structural)]
pub enum ComparisonOperator {
    GreaterThan,
    GreaterThanOrEqual,
    LessThan,
    LessThanOrEqual,
    Equal,
    NotEqual,
}

impl HasPrecedence for ComparisonOperator {
    open spec fn spec_precedence(&self) -> u8 {
        1
    }

    fn precedence(&self) -> (r: u8) {
        1
    }
}

/// The comparison operator that a token type stands for, if any.
pub open spec fn spec_comparison_operator(token_type: TokenType) -> Option<ComparisonOperator> {
    match token_type {
        TokenType::GreaterThan => Some(ComparisonOperator::GreaterThan),
        TokenType::GreaterThanOrEqual => Some(ComparisonOperator::GreaterThanOrEqual),
        TokenType::LessThan => Some(ComparisonOperator::LessThan),
        TokenType::LessThanOrEqual => Some(ComparisonOperator::LessThanOrEqual),
        TokenType::Equal => Some(ComparisonOperator::Equal),
        TokenType::NotEqual => Some(ComparisonOperator::NotEqual),
        _ => None,
    }
}

impl ComparisonOperator {
    pub fn try_from(token: &Token) -> (r: Result<ComparisonOperator, ParserError>)
        ensures
            match spec_comparison_operator(token.token_type) {
                Some(op) => r == Ok::<ComparisonOperator, ParserError>(op),
                None => r == Err::<ComparisonOperator, ParserError>(
                    ParserError::InvalidComparisonOperator(*token),
                ),
            },
    {
        match token.token_type {
            TokenType::GreaterThan => Ok(ComparisonOperator::GreaterThan),
            TokenType::GreaterThanOrEqual => Ok(ComparisonOperator::GreaterThanOrEqual),
            TokenType::LessThan => Ok(ComparisonOperator::LessThan),
            TokenType::LessThanOrEqual => Ok(ComparisonOperator::LessThanOrEqual),
            TokenType::Equal => Ok(ComparisonOperator::Equal),
            TokenType::NotEqual => Ok(ComparisonOperator::NotEqual),
            _ => Err(ParserError::InvalidComparisonOperator(token.clone())),
        }
    }
}

/// An arithmetic operation inside an expression.
#[derive(Debug, PartialEq)]
pub struct MathematicalOperation {
    pub left: Box<Expression>,
    pub operator: MathematicalOperator,
    pub right: Box<Expression>,
}

#[derive(Debug, Clone, Copy, PartialEq, Eq, PartialOrd, Ord, Structural)]
pub enum MathematicalOperator {
    Add,
    Subtract,
    Multiply,
    Divide,
    Modulus,
    Exponentiate,
}

impl HasPrecedence for MathematicalOperator {
    open spec fn spec_precedence(&self) -> u8 {
        match self {
            MathematicalOperator::Add | MathematicalOperator::Subtract => 2,
            MathematicalOperator::Multiply
            | MathematicalOperator::Divide
            | MathematicalOperator::Modulus => 3,
            MathematicalOperator::Exponentiate => 4,
        }
    }

    fn precedence(&self) -> (r: u8) {
        match self {
            MathematicalOperator::Add | MathematicalOperator::Subtract => 2,
            MathematicalOperator::Multiply
            | MathematicalOperator::Divide
            | MathematicalOperator::Modulus => 3,
            MathematicalOperator::Exponentiate => 4,
        }
    }
}

/// The arithmetic operator that a token type stands for, if any.
pub open spec fn spec_mathematical_operator(token_type: TokenType) -> Option<MathematicalOperator> {
    match token_type {
        TokenType::Plus => Some(MathematicalOperator::Add),
        TokenType::Minus => Some(MathematicalOperator::Subtract),
        TokenType::Asterisk => Some(MathematicalOperator::Multiply),
        TokenType::Slash => Some(MathematicalOperator::Divide),
        TokenType::Percent => Some(MathematicalOperator::Modulus),
        TokenType::Caret => Some(MathematicalOperator::Exponentiate),
        _ => None,
    }
}

impl MathematicalOperator {
    pub fn try_from(token: &Token) -> (r: Result<MathematicalOperator, ParserError>)
        ensures
            match spec_mathematical_operator(token.token_type) {
                Some(op) => r == Ok::<MathematicalOperator, ParserError>(op),
                None => r == Err::<MathematicalOperator, ParserError>(
                    ParserError::InvalidMathematicalOperator(*token),
                ),
            },
    {
        match token.token_type {
            TokenType::Plus => Ok(MathematicalOperator::Add),
            TokenType::Minus => Ok(MathematicalOperator::Subtract),
            TokenType::Asterisk => Ok(MathematicalOperator::Multiply),
            TokenType::Slash => Ok(MathematicalOperator::Divide),
            TokenType::Percent => Ok(MathematicalOperator::Modulus),
            TokenType::Caret => Ok(MathematicalOperator::Exponentiate),
            _ => Err(ParserError::InvalidMathematicalOperator(token.clone())),
        }
    }
}

/// Any operator that joins two operands.
#[derive(Debug, Clone, Copy, PartialEq, Eq, PartialOrd, Ord, Structural)]
pub enum BinaryOperator {
    Comparison(ComparisonOperator),
    Mathematical(MathematicalOperator),
}

impl HasPrecedence for BinaryOperator {
    open spec fn spec_precedence(&self) -> u8 {
        match self {
            BinaryOperator::Comparison(operator) => operator.spec_precedence(),
            BinaryOperator::Mathematical(operator) => operator.spec_precedence(),
        }
    }

    fn precedence(&self) -> (r: u8) {
        match self {
            BinaryOperator::Comparison(operator) => operator.precedence(),
            BinaryOperator::Mathematical(operator) => operator.precedence(),
        }
    }
}

/// The binary operator that a token type stands for, a comparison first.
pub open spec fn spec_binary_operator(token_type: TokenType) -> Option<BinaryOperator> {
    match spec_comparison_operator(token_type) {
        Some(op) => Some(BinaryOperator::Comparison(op)),
        None => match spec_mathematical_operator(token_type) {
            Some(op) => Some(BinaryOperator::Mathematical(op)),
            None => None,
        },
    }
}

impl BinaryOperator {
    pub fn try_from(token: &Token) -> (r: Result<BinaryOperator, ParserError>)
        ensures
            match spec_binary_operator(token.token_type) {
                Some(op) => r == Ok::<BinaryOperator, ParserError>(op),
                None => r == Err::<BinaryOperator, ParserError>(
                    ParserError::InvalidOperatorValue(*token),
                ),
            },
    {
        if let Ok(operator) = ComparisonOperator::try_from(token) {
            Ok(BinaryOperator::Comparison(operator))
        } else if let Ok(operator) = MathematicalOperator::try_from(token) {
            Ok(BinaryOperator::Mathematical(operator))
        } else {
            Err(ParserError::InvalidOperatorValue(token.clone()))
        }
    }
}

#[derive(Debug, Clone, Copy, PartialEq, Eq, PartialOrd, Ord, Structural)]
pub enum UnaryOperator {
    Negate,
}

impl HasPrecedence for UnaryOperator {
    open spec fn spec_precedence(&self) -> u8 {
        5
    }

    fn precedence(&self) -> (r: u8) {
        5
    }
}

/// An operator applied to one operand.
#[derive(Debug, PartialEq)]
pub struct UnaryOperation {
    pub operator: UnaryOperator,
    pub operand: Box<Expression>,
}

impl Clone for Value {
    fn clone(&self) -> (r: Value)
        ensures
            r == *self,
    {
        match self {
            Value::Float(s) => Value::Float(s.clone()),
            Value::Integer(i) => Value::Integer(*i),
            Value::String(s) => Value::String(s.clone()),
            Value::Boolean(b) => Value::Boolean(*b),
        }
    }
}

impl Expression {
    /// A copy of this expression, node for node.
    pub fn deep_clone(&self) -> (r: Expression)
        ensures
            r == *self,
        decreases self,
    {
        match self {
            Expression::Literal(v) => Expression::Literal(v.clone()),
            Expression::Identifier(s) => Expression::Identifier(s.clone()),
            Expression::Comparison(c) => Expression::Comparison(
                Comparison {
                    left: Box::new(c.left.deep_clone()),
                    operator: c.operator,
                    right: Box::new(c.right.deep_clone()),
                },
            ),
            Expression::BinaryOperation(m) => Expression::BinaryOperation(
                MathematicalOperation {
                    left: Box::new(m.left.deep_clone()),
                    operator: m.operator,
                    right: Box::new(m.right.deep_clone()),
                },
            ),
            Expression::UnaryOperation(u) => Expression::UnaryOperation(
                UnaryOperation { operator: u.operator, operand: Box::new(u.operand.deep_clone()) },
            ),
        }
    }
}

impl Clone for Expression {
    fn clone(&self) -> (r: Expression)
        ensures
            r == *self,
    {
        self.deep_clone()
    }
}

impl Clone for Comparison {
    fn clone(&self) -> (r: Comparison)
        ensures
            r == *self,
    {
        Comparison {
            left: Box::new(self.left.deep_clone()),
            operator: self.operator,
            right: Box::new(self.right.deep_clone()),
        }
    }
}

impl Clone for MathematicalOperation {
    fn clone(&self) -> (r: MathematicalOperation)
        ensures
            r == *self,
    {
        MathematicalOperation {
            left: Box::new(self.left.deep_clone()),
            operator: self.operator,
            right: Box::new(self.right.deep_clone()),
        }
    }
}

impl Clone for UnaryOperation {
    fn clone(&self) -> (r: UnaryOperation)
        ensures
            r == *self,
    {
        UnaryOperation { operator: self.operator, operand: Box::new(self.operand.deep_clone()) }
    }
}

} // verus!
