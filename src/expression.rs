use vstd::prelude::*;

use crate::ast::{
    spec_binary_operator, BinaryOperator, Comparison, Expression, HasPrecedence,
    MathematicalOperation, UnaryOperation, UnaryOperator, Value,
};
use crate::cursor::PeekingCursor;
use crate::number::{number_value, spec_number_value};
use crate::parser_error::{ParserError, ParserErrorModel};
use crate::token::{Keyword, Token, TokenType};

verus! {

/// What is parsed from the front of a token sequence: a value, or an error, each
/// with the tokens left unread after it.
pub type Parsed<T> = Result<(T, Seq<Token>), (ParserErrorModel, Seq<Token>)>;

/// `r` is the result that `expected` describes, and `rest` the tokens it leaves.
pub open spec fn delivers<T>(expected: Parsed<T>, r: Result<T, ParserError>, rest: Seq<Token>) -> bool {
    match expected {
        Ok((value, left_over)) => r == Ok::<T, ParserError>(value) && rest == left_over,
        Err((e, left_over)) => r is Err && r->Err_0@ == e && rest == left_over,
    }
}

/// The expression that joins `left` and `right` by `operator`.
pub open spec fn combine(left: Expression, operator: BinaryOperator, right: Expression) -> Expression {
    match operator {
        BinaryOperator::Comparison(operator) => Expression::Comparison(
            Comparison { left: Box::new(left), operator, right: Box::new(right) },
        ),
        BinaryOperator::Mathematical(operator) => Expression::BinaryOperation(
            MathematicalOperation { left: Box::new(left), operator, right: Box::new(right) },
        ),
    }
}

/// One operand: a literal, an identifier, a parenthesised expression, or a negated
/// operand. A group not closed by `)` is a missing parenthesis; the token read in
/// its place, if any, is consumed.
pub open spec fn spec_parse_primary(tokens: Seq<Token>) -> Parsed<Expression>
    decreases tokens.len(), 0nat,
{
    if tokens.len() == 0 {
        Err((ParserErrorModel::UnexpectedEndOfInput, tokens))
    } else {
        let token = tokens[0];
        let rest = tokens.drop_first();
        match token.token_type {
            TokenType::String(value) => Ok((Expression::Literal(Value::String(value)), rest)),
            TokenType::Keyword(Keyword::True) => Ok((Expression::Literal(Value::Boolean(true)), rest)),
            TokenType::Keyword(Keyword::False) => Ok((Expression::Literal(Value::Boolean(false)), rest)),
            TokenType::Number(text) => match spec_number_value(text) {
                Ok(value) => Ok((Expression::Literal(value), rest)),
                Err(e) => Err((e, rest)),
            },
            TokenType::Identifier(name) => Ok((Expression::Identifier(name), rest)),
            TokenType::LeftParenthesis => match spec_parse_expression(rest, 0) {
                Err(e) => Err(e),
                Ok((inner, after)) => {
                    if after.len() == 0 {
                        Err((ParserErrorModel::MissingParenthesis, after))
                    } else if after[0].token_type is RightParenthesis {
                        Ok((inner, after.drop_first()))
                    } else {
                        Err((ParserErrorModel::MissingParenthesis, after.drop_first()))
                    }
                },
            },
            TokenType::Minus => match spec_parse_primary(rest) {
                Err(e) => Err(e),
                Ok((operand, after)) => Ok(
                    (
                        Expression::UnaryOperation(
                            UnaryOperation { operator: UnaryOperator::Negate, operand: Box::new(operand) },
                        ),
                        after,
                    ),
                ),
            },
            _ => Err((ParserErrorModel::UnexpectedToken(token, "value, keyword, or identifier"@), rest)),
        }
    }
}

/// An operand followed by the operators (and their right-hand sides) that bind at
/// least as tightly as `precedence`. The right-hand side of an operator is parsed
/// at that operator's own precedence, so operators of equal precedence nest to
/// the right.
pub open spec fn spec_parse_expression(tokens: Seq<Token>, precedence: u8) -> Parsed<Expression>
    decreases tokens.len(), 1nat,
{
    match spec_parse_primary(tokens) {
        Err(e) => Err(e),
        Ok((left, rest)) => {
            if rest.len() < tokens.len() {
                spec_parse_operations(left, rest, precedence)
            } else {
                Err((ParserErrorModel::UnexpectedEndOfInput, rest))
            }
        },
    }
}

/// The operators that follow `left`, as `spec_parse_expression` takes them.
pub open spec fn spec_parse_operations(left: Expression, tokens: Seq<Token>, precedence: u8) -> Parsed<
    Expression,
>
    decreases tokens.len(), 2nat,
{
    if tokens.len() == 0 {
        Ok((left, tokens))
    } else {
        match spec_binary_operator(tokens[0].token_type) {
            None => Ok((left, tokens)),
            Some(operator) => {
                if operator.spec_precedence() < precedence {
                    Ok((left, tokens))
                } else {
                    match spec_parse_expression(tokens.drop_first(), operator.spec_precedence()) {
                        Err(e) => Err(e),
                        Ok((right, after)) => {
                            if after.len() < tokens.len() {
                                spec_parse_operations(combine(left, operator, right), after, precedence)
                            } else {
                                Err((ParserErrorModel::UnexpectedEndOfInput, after))
                            }
                        },
                    }
                }
            },
        }
    }
}

pub fn parse_expression(tokens: &mut PeekingCursor<Token>, precedence: u8) -> (r: Result<
    Expression,
    ParserError,
>)
    ensures
        delivers(spec_parse_expression(old(tokens)@, precedence), r, final(tokens)@),
        old(tokens).moved_to(&*final(tokens)),
        r is Ok ==> final(tokens)@.len() < old(tokens)@.len(),
    decreases old(tokens)@.len(), 1nat,
{
    let ghost start = *tokens;
    let mut left = match parse_primary(tokens) {
        Ok(left) => left,
        Err(e) => return Err(e),
    };
    loop
        invariant
            start@ == old(tokens)@,
            start.moved_to(&*tokens),
            tokens@.len() < start@.len(),
            spec_parse_expression(start@, precedence) == spec_parse_operations(left, tokens@, precedence),
        ensures
            start.moved_to(&*tokens),
            tokens@.len() < start@.len(),
            spec_parse_expression(start@, precedence) == Ok::<(Expression, Seq<Token>), (ParserErrorModel, Seq<Token>)>((left, tokens@)),
        decreases tokens@.len(),
    {
        let binary_operator = match tokens.peek() {
            Some(token) => match BinaryOperator::try_from(token) {
                Ok(operator) => operator,
                Err(_) => break,
            },
            None => break,
        };
        if binary_operator.precedence() < precedence {
            break;
        }
        let ghost before = *tokens;
        tokens.next();
        let ghost operand_start = *tokens;
        assert(operand_start@ == before@.drop_first());
        assert(spec_binary_operator(before@[0].token_type) == Some(binary_operator));
        left = match parse_binary_operation(tokens, left, binary_operator) {
            Ok(combined) => combined,
            Err(e) => {
                proof {
                    PeekingCursor::lemma_moved_to_trans(&before, &operand_start, &*tokens);
                    PeekingCursor::lemma_moved_to_trans(&start, &before, &*tokens);
                }
                return Err(e);
            },
        };
        proof {
            PeekingCursor::lemma_moved_to_trans(&before, &operand_start, &*tokens);
            PeekingCursor::lemma_moved_to_trans(&start, &before, &*tokens);
        }
    }
    Ok(left)
}

/// The right-hand side of `operator`, joined to `left`.
fn parse_binary_operation(
    tokens: &mut PeekingCursor<Token>,
    left: Expression,
    operator: BinaryOperator,
) -> (r: Result<Expression, ParserError>)
    ensures
        match spec_parse_expression(old(tokens)@, operator.spec_precedence()) {
            Ok((right, after)) => r == Ok::<Expression, ParserError>(combine(left, operator, right))
                && final(tokens)@ == after,
            Err((e, after)) => r is Err && r->Err_0@ == e && final(tokens)@ == after,
        },
        old(tokens).moved_to(&*final(tokens)),
        r is Ok ==> final(tokens)@.len() < old(tokens)@.len(),
    decreases old(tokens)@.len(), 2nat,
{
    let precedence = operator.precedence();
    let right = match parse_expression(tokens, precedence) {
        Ok(right) => right,
        Err(e) => return Err(e),
    };
    match operator {
        BinaryOperator::Comparison(operator) => Ok(
            Expression::Comparison(Comparison { left: Box::new(left), operator, right: Box::new(right) }),
        ),
        BinaryOperator::Mathematical(operator) => Ok(
            Expression::BinaryOperation(
                MathematicalOperation { left: Box::new(left), operator, right: Box::new(right) },
            ),
        ),
    }
}

fn parse_primary(tokens: &mut PeekingCursor<Token>) -> (r: Result<Expression, ParserError>)
    ensures
        delivers(spec_parse_primary(old(tokens)@), r, final(tokens)@),
        old(tokens).moved_to(&*final(tokens)),
        r is Ok ==> final(tokens)@.len() < old(tokens)@.len(),
    decreases old(tokens)@.len(), 0nat,
{
    let ghost start = *tokens;
    let token = match tokens.next() {
        Some(token) => token,
        None => return Err(ParserError::UnexpectedEndOfInput),
    };
    let ghost after_token = *tokens;
    match token.token_type {
        TokenType::String(value) => Ok(Expression::Literal(Value::String(value))),
        TokenType::Keyword(Keyword::True) => Ok(Expression::Literal(Value::Boolean(true))),
        TokenType::Keyword(Keyword::False) => Ok(Expression::Literal(Value::Boolean(false))),
        TokenType::Number(number) => match number_value(number) {
            Ok(value) => Ok(Expression::Literal(value)),
            Err(e) => Err(e),
        },
        TokenType::Identifier(value) => Ok(Expression::Identifier(value)),
        TokenType::LeftParenthesis => {
            let inner = parse_expression(tokens, 0);
            proof {
                PeekingCursor::lemma_moved_to_trans(&start, &after_token, &*tokens);
            }
            let expression = match inner {
                Ok(expression) => expression,
                Err(e) => return Err(e),
            };
            let ghost before_closing = *tokens;
            let closing = tokens.next();
            proof {
                PeekingCursor::lemma_moved_to_trans(&start, &before_closing, &*tokens);
            }
            match closing {
                Some(closing) => match closing.token_type {
                    TokenType::RightParenthesis => Ok(expression),
                    _ => Err(ParserError::MissingParenthesis),
                },
                None => Err(ParserError::MissingParenthesis),
            }
        },
        TokenType::Minus => {
            let operand = parse_primary(tokens);
            proof {
                PeekingCursor::lemma_moved_to_trans(&start, &after_token, &*tokens);
            }
            match operand {
                Ok(operand) => Ok(
                    Expression::UnaryOperation(
                        UnaryOperation { operator: UnaryOperator::Negate, operand: Box::new(operand) },
                    ),
                ),
                Err(e) => Err(e),
            }
        },
        _ => Err(ParserError::UnexpectedToken(token, "value, keyword, or identifier".to_owned())),
    }
}

} // verus!
