use vstd::prelude::*;

use crate::ast::{Assignment, Comparison, Expression, Statement, StatementModel};
use crate::cursor::PeekingCursor;
use crate::expression::{delivers, parse_expression, spec_parse_expression, Parsed};
use crate::parser_error::{ParserError, ParserErrorModel};
use crate::token::{Keyword, Token, TokenType};

verus! {

/// `r` is the statement that `expected` describes, and `rest` the tokens it leaves.
pub open spec fn delivers_statement(
    expected: Parsed<StatementModel>,
    r: Result<Statement, ParserError>,
    rest: Seq<Token>,
) -> bool {
    match expected {
        Ok((statement, left_over)) => r is Ok && r->Ok_0@ == statement && rest == left_over,
        Err((e, left_over)) => r is Err && r->Err_0@ == e && rest == left_over,
    }
}

/// A name: an identifier, or a quoted string so that a name may spell a keyword.
pub open spec fn spec_parse_name(tokens: Seq<Token>, description: Seq<char>) -> Parsed<String> {
    if tokens.len() == 0 {
        Err((ParserErrorModel::UnexpectedEndOfInput, tokens))
    } else {
        match tokens[0].token_type {
            TokenType::Identifier(name) => Ok((name, tokens.drop_first())),
            TokenType::String(name) => Ok((name, tokens.drop_first())),
            _ => Err((ParserErrorModel::UnexpectedToken(tokens[0], description), tokens.drop_first())),
        }
    }
}

/// The one token of type `expected`, which `description` names.
pub open spec fn spec_expect(tokens: Seq<Token>, expected: TokenType, description: Seq<char>) -> Parsed<()> {
    if tokens.len() == 0 {
        Err((ParserErrorModel::UnexpectedEndOfInput, tokens))
    } else if tokens[0].token_type == expected {
        Ok(((), tokens.drop_first()))
    } else {
        Err((ParserErrorModel::UnexpectedToken(tokens[0], description), tokens.drop_first()))
    }
}

/// The predicates of a `GET`, separated by commas: each an expression that is a
/// comparison.
pub open spec fn spec_parse_comparisons(tokens: Seq<Token>) -> Parsed<Seq<Comparison>>
    decreases tokens.len(),
{
    match spec_parse_expression(tokens, 0) {
        Err(e) => Err(e),
        Ok((expression, after)) => match expression {
            Expression::Comparison(comparison) => {
                if after.len() == 0 {
                    Err((ParserErrorModel::UnexpectedEndOfInput, after))
                } else if after[0].token_type is Comma && after.len() < tokens.len() {
                    match spec_parse_comparisons(after.drop_first()) {
                        Ok((more, rest)) => Ok((seq![comparison] + more, rest)),
                        Err(e) => Err(e),
                    }
                } else {
                    Ok((seq![comparison], after))
                }
            },
            _ => Err((ParserErrorModel::InvalidPredicate(expression), after)),
        },
    }
}

/// One `name: value` of a `PUT`, and the tokens after it.
pub open spec fn spec_parse_assignment(tokens: Seq<Token>) -> Parsed<Assignment> {
    match spec_parse_name(tokens, "attribute name, as a string or identifier"@) {
        Err(e) => Err(e),
        Ok((name, after_name)) => match spec_expect(after_name, TokenType::Colon, ":"@) {
            Err(e) => Err(e),
            Ok((_, after_colon)) => match spec_parse_expression(after_colon, 0) {
                Err(e) => Err(e),
                Ok((value, after)) => Ok((Assignment { name, value }, after)),
            },
        },
    }
}

/// The assignments of a `PUT`, separated by commas.
pub open spec fn spec_parse_assignments(tokens: Seq<Token>) -> Parsed<Seq<Assignment>>
    decreases tokens.len(),
{
    match spec_parse_assignment(tokens) {
        Err(e) => Err(e),
        Ok((assignment, after)) => {
            if after.len() == 0 {
                Err((ParserErrorModel::UnexpectedEndOfInput, after))
            } else if after[0].token_type is Comma && after.len() < tokens.len() {
                match spec_parse_assignments(after.drop_first()) {
                    Ok((more, rest)) => Ok((seq![assignment] + more, rest)),
                    Err(e) => Err(e),
                }
            } else {
                Ok((seq![assignment], after))
            }
        },
    }
}

/// `GET store WHERE { predicates }`, after the `GET`.
pub open spec fn spec_parse_get_item(tokens: Seq<Token>) -> Parsed<StatementModel> {
    match spec_parse_name(tokens, "store name"@) {
        Err(e) => Err(e),
        Ok((store_name, t1)) => match spec_expect(t1, TokenType::Keyword(Keyword::Where), "WHERE"@) {
            Err(e) => Err(e),
            Ok((_, t2)) => match spec_expect(t2, TokenType::LeftCurlyBrace, "{"@) {
                Err(e) => Err(e),
                Ok((_, t3)) => match spec_parse_comparisons(t3) {
                    Err(e) => Err(e),
                    Ok((comparisons, t4)) => match spec_expect(t4, TokenType::RightCurlyBrace, "}"@) {
                        Err(e) => Err(e),
                        Ok((_, t5)) => Ok((StatementModel::GetItem { store_name, comparisons }, t5)),
                    },
                },
            },
        },
    }
}

/// `PUT store { assignments }`, after the `PUT`.
pub open spec fn spec_parse_put_item(tokens: Seq<Token>) -> Parsed<StatementModel> {
    match spec_parse_name(tokens, "store name"@) {
        Err(e) => Err(e),
        Ok((store_name, t1)) => match spec_expect(t1, TokenType::LeftCurlyBrace, "{"@) {
            Err(e) => Err(e),
            Ok((_, t2)) => match spec_parse_assignments(t2) {
                Err(e) => Err(e),
                Ok((assignments, t3)) => match spec_expect(t3, TokenType::RightCurlyBrace, "}"@) {
                    Err(e) => Err(e),
                    Ok((_, t4)) => Ok((StatementModel::PutItem { store_name, assignments }, t4)),
                },
            },
        },
    }
}

/// A statement: `GET` or `PUT` and what follows it.
pub open spec fn spec_parse_statement(tokens: Seq<Token>) -> Parsed<StatementModel> {
    if tokens.len() == 0 {
        Err((ParserErrorModel::UnexpectedEndOfInput, tokens))
    } else {
        match tokens[0].token_type {
            TokenType::Keyword(Keyword::Get) => spec_parse_get_item(tokens.drop_first()),
            TokenType::Keyword(Keyword::Put) => spec_parse_put_item(tokens.drop_first()),
            _ => Err((ParserErrorModel::UnexpectedToken(tokens[0], "GET or PUT"@), tokens.drop_first())),
        }
    }
}

pub fn parse_statement(tokens: &mut PeekingCursor<Token>) -> (r: Result<Statement, ParserError>)
    ensures
        delivers_statement(spec_parse_statement(old(tokens)@), r, final(tokens)@),
        old(tokens).moved_to(&*final(tokens)),
{
    let ghost start = *tokens;
    let first = tokens.next();
    let ghost after_first = *tokens;
    match first {
        Some(token) => match token.token_type {
            TokenType::Keyword(Keyword::Get) => {
                let r = parse_get_item(tokens);
                proof { PeekingCursor::lemma_moved_to_trans(&start, &after_first, &*tokens); }
                r
            },
            TokenType::Keyword(Keyword::Put) => {
                let r = parse_put_item(tokens);
                proof { PeekingCursor::lemma_moved_to_trans(&start, &after_first, &*tokens); }
                r
            },
            _ => Err(ParserError::UnexpectedToken(token, "GET or PUT".to_owned())),
        },
        None => Err(ParserError::UnexpectedEndOfInput),
    }
}

fn parse_get_item(tokens: &mut PeekingCursor<Token>) -> (r: Result<Statement, ParserError>)
    ensures
        delivers_statement(spec_parse_get_item(old(tokens)@), r, final(tokens)@),
        old(tokens).moved_to(&*final(tokens)),
{
    let ghost t0 = *tokens;
    let store_name = match parse_store_name(tokens) {
        Ok(name) => name,
        Err(e) => return Err(e),
    };
    let ghost t1 = *tokens;
    let step = expect_where(tokens);
    proof { PeekingCursor::lemma_moved_to_trans(&t0, &t1, &*tokens); }
    if let Err(e) = step {
        return Err(e);
    }
    let ghost t2 = *tokens;
    let step = expect_left_curly_brace(tokens);
    proof { PeekingCursor::lemma_moved_to_trans(&t0, &t2, &*tokens); }
    if let Err(e) = step {
        return Err(e);
    }
    let ghost t3 = *tokens;
    let comparisons = parse_comparisons(tokens);
    proof { PeekingCursor::lemma_moved_to_trans(&t0, &t3, &*tokens); }
    let comparisons = match comparisons {
        Ok(comparisons) => comparisons,
        Err(e) => return Err(e),
    };
    let ghost t4 = *tokens;
    let step = expect_right_curly_brace(tokens);
    proof { PeekingCursor::lemma_moved_to_trans(&t0, &t4, &*tokens); }
    if let Err(e) = step {
        return Err(e);
    }
    Ok(Statement::GetItem { store_name, comparisons })
}

fn parse_put_item(tokens: &mut PeekingCursor<Token>) -> (r: Result<Statement, ParserError>)
    ensures
        delivers_statement(spec_parse_put_item(old(tokens)@), r, final(tokens)@),
        old(tokens).moved_to(&*final(tokens)),
{
    let ghost t0 = *tokens;
    let store_name = match parse_store_name(tokens) {
        Ok(name) => name,
        Err(e) => return Err(e),
    };
    let ghost t1 = *tokens;
    let step = expect_left_curly_brace(tokens);
    proof { PeekingCursor::lemma_moved_to_trans(&t0, &t1, &*tokens); }
    if let Err(e) = step {
        return Err(e);
    }
    let ghost t2 = *tokens;
    let assignments = parse_assignments(tokens);
    proof { PeekingCursor::lemma_moved_to_trans(&t0, &t2, &*tokens); }
    let assignments = match assignments {
        Ok(assignments) => assignments,
        Err(e) => return Err(e),
    };
    let ghost t3 = *tokens;
    let step = expect_right_curly_brace(tokens);
    proof { PeekingCursor::lemma_moved_to_trans(&t0, &t3, &*tokens); }
    if let Err(e) = step {
        return Err(e);
    }
    Ok(Statement::PutItem { store_name, assignments })
}

/// The items found so far, ahead of what the rest of the list gives.
pub open spec fn after_found<T>(found: Seq<T>, rest: Parsed<Seq<T>>) -> Parsed<Seq<T>> {
    match rest {
        Ok((more, left_over)) => Ok((found + more, left_over)),
        Err(e) => Err(e),
    }
}

fn parse_comparisons(tokens: &mut PeekingCursor<Token>) -> (r: Result<Vec<Comparison>, ParserError>)
    ensures
        match spec_parse_comparisons(old(tokens)@) {
            Ok((comparisons, rest)) => r is Ok && r->Ok_0@ == comparisons && final(tokens)@ == rest,
            Err((e, rest)) => r is Err && r->Err_0@ == e && final(tokens)@ == rest,
        },
        old(tokens).moved_to(&*final(tokens)),
{
    let ghost start = *tokens;
    let mut comparisons: Vec<Comparison> = Vec::new();
    proof {
        PeekingCursor::lemma_unmoved(&start, &*tokens);
        assert(after_found(comparisons@, spec_parse_comparisons(tokens@)) =~= spec_parse_comparisons(start@)) by {
            match spec_parse_comparisons(tokens@) {
                Ok((more, left_over)) => { assert(comparisons@ + more =~= more); },
                Err(e) => {},
            }
        }
    }
    loop
        invariant
            start == *old(tokens),
            start.moved_to(&*tokens),
            after_found(comparisons@, spec_parse_comparisons(tokens@)) == spec_parse_comparisons(start@),
        decreases tokens@.len(),
    {
        let ghost here = *tokens;
        let parsed = parse_expression(tokens, 0);
        proof { PeekingCursor::lemma_moved_to_trans(&start, &here, &*tokens); }
        let expression = match parsed {
            Ok(expression) => expression,
            Err(e) => return Err(e),
        };
        let comparison = match expression {
            Expression::Comparison(comparison) => comparison,
            _ => return Err(ParserError::InvalidPredicate(expression)),
        };
        let ghost found = comparisons@;
        comparisons.push(comparison);
        match tokens.peek() {
            Some(token) => match token.token_type {
                TokenType::Comma => {},
                _ => {
                    proof {
                        assert(found + seq![comparison] =~= comparisons@);
                    }
                    return Ok(comparisons);
                },
            },
            None => return Err(ParserError::UnexpectedEndOfInput),
        }
        let ghost before_comma = *tokens;
        tokens.next();
        proof {
            PeekingCursor::lemma_moved_to_trans(&start, &before_comma, &*tokens);
            match spec_parse_comparisons(tokens@) {
                Ok((more, left_over)) => {
                    assert(found + (seq![comparison] + more) =~= comparisons@ + more);
                },
                Err(e) => {},
            }
        }
    }
}

fn parse_assignments(tokens: &mut PeekingCursor<Token>) -> (r: Result<Vec<Assignment>, ParserError>)
    ensures
        match spec_parse_assignments(old(tokens)@) {
            Ok((assignments, rest)) => r is Ok && r->Ok_0@ == assignments && final(tokens)@ == rest,
            Err((e, rest)) => r is Err && r->Err_0@ == e && final(tokens)@ == rest,
        },
        old(tokens).moved_to(&*final(tokens)),
{
    let ghost start = *tokens;
    let mut assignments: Vec<Assignment> = Vec::new();
    proof {
        PeekingCursor::lemma_unmoved(&start, &*tokens);
        assert(after_found(assignments@, spec_parse_assignments(tokens@)) =~= spec_parse_assignments(start@)) by {
            match spec_parse_assignments(tokens@) {
                Ok((more, left_over)) => { assert(assignments@ + more =~= more); },
                Err(e) => {},
            }
        }
    }
    loop
        invariant
            start == *old(tokens),
            start.moved_to(&*tokens),
            after_found(assignments@, spec_parse_assignments(tokens@)) == spec_parse_assignments(start@),
        decreases tokens@.len(),
    {
        let ghost t0 = *tokens;
        let name = parse_attribute_name(tokens);
        proof { PeekingCursor::lemma_moved_to_trans(&start, &t0, &*tokens); }
        let name = match name {
            Ok(name) => name,
            Err(e) => return Err(e),
        };
        let ghost t1 = *tokens;
        let step = expect_colon(tokens);
        proof { PeekingCursor::lemma_moved_to_trans(&t0, &t1, &*tokens); }
        if let Err(e) = step {
            proof { PeekingCursor::lemma_moved_to_trans(&start, &t0, &*tokens); }
            return Err(e);
        }
        let ghost t2 = *tokens;
        let parsed = parse_expression(tokens, 0);
        proof {
            PeekingCursor::lemma_moved_to_trans(&t0, &t2, &*tokens);
            PeekingCursor::lemma_moved_to_trans(&start, &t0, &*tokens);
        }
        let value = match parsed {
            Ok(value) => value,
            Err(e) => return Err(e),
        };
        let ghost found = assignments@;
        let ghost assignment = Assignment { name, value };
        assert(spec_parse_assignment(t0@) == Ok::<(Assignment, Seq<Token>), (ParserErrorModel, Seq<Token>)>((assignment, tokens@)));
        assignments.push(Assignment { name, value });
        match tokens.peek() {
            Some(token) => match token.token_type {
                TokenType::Comma => {},
                _ => {
                    proof {
                        assert(found + seq![assignment] =~= assignments@);
                    }
                    return Ok(assignments);
                },
            },
            None => return Err(ParserError::UnexpectedEndOfInput),
        }
        let ghost before_comma = *tokens;
        tokens.next();
        proof {
            PeekingCursor::lemma_moved_to_trans(&start, &before_comma, &*tokens);
            match spec_parse_assignments(tokens@) {
                Ok((more, left_over)) => {
                    assert(found + (seq![assignment] + more) =~= assignments@ + more);
                },
                Err(e) => {},
            }
        }
    }
}

fn parse_store_name(tokens: &mut PeekingCursor<Token>) -> (r: Result<String, ParserError>)
    ensures
        delivers(spec_parse_name(old(tokens)@, "store name"@), r, final(tokens)@),
        old(tokens).moved_to(&*final(tokens)),
{
    match tokens.next() {
        Some(token) => match token.token_type {
            TokenType::Identifier(name) => Ok(name),
            TokenType::String(name) => Ok(name),
            _ => Err(ParserError::UnexpectedToken(token, "store name".to_owned())),
        },
        None => Err(ParserError::UnexpectedEndOfInput),
    }
}

fn parse_attribute_name(tokens: &mut PeekingCursor<Token>) -> (r: Result<String, ParserError>)
    ensures
        delivers(
            spec_parse_name(old(tokens)@, "attribute name, as a string or identifier"@),
            r,
            final(tokens)@,
        ),
        old(tokens).moved_to(&*final(tokens)),
{
    match tokens.next() {
        Some(token) => match token.token_type {
            TokenType::Identifier(name) => Ok(name),
            TokenType::String(name) => Ok(name),
            _ => Err(
                ParserError::UnexpectedToken(token, "attribute name, as a string or identifier".to_owned()),
            ),
        },
        None => Err(ParserError::UnexpectedEndOfInput),
    }
}

fn expect_colon(tokens: &mut PeekingCursor<Token>) -> (r: Result<(), ParserError>)
    ensures
        delivers(spec_expect(old(tokens)@, TokenType::Colon, ":"@), r, final(tokens)@),
        old(tokens).moved_to(&*final(tokens)),
{
    match tokens.next() {
        Some(token) => match token.token_type {
            TokenType::Colon => Ok(()),
            _ => Err(ParserError::UnexpectedToken(token, ":".to_owned())),
        },
        None => Err(ParserError::UnexpectedEndOfInput),
    }
}

fn expect_where(tokens: &mut PeekingCursor<Token>) -> (r: Result<(), ParserError>)
    ensures
        delivers(spec_expect(old(tokens)@, TokenType::Keyword(Keyword::Where), "WHERE"@), r, final(tokens)@),
        old(tokens).moved_to(&*final(tokens)),
{
    match tokens.next() {
        Some(token) => match token.token_type {
            TokenType::Keyword(Keyword::Where) => Ok(()),
            _ => Err(ParserError::UnexpectedToken(token, "WHERE".to_owned())),
        },
        None => Err(ParserError::UnexpectedEndOfInput),
    }
}

fn expect_left_curly_brace(tokens: &mut PeekingCursor<Token>) -> (r: Result<(), ParserError>)
    ensures
        delivers(spec_expect(old(tokens)@, TokenType::LeftCurlyBrace, "{"@), r, final(tokens)@),
        old(tokens).moved_to(&*final(tokens)),
{
    match tokens.next() {
        Some(token) => match token.token_type {
            TokenType::LeftCurlyBrace => Ok(()),
            _ => Err(ParserError::UnexpectedToken(token, "{".to_owned())),
        },
        None => Err(ParserError::UnexpectedEndOfInput),
    }
}

fn expect_right_curly_brace(tokens: &mut PeekingCursor<Token>) -> (r: Result<(), ParserError>)
    ensures
        delivers(spec_expect(old(tokens)@, TokenType::RightCurlyBrace, "}"@), r, final(tokens)@),
        old(tokens).moved_to(&*final(tokens)),
{
    match tokens.next() {
        Some(token) => match token.token_type {
            TokenType::RightCurlyBrace => Ok(()),
            _ => Err(ParserError::UnexpectedToken(token, "}".to_owned())),
        },
        None => Err(ParserError::UnexpectedEndOfInput),
    }
}

/// The statement that a sequence of tokens begins with; tokens after it are left
/// unread.
pub fn parse(tokens: Vec<Token>) -> (r: Result<Statement, ParserError>)
    ensures
        match spec_parse_statement(tokens@) {
            Ok((statement, _)) => r is Ok && r->Ok_0@ == statement,
            Err((e, _)) => r is Err && r->Err_0@ == e,
        },
{
    let mut cursor = PeekingCursor::new(tokens);
    parse_statement(&mut cursor)
}

} // verus!
