use vstd::prelude::*;

use crate::ast::{
    spec_binary_operator, Assignment, Comparison, Expression, HasPrecedence, StatementModel, Value,
};
use crate::expression::{
    combine, spec_parse_expression, spec_parse_operations, spec_parse_primary, Parsed,
};
use crate::number::spec_number_value;
use crate::parser_error::ParserErrorModel;
use crate::statement::{
    spec_expect, spec_parse_assignment, spec_parse_assignments, spec_parse_comparisons,
    spec_parse_get_item, spec_parse_name, spec_parse_put_item, spec_parse_statement,
};
use crate::token::{token_models, Keyword, Token, TokenType};

verus! {

// Two values that hold the same texts are alike: the parser cannot tell their
// strings apart, so it treats them alike.
/// The same value, with texts of the same characters.
pub open spec fn same_value(a: Value, b: Value) -> bool {
    match (a, b) {
        (Value::Float(x), Value::Float(y)) => x@ == y@,
        (Value::Integer(x), Value::Integer(y)) => x == y,
        (Value::String(x), Value::String(y)) => x@ == y@,
        (Value::Boolean(x), Value::Boolean(y)) => x == y,
        _ => false,
    }
}

/// The same expression tree, with texts of the same characters.
pub open spec fn same_expression(a: Expression, b: Expression) -> bool
    decreases a,
{
    match (a, b) {
        (Expression::Literal(x), Expression::Literal(y)) => same_value(x, y),
        (Expression::Identifier(x), Expression::Identifier(y)) => x@ == y@,
        (Expression::Comparison(x), Expression::Comparison(y)) => {
            &&& same_expression(*x.left, *y.left)
            &&& x.operator == y.operator
            &&& same_expression(*x.right, *y.right)
        },
        (Expression::BinaryOperation(x), Expression::BinaryOperation(y)) => {
            &&& same_expression(*x.left, *y.left)
            &&& x.operator == y.operator
            &&& same_expression(*x.right, *y.right)
        },
        (Expression::UnaryOperation(x), Expression::UnaryOperation(y)) => {
            &&& x.operator == y.operator
            &&& same_expression(*x.operand, *y.operand)
        },
        _ => false,
    }
}

pub open spec fn same_comparison(a: Comparison, b: Comparison) -> bool {
    &&& same_expression(*a.left, *b.left)
    &&& a.operator == b.operator
    &&& same_expression(*a.right, *b.right)
}

pub open spec fn same_assignment(a: Assignment, b: Assignment) -> bool {
    a.name@ == b.name@ && same_expression(a.value, b.value)
}

/// Token sequences of the same kinds, texts and positions.
pub open spec fn same_tokens(a: Seq<Token>, b: Seq<Token>) -> bool {
    token_models(a) == token_models(b)
}

/// The same error, with texts of the same characters.
pub open spec fn same_error(a: ParserErrorModel, b: ParserErrorModel) -> bool {
    match (a, b) {
        (ParserErrorModel::UnexpectedToken(t, s), ParserErrorModel::UnexpectedToken(u, z)) => t@ == u@ && s == z,
        (ParserErrorModel::InvalidNumericalValue(s), ParserErrorModel::InvalidNumericalValue(z)) => s == z,
        (ParserErrorModel::InvalidComparisonOperator(t), ParserErrorModel::InvalidComparisonOperator(u)) => t@ == u@,
        (ParserErrorModel::InvalidMathematicalOperator(t), ParserErrorModel::InvalidMathematicalOperator(u)) => t@ == u@,
        (ParserErrorModel::InvalidOperatorValue(t), ParserErrorModel::InvalidOperatorValue(u)) => t@ == u@,
        (ParserErrorModel::InvalidUnaryOperator(t), ParserErrorModel::InvalidUnaryOperator(u)) => t@ == u@,
        (ParserErrorModel::MissingIdentifier(s), ParserErrorModel::MissingIdentifier(z)) => s == z,
        (ParserErrorModel::MissingParenthesis, ParserErrorModel::MissingParenthesis) => true,
        (ParserErrorModel::InvalidPredicate(x), ParserErrorModel::InvalidPredicate(y)) => same_expression(x, y),
        (ParserErrorModel::UnexpectedEndOfInput, ParserErrorModel::UnexpectedEndOfInput) => true,
        _ => false,
    }
}

/// The same outcome of parsing an expression, up to the characters of texts.
pub open spec fn same_parsed_expression(a: Parsed<Expression>, b: Parsed<Expression>) -> bool {
    match (a, b) {
        (Ok((x, r)), Ok((y, s))) => same_expression(x, y) && same_tokens(r, s),
        (Err((x, r)), Err((y, s))) => same_error(x, y) && same_tokens(r, s),
        _ => false,
    }
}

proof fn lemma_same_tokens(a: Seq<Token>, b: Seq<Token>)
    requires
        same_tokens(a, b),
    ensures
        a.len() == b.len(),
        forall|i: int| 0 <= i < a.len() ==> (#[trigger] a[i])@ == b[i]@,
        a.len() > 0 ==> same_tokens(a.drop_first(), b.drop_first()),
{
    assert(token_models(a).len() == a.len());
    assert(token_models(b).len() == b.len());
    assert forall|i: int| 0 <= i < a.len() implies (#[trigger] a[i])@ == b[i]@ by {
        assert(token_models(a)[i] == a[i]@);
        assert(token_models(b)[i] == b[i]@);
    }
    if a.len() > 0 {
        assert(token_models(a.drop_first()) =~= token_models(b.drop_first())) by {
            assert forall|i: int| 0 <= i < a.len() - 1 implies token_models(a.drop_first())[i]
                == token_models(b.drop_first())[i] by {
                assert(a.drop_first()[i] == a[i + 1]);
                assert(b.drop_first()[i] == b[i + 1]);
            }
        }
    }
}

proof fn lemma_same_binary_operator(x: TokenType, y: TokenType)
    requires
        x@ == y@,
    ensures
        spec_binary_operator(x) == spec_binary_operator(y),
{
}

proof fn lemma_same_number(x: String, y: String)
    requires
        x@ == y@,
    ensures
        match (spec_number_value(x), spec_number_value(y)) {
            (Ok(v), Ok(w)) => same_value(v, w),
            (Err(e), Err(f)) => e == f,
            _ => false,
        },
{
}

proof fn lemma_same_primary(a: Seq<Token>, b: Seq<Token>)
    requires
        same_tokens(a, b),
    ensures
        same_parsed_expression(spec_parse_primary(a), spec_parse_primary(b)),
    decreases a.len(), 0nat,
{
    lemma_same_tokens(a, b);
    if a.len() > 0 {
        let ra = a.drop_first();
        let rb = b.drop_first();
        assert(a[0]@ == b[0]@);
        match a[0].token_type {
            TokenType::Number(x) => {
                let y = b[0].token_type->Number_0;
                lemma_same_number(x, y);
            },
            TokenType::LeftParenthesis => {
                lemma_same_expression(ra, rb, 0);
                match (spec_parse_expression(ra, 0), spec_parse_expression(rb, 0)) {
                    (Ok((_, x)), Ok((_, y))) => {
                        lemma_same_tokens(x, y);
                    },
                    _ => {},
                }
            },
            TokenType::Minus => {
                lemma_same_primary(ra, rb);
            },
            _ => {},
        }
    }
}

proof fn lemma_same_expression(a: Seq<Token>, b: Seq<Token>, precedence: u8)
    requires
        same_tokens(a, b),
    ensures
        same_parsed_expression(spec_parse_expression(a, precedence), spec_parse_expression(b, precedence)),
    decreases a.len(), 1nat,
{
    lemma_same_tokens(a, b);
    lemma_same_primary(a, b);
    match (spec_parse_primary(a), spec_parse_primary(b)) {
        (Ok((x, r)), Ok((y, s))) => {
            lemma_same_tokens(r, s);
            if r.len() < a.len() {
                lemma_same_operations(x, y, r, s, precedence);
            }
        },
        _ => {},
    }
}

proof fn lemma_same_operations(x: Expression, y: Expression, a: Seq<Token>, b: Seq<Token>, precedence: u8)
    requires
        same_expression(x, y),
        same_tokens(a, b),
    ensures
        same_parsed_expression(
            spec_parse_operations(x, a, precedence),
            spec_parse_operations(y, b, precedence),
        ),
    decreases a.len(), 2nat,
{
    lemma_same_tokens(a, b);
    if a.len() > 0 {
        lemma_same_binary_operator(a[0].token_type, b[0].token_type);
        match spec_binary_operator(a[0].token_type) {
            Some(operator) => {
                if operator.spec_precedence() >= precedence {
                    let p = operator.spec_precedence();
                    lemma_same_expression(a.drop_first(), b.drop_first(), p);
                    match (spec_parse_expression(a.drop_first(), p), spec_parse_expression(b.drop_first(), p)) {
                        (Ok((u, r)), Ok((v, s))) => {
                            lemma_same_tokens(r, s);
                            if r.len() < a.len() {
                                assert(same_expression(combine(x, operator, u), combine(y, operator, v)));
                                lemma_same_operations(combine(x, operator, u), combine(y, operator, v), r, s, precedence);
                            }
                        },
                        _ => {},
                    }
                }
            },
            None => {},
        }
    }
}

/// Lists of the same length whose items are alike one by one.
pub open spec fn same_comparisons(a: Seq<Comparison>, b: Seq<Comparison>) -> bool {
    a.len() == b.len() && forall|i: int| 0 <= i < a.len() ==> same_comparison(#[trigger] a[i], b[i])
}

pub open spec fn same_assignments(a: Seq<Assignment>, b: Seq<Assignment>) -> bool {
    a.len() == b.len() && forall|i: int| 0 <= i < a.len() ==> same_assignment(#[trigger] a[i], b[i])
}

/// The same statement, with texts of the same characters.
pub open spec fn same_statement(a: StatementModel, b: StatementModel) -> bool {
    match (a, b) {
        (
            StatementModel::PutItem { store_name: x, assignments: u },
            StatementModel::PutItem { store_name: y, assignments: v },
        ) => x@ == y@ && same_assignments(u, v),
        (
            StatementModel::GetItem { store_name: x, comparisons: u },
            StatementModel::GetItem { store_name: y, comparisons: v },
        ) => x@ == y@ && same_comparisons(u, v),
        _ => false,
    }
}

/// The same outcome, up to the characters of texts, for the outcome `same` compares.
pub open spec fn same_outcome<T>(a: Parsed<T>, b: Parsed<T>, same: spec_fn(T, T) -> bool) -> bool {
    match (a, b) {
        (Ok((x, r)), Ok((y, s))) => same(x, y) && same_tokens(r, s),
        (Err((x, r)), Err((y, s))) => same_error(x, y) && same_tokens(r, s),
        _ => false,
    }
}

proof fn lemma_same_name(a: Seq<Token>, b: Seq<Token>, description: Seq<char>)
    requires
        same_tokens(a, b),
    ensures
        same_outcome(
            spec_parse_name(a, description),
            spec_parse_name(b, description),
            |x: String, y: String| x@ == y@,
        ),
{
    lemma_same_tokens(a, b);
}

proof fn lemma_same_expect(a: Seq<Token>, b: Seq<Token>, expected: TokenType, description: Seq<char>)
    requires
        same_tokens(a, b),
        !(expected is Number || expected is String || expected is Identifier),
    ensures
        same_outcome(
            spec_expect(a, expected, description),
            spec_expect(b, expected, description),
            |x: (), y: ()| true,
        ),
{
    lemma_same_tokens(a, b);
    if a.len() > 0 {
        assert(a[0].token_type@ == b[0].token_type@);
        assert((a[0].token_type == expected) == (b[0].token_type == expected));
    }
}

proof fn lemma_same_comparisons(a: Seq<Token>, b: Seq<Token>)
    requires
        same_tokens(a, b),
    ensures
        same_outcome(
            spec_parse_comparisons(a),
            spec_parse_comparisons(b),
            |x: Seq<Comparison>, y: Seq<Comparison>| same_comparisons(x, y),
        ),
    decreases a.len(),
{
    lemma_same_tokens(a, b);
    lemma_same_expression(a, b, 0);
    match (spec_parse_expression(a, 0), spec_parse_expression(b, 0)) {
        (Ok((x, r)), Ok((y, s))) => {
            lemma_same_tokens(r, s);
            if r.len() > 0 {
                assert(r[0]@ == s[0]@);
            }
            match (x, y) {
                (Expression::Comparison(c), Expression::Comparison(d)) => {
                    if r.len() > 0 && r[0].token_type is Comma && r.len() < a.len() {
                        lemma_same_comparisons(r.drop_first(), s.drop_first());
                        match (spec_parse_comparisons(r.drop_first()), spec_parse_comparisons(s.drop_first())) {
                            (Ok((u, _)), Ok((v, _))) => {
                                assert forall|i: int| 0 <= i < u.len() + 1 implies same_comparison(
                                    #[trigger] (seq![c] + u)[i],
                                    (seq![d] + v)[i],
                                ) by {
                                    if i > 0 {
                                        assert((seq![c] + u)[i] == u[i - 1]);
                                        assert((seq![d] + v)[i] == v[i - 1]);
                                    }
                                }
                            },
                            _ => {},
                        }
                    } else {
                        assert(same_comparison(seq![c][0], seq![d][0]));
                    }
                },
                _ => {},
            }
        },
        _ => {},
    }
}

proof fn lemma_same_assignment(a: Seq<Token>, b: Seq<Token>)
    requires
        same_tokens(a, b),
    ensures
        same_outcome(
            spec_parse_assignment(a),
            spec_parse_assignment(b),
            |x: Assignment, y: Assignment| same_assignment(x, y),
        ),
{
    let description = "attribute name, as a string or identifier"@;
    lemma_same_name(a, b, description);
    match (spec_parse_name(a, description), spec_parse_name(b, description)) {
        (Ok((_, r)), Ok((_, s))) => {
            lemma_same_expect(r, s, TokenType::Colon, ":"@);
            match (spec_expect(r, TokenType::Colon, ":"@), spec_expect(s, TokenType::Colon, ":"@)) {
                (Ok((_, u)), Ok((_, v))) => {
                    lemma_same_expression(u, v, 0);
                },
                _ => {},
            }
        },
        _ => {},
    }
}

proof fn lemma_same_assignments(a: Seq<Token>, b: Seq<Token>)
    requires
        same_tokens(a, b),
    ensures
        same_outcome(
            spec_parse_assignments(a),
            spec_parse_assignments(b),
            |x: Seq<Assignment>, y: Seq<Assignment>| same_assignments(x, y),
        ),
    decreases a.len(),
{
    lemma_same_tokens(a, b);
    lemma_same_assignment(a, b);
    match (spec_parse_assignment(a), spec_parse_assignment(b)) {
        (Ok((x, r)), Ok((y, s))) => {
            lemma_same_tokens(r, s);
            if r.len() > 0 {
                assert(r[0]@ == s[0]@);
            }
            if r.len() > 0 && r[0].token_type is Comma && r.len() < a.len() {
                lemma_same_assignments(r.drop_first(), s.drop_first());
                match (spec_parse_assignments(r.drop_first()), spec_parse_assignments(s.drop_first())) {
                    (Ok((u, _)), Ok((v, _))) => {
                        assert forall|i: int| 0 <= i < u.len() + 1 implies same_assignment(
                            #[trigger] (seq![x] + u)[i],
                            (seq![y] + v)[i],
                        ) by {
                            if i > 0 {
                                assert((seq![x] + u)[i] == u[i - 1]);
                                assert((seq![y] + v)[i] == v[i - 1]);
                            }
                        }
                    },
                    _ => {},
                }
            } else {
                assert(same_assignment(seq![x][0], seq![y][0]));
            }
        },
        _ => {},
    }
}

proof fn lemma_same_get_item(a: Seq<Token>, b: Seq<Token>)
    requires
        same_tokens(a, b),
    ensures
        same_outcome(spec_parse_get_item(a), spec_parse_get_item(b), |x: StatementModel, y: StatementModel| same_statement(x, y)),
{
    lemma_same_name(a, b, "store name"@);
    if let (Ok((_, t1)), Ok((_, u1))) = (spec_parse_name(a, "store name"@), spec_parse_name(b, "store name"@)) {
        let w = TokenType::Keyword(Keyword::Where);
        lemma_same_expect(t1, u1, w, "WHERE"@);
        if let (Ok((_, t2)), Ok((_, u2))) = (spec_expect(t1, w, "WHERE"@), spec_expect(u1, w, "WHERE"@)) {
            lemma_same_expect(t2, u2, TokenType::LeftCurlyBrace, "{"@);
            if let (Ok((_, t3)), Ok((_, u3))) = (
                spec_expect(t2, TokenType::LeftCurlyBrace, "{"@),
                spec_expect(u2, TokenType::LeftCurlyBrace, "{"@),
            ) {
                lemma_same_comparisons(t3, u3);
                if let (Ok((_, t4)), Ok((_, u4))) = (spec_parse_comparisons(t3), spec_parse_comparisons(u3)) {
                    lemma_same_expect(t4, u4, TokenType::RightCurlyBrace, "}"@);
                }
            }
        }
    }
}

proof fn lemma_same_put_item(a: Seq<Token>, b: Seq<Token>)
    requires
        same_tokens(a, b),
    ensures
        same_outcome(spec_parse_put_item(a), spec_parse_put_item(b), |x: StatementModel, y: StatementModel| same_statement(x, y)),
{
    lemma_same_name(a, b, "store name"@);
    if let (Ok((_, t1)), Ok((_, u1))) = (spec_parse_name(a, "store name"@), spec_parse_name(b, "store name"@)) {
        lemma_same_expect(t1, u1, TokenType::LeftCurlyBrace, "{"@);
        if let (Ok((_, t2)), Ok((_, u2))) = (
            spec_expect(t1, TokenType::LeftCurlyBrace, "{"@),
            spec_expect(u1, TokenType::LeftCurlyBrace, "{"@),
        ) {
            lemma_same_assignments(t2, u2);
            if let (Ok((_, t3)), Ok((_, u3))) = (spec_parse_assignments(t2), spec_parse_assignments(u2)) {
                lemma_same_expect(t3, u3, TokenType::RightCurlyBrace, "}"@);
            }
        }
    }
}

/// Token sequences of the same kinds, texts and positions parse to the same
/// statement, or fail with the same error, up to the characters of texts.
pub proof fn lemma_same_statement(a: Seq<Token>, b: Seq<Token>)
    requires
        same_tokens(a, b),
    ensures
        same_outcome(spec_parse_statement(a), spec_parse_statement(b), |x: StatementModel, y: StatementModel| same_statement(x, y)),
{
    lemma_same_tokens(a, b);
    if a.len() > 0 {
        assert(a[0]@ == b[0]@);
        lemma_same_get_item(a.drop_first(), b.drop_first());
        lemma_same_put_item(a.drop_first(), b.drop_first());
    }
}

} // verus!
