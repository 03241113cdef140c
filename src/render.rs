use vstd::prelude::*;

use crate::chars::{chars_of, is_alphabetic_char, is_numeric_char, is_whitespace_char, string_of};
use crate::cursor::{lemma_leading_run_len, lemma_leading_run_len_unique, CursorTrackable, Location};
use crate::lexer::{
    is_number_char, is_word_char, lex, number_char, other_than, scan_token, spec_tokenize, word_char,
    word_kind,
};
use crate::token::{kinds, token_models, Keyword, Token, TokenKind, TokenModel, TokenType};

verus! {

/// The text that reads back as a token of this kind. A string is quoted with `'`
/// unless it holds one, and then with `"`.
pub open spec fn kind_text(kind: TokenKind) -> Seq<char> {
    match kind {
        TokenKind::LeftParenthesis => seq!['('],
        TokenKind::RightParenthesis => seq![')'],
        TokenKind::LeftCurlyBrace => seq!['{'],
        TokenKind::RightCurlyBrace => seq!['}'],
        TokenKind::Colon => seq![':'],
        TokenKind::Semicolon => seq![';'],
        TokenKind::Comma => seq![','],
        TokenKind::Period => seq!['.'],
        TokenKind::GreaterThan => seq!['>'],
        TokenKind::GreaterThanOrEqual => seq!['>', '='],
        TokenKind::LessThan => seq!['<'],
        TokenKind::LessThanOrEqual => seq!['<', '='],
        TokenKind::Equal => seq!['='],
        TokenKind::NotEqual => seq!['!', '='],
        TokenKind::Asterisk => seq!['*'],
        TokenKind::Plus => seq!['+'],
        TokenKind::Minus => seq!['-'],
        TokenKind::Slash => seq!['/'],
        TokenKind::Percent => seq!['%'],
        TokenKind::Caret => seq!['^'],
        TokenKind::Keyword(Keyword::Get) => seq!['G', 'E', 'T'],
        TokenKind::Keyword(Keyword::Put) => seq!['P', 'U', 'T'],
        TokenKind::Keyword(Keyword::Where) => seq!['W', 'H', 'E', 'R', 'E'],
        TokenKind::Keyword(Keyword::True) => seq!['t', 'r', 'u', 'e'],
        TokenKind::Keyword(Keyword::False) => seq!['f', 'a', 'l', 's', 'e'],
        TokenKind::Number(text) => text,
        TokenKind::Identifier(text) => text,
        TokenKind::String(text) => {
            let quote = if text.contains('\'') { '"' } else { '\'' };
            seq![quote] + text + seq![quote]
        },
    }
}

/// Token kinds written as text, each followed by a space.
pub open spec fn render(kinds: Seq<TokenKind>) -> Seq<char>
    decreases kinds.len(),
{
    if kinds.len() == 0 {
        Seq::empty()
    } else {
        kind_text(kinds[0]) + seq![' '] + render(kinds.drop_first())
    }
}

/// A token kind whose text reads back as the same kind: what the lexer produces.
pub open spec fn renderable(kind: TokenKind) -> bool {
    match kind {
        TokenKind::Number(t) => {
            &&& t.len() > 0
            &&& !is_whitespace_char(t[0])
            &&& is_numeric_char(t[0])
            &&& forall|i: int| 0 <= i < t.len() ==> is_number_char(#[trigger] t[i])
        },
        TokenKind::Identifier(t) => {
            &&& t.len() > 0
            &&& !is_whitespace_char(t[0])
            &&& !is_numeric_char(t[0])
            &&& (is_alphabetic_char(t[0]) || t[0] == '_')
            &&& forall|i: int| 0 <= i < t.len() ==> is_word_char(#[trigger] t[i])
            &&& word_kind(t) == TokenKind::Identifier(t)
        },
        TokenKind::String(t) => !(t.contains('\'') && t.contains('"')),
        _ => true,
    }
}

/// Each kind of a sequence is renderable.
pub open spec fn all_renderable(kinds: Seq<TokenKind>) -> bool {
    forall|i: int| 0 <= i < kinds.len() ==> renderable(#[trigger] kinds[i])
}

proof fn lemma_word_kind_renderable(t: Seq<char>)
    requires
        t.len() > 0,
        !is_whitespace_char(t[0]),
        !is_numeric_char(t[0]),
        is_alphabetic_char(t[0]) || t[0] == '_',
        forall|i: int| 0 <= i < t.len() ==> is_word_char(#[trigger] t[i]),
    ensures
        renderable(word_kind(t)),
{
}

/// What `scan_token` reads is renderable.
proof fn lemma_scan_renderable(rest: Seq<char>)
    requires
        rest.len() > 0,
        !is_whitespace_char(rest[0]),
        scan_token(rest) is Ok,
    ensures
        renderable(scan_token(rest)->Ok_0.0),
{
    let c = rest[0];
    if is_numeric_char(c) {
        lemma_leading_run_len(rest, number_char());
    } else if is_alphabetic_char(c) || c == '_' {
        lemma_leading_run_len(rest, word_char());
        let n = crate::cursor::leading_run_len(rest, word_char()) as int;
        let t = rest.take(n);
        assert forall|i: int| 0 <= i < t.len() implies is_word_char(#[trigger] t[i]) by {
            assert(word_char()(rest[i]));
        }
        lemma_word_kind_renderable(t);
    } else if c == '\'' || c == '"' {
        let body = rest.drop_first();
        lemma_leading_run_len(body, other_than(c));
        let n = crate::cursor::leading_run_len(body, other_than(c)) as int;
        let t = rest.subrange(1, n + 1);
        assert(!t.contains(c)) by {
            if t.contains(c) {
                let i = choose|i: int| 0 <= i < t.len() && t[i] == c;
                assert(t[i] == body[i]);
                assert(other_than(c)(body[i]));
            }
        }
    }
}

/// Every token that `lex` reads is renderable.
pub proof fn lemma_lex_renderable(rest: Seq<char>, location: Location)
    requires
        lex(rest, location) is Ok,
    ensures
        all_renderable(kinds(lex(rest, location)->Ok_0)),
    decreases rest.len(),
{
    if rest.len() == 0 {
    } else if is_whitespace_char(rest[0]) {
        lemma_lex_renderable(rest.drop_first(), rest[0].spec_next_location(location));
    } else {
        let (kind, n) = scan_token(rest)->Ok_0;
        let end = crate::cursor::advance(location, rest.take(n));
        lemma_lex_renderable(rest.skip(n), end);
        lemma_scan_renderable(rest);
        let tail = lex(rest.skip(n), end)->Ok_0;
        let all = lex(rest, location)->Ok_0;
        assert(all == seq![TokenModel { kind, location: end }] + tail);
        assert forall|i: int| 0 <= i < kinds(all).len() implies renderable(#[trigger] kinds(all)[i]) by {
            if i > 0 {
                assert(kinds(all)[i] == kinds(tail)[i - 1]);
            }
        }
    }
}

/// `scan_token` reads a renderable kind back from its text followed by a space.
proof fn lemma_scan_rendered(kind: TokenKind, more: Seq<char>)
    requires
        renderable(kind),
    ensures
        ({
            let s = kind_text(kind) + seq![' '] + more;
            &&& !is_whitespace_char(s[0])
            &&& scan_token(s) == Ok::<(TokenKind, int), crate::lexer::LexerError>(
                (kind, kind_text(kind).len() as int),
            )
        }),
{
    let text = kind_text(kind);
    let s = text + seq![' '] + more;
    assert(s[text.len() as int] == ' ');
    assert forall|i: int| 0 <= i < text.len() implies s[i] == text[i] by {}
    match kind {
        TokenKind::Number(t) => {
            assert forall|i: int| 0 <= i < t.len() implies #[trigger] number_char()(s[i]) by {
                assert(s[i] == t[i]);
                assert(is_number_char(t[i]));
            }
            lemma_leading_run_len_unique(s, number_char(), t.len() as int);
            assert(s.take(t.len() as int) =~= t);
        },
        TokenKind::Identifier(t) => {
            assert forall|i: int| 0 <= i < t.len() implies #[trigger] word_char()(s[i]) by {
                assert(s[i] == t[i]);
                assert(is_word_char(t[i]));
            }
            lemma_leading_run_len_unique(s, word_char(), t.len() as int);
            assert(s.take(t.len() as int) =~= t);
        },
        TokenKind::Keyword(k) => {
            assert forall|i: int| 0 <= i < text.len() implies #[trigger] word_char()(s[i]) by {
                assert(s[i] == text[i]);
            }
            lemma_leading_run_len_unique(s, word_char(), text.len() as int);
            assert(s.take(text.len() as int) =~= text);
        },
        TokenKind::String(t) => {
            let quote = if t.contains('\'') { '"' } else { '\'' };
            assert(!t.contains(quote));
            let body = s.drop_first();
            assert forall|i: int| 0 <= i < t.len() implies #[trigger] other_than(quote)(body[i]) by {
                assert(body[i] == t[i]);
                if t[i] == quote {
                    assert(t.contains(quote));
                }
            }
            assert(body[t.len() as int] == quote);
            lemma_leading_run_len_unique(body, other_than(quote), t.len() as int);
            assert(s.subrange(1, t.len() + 1 as int) =~= t);
        },
        _ => {},
    }
}

/// `lex` reads renderable kinds back from their text.
proof fn lemma_lex_rendered(ks: Seq<TokenKind>, location: Location)
    requires
        all_renderable(ks),
    ensures
        lex(render(ks), location) is Ok,
        kinds(lex(render(ks), location)->Ok_0) == ks,
    decreases ks.len(),
{
    if ks.len() == 0 {
        assert(kinds(Seq::<TokenModel>::empty()) =~= ks);
    } else {
        let kind = ks[0];
        assert(renderable(kind));
        let text = kind_text(kind);
        let more = render(ks.drop_first());
        let s = render(ks);
        assert(s == text + seq![' '] + more);
        lemma_scan_rendered(kind, more);
        let n = text.len() as int;
        let end = crate::cursor::advance(location, s.take(n));
        let after = s.skip(n);
        assert(after =~= seq![' '] + more);
        assert(after.drop_first() =~= more);
        let next = ' '.spec_next_location(end);
        assert(all_renderable(ks.drop_first())) by {
            assert forall|i: int| 0 <= i < ks.drop_first().len() implies renderable(
                #[trigger] ks.drop_first()[i],
            ) by {
                assert(ks.drop_first()[i] == ks[i + 1]);
            }
        }
        lemma_lex_rendered(ks.drop_first(), next);
        assert(lex(after, end) == lex(more, next));
        let tail = lex(more, next)->Ok_0;
        assert(lex(s, location) == Ok::<Seq<TokenModel>, crate::lexer::LexerError>(
            seq![TokenModel { kind, location: end }] + tail,
        ));
        let all = seq![TokenModel { kind, location: end }] + tail;
        assert(kinds(tail) == ks.drop_first());
        assert forall|i: int| 0 <= i < ks.len() implies #[trigger] kinds(all)[i] == ks[i] by {
            if i > 0 {
                assert(all[i] == tail[i - 1]);
                assert(kinds(tail)[i - 1] == ks.drop_first()[i - 1]);
            }
        }
        assert(kinds(all) =~= ks);
    }
}

/// Writing out the tokens of a text, each followed by a space, and reading that
/// text again gives tokens of the same kinds, in the same order.
pub proof fn lemma_retokenize_rendered(text: Seq<char>)
    requires
        spec_tokenize(text) is Ok,
    ensures
        spec_tokenize(render(kinds(spec_tokenize(text)->Ok_0))) is Ok,
        kinds(spec_tokenize(render(kinds(spec_tokenize(text)->Ok_0)))->Ok_0) == kinds(
            spec_tokenize(text)->Ok_0,
        ),
{
    lemma_lex_renderable(text, Location::spec_start());
    lemma_lex_rendered(kinds(spec_tokenize(text)->Ok_0), Location::spec_start());
}

proof fn lemma_render_push(ks: Seq<TokenKind>, kind: TokenKind)
    ensures
        render(ks.push(kind)) == render(ks) + kind_text(kind) + seq![' '],
    decreases ks.len(),
{
    if ks.len() == 0 {
        assert(ks.push(kind).drop_first() =~= Seq::<TokenKind>::empty());
        assert(ks.push(kind)[0] == kind);
        assert(render(Seq::<TokenKind>::empty()) == Seq::<char>::empty());
        assert(render(ks) == Seq::<char>::empty());
        assert(render(ks.push(kind)) == kind_text(kind) + seq![' '] + Seq::<char>::empty());
        assert(render(ks.push(kind)) =~= render(ks) + kind_text(kind) + seq![' ']);
    } else {
        assert(ks.push(kind).drop_first() =~= ks.drop_first().push(kind));
        lemma_render_push(ks.drop_first(), kind);
        assert(render(ks.push(kind)) =~= render(ks) + kind_text(kind) + seq![' ']);
    }
}

fn push_chars(out: &mut Vec<char>, chars: &Vec<char>)
    ensures
        final(out)@ == old(out)@ + chars@,
{
    let ghost start = out@;
    for i in 0..chars.len()
        invariant
            out@ == start + chars@.take(i as int),
    {
        out.push(chars[i]);
        proof {
            assert(chars@.take(i + 1) =~= chars@.take(i as int).push(chars@[i as int]));
        }
    }
    assert(chars@.take(chars@.len() as int) =~= chars@);
}

fn contains_char(chars: &Vec<char>, c: char) -> (r: bool)
    ensures
        r == chars@.contains(c),
{
    for i in 0..chars.len()
        invariant
            forall|j: int| 0 <= j < i ==> chars@[j] != c,
    {
        if chars[i] == c {
            return true;
        }
    }
    false
}

/// Appends the text of a token type.
fn push_kind_text(out: &mut Vec<char>, token_type: &TokenType)
    ensures
        final(out)@ == old(out)@ + kind_text(token_type@),
{
    let ghost start = out@;
    let text: Vec<char> = match token_type {
        TokenType::LeftParenthesis => vec!['('],
        TokenType::RightParenthesis => vec![')'],
        TokenType::LeftCurlyBrace => vec!['{'],
        TokenType::RightCurlyBrace => vec!['}'],
        TokenType::Colon => vec![':'],
        TokenType::Semicolon => vec![';'],
        TokenType::Comma => vec![','],
        TokenType::Period => vec!['.'],
        TokenType::GreaterThan => vec!['>'],
        TokenType::GreaterThanOrEqual => vec!['>', '='],
        TokenType::LessThan => vec!['<'],
        TokenType::LessThanOrEqual => vec!['<', '='],
        TokenType::Equal => vec!['='],
        TokenType::NotEqual => vec!['!', '='],
        TokenType::Asterisk => vec!['*'],
        TokenType::Plus => vec!['+'],
        TokenType::Minus => vec!['-'],
        TokenType::Slash => vec!['/'],
        TokenType::Percent => vec!['%'],
        TokenType::Caret => vec!['^'],
        TokenType::Keyword(Keyword::Get) => vec!['G', 'E', 'T'],
        TokenType::Keyword(Keyword::Put) => vec!['P', 'U', 'T'],
        TokenType::Keyword(Keyword::Where) => vec!['W', 'H', 'E', 'R', 'E'],
        TokenType::Keyword(Keyword::True) => vec!['t', 'r', 'u', 'e'],
        TokenType::Keyword(Keyword::False) => vec!['f', 'a', 'l', 's', 'e'],
        TokenType::Number(t) => chars_of(t.as_str()),
        TokenType::Identifier(t) => chars_of(t.as_str()),
        TokenType::String(t) => {
            let body = chars_of(t.as_str());
            let quote = if contains_char(&body, '\'') { '"' } else { '\'' };
            let mut quoted: Vec<char> = vec![quote];
            push_chars(&mut quoted, &body);
            quoted.push(quote);
            proof {
                assert(quoted@ =~= seq![quote] + body@ + seq![quote]);
            }
            quoted
        },
    };
    assert(text@ =~= kind_text(token_type@));
    push_chars(out, &text);
}

/// The tokens written as text, each followed by a space; reading it again gives
/// tokens of the same kinds.
pub fn render_tokens(tokens: &Vec<Token>) -> (r: String)
    ensures
        r@ == render(kinds(token_models(tokens@))),
{
    let ghost ks = kinds(token_models(tokens@));
    let mut out: Vec<char> = Vec::new();
    for i in 0..tokens.len()
        invariant
            ks == kinds(token_models(tokens@)),
            out@ == render(ks.take(i as int)),
    {
        push_kind_text(&mut out, &tokens[i].token_type);
        out.push(' ');
        proof {
            assert(ks[i as int] == tokens@[i as int].token_type@);
            lemma_render_push(ks.take(i as int), ks[i as int]);
            assert(ks.take(i + 1) =~= ks.take(i as int).push(ks[i as int]));
        }
    }
    assert(ks.take(tokens@.len() as int) =~= ks);
    string_of(out)
}

} // verus!
