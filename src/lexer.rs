use vstd::prelude::*;

use crate::chars::{
    chars_of, is_alphabetic, is_numeric, is_whitespace, string_of, is_alphabetic_char,
    is_numeric_char, is_whitespace_char,
};
use crate::cursor::{
    advance, lemma_leading_run_len_unique, leading_run_len,
    CursorTrackable, Location, PeekingCursor,
};
use crate::token::{token_models, Keyword, Token, TokenKind, TokenModel, TokenType};

verus! {

#[derive(Debug, Clone, Copy, PartialEq, Eq, Structural)]
pub enum LexerError {
    UnexpectedCharacter(char),
    UnexpectedEndOfInput,
}

impl CursorTrackable for char {
    /// A line feed starts a new line; any other character moves one column on.
    /// Neither count goes past `usize::MAX`.
    open spec fn spec_next_location(&self, location: Location) -> Location {
        if *self == '\n' {
            Location {
                line: if location.line < usize::MAX { (location.line + 1) as usize } else { location.line },
                column: 0,
            }
        } else {
            Location {
                line: location.line,
                column: if location.column < usize::MAX { (location.column + 1) as usize } else { location.column },
            }
        }
    }

    fn next_location(&self, location: Location) -> (r: Location) {
        if *self == '\n' {
            let line = if location.line < usize::MAX { location.line + 1 } else { location.line };
            Location { line, column: 0 }
        } else {
            let column = if location.column < usize::MAX { location.column + 1 } else { location.column };
            Location { line: location.line, column }
        }
    }
}

/// A character that continues a numeric literal.
pub open spec fn is_number_char(c: char) -> bool {
    is_numeric_char(c) || c == '.'
}

/// A character that continues an identifier or keyword.
pub open spec fn is_word_char(c: char) -> bool {
    is_alphabetic_char(c) || is_numeric_char(c) || c == '_'
}

pub open spec fn number_char() -> spec_fn(char) -> bool {
    |c: char| is_number_char(c)
}

pub open spec fn word_char() -> spec_fn(char) -> bool {
    |c: char| is_word_char(c)
}

pub open spec fn other_than(quote: char) -> spec_fn(char) -> bool {
    |c: char| c != quote
}

/// A word is a keyword only when it spells one exactly.
pub open spec fn word_kind(word: Seq<char>) -> TokenKind {
    if word == seq!['G', 'E', 'T'] {
        TokenKind::Keyword(Keyword::Get)
    } else if word == seq!['P', 'U', 'T'] {
        TokenKind::Keyword(Keyword::Put)
    } else if word == seq!['t', 'r', 'u', 'e'] {
        TokenKind::Keyword(Keyword::True)
    } else if word == seq!['f', 'a', 'l', 's', 'e'] {
        TokenKind::Keyword(Keyword::False)
    } else if word == seq!['W', 'H', 'E', 'R', 'E'] {
        TokenKind::Keyword(Keyword::Where)
    } else {
        TokenKind::Identifier(word)
    }
}

/// The operator or delimiter that starts `rest`, and how many characters it spans.
pub open spec fn scan_symbol(rest: Seq<char>) -> Result<(TokenKind, int), LexerError>
    recommends
        rest.len() > 0,
{
    let c = rest[0];
    let then_equal = rest.len() > 1 && rest[1] == '=';
    if c == '(' {
        Ok((TokenKind::LeftParenthesis, 1))
    } else if c == ')' {
        Ok((TokenKind::RightParenthesis, 1))
    } else if c == '{' {
        Ok((TokenKind::LeftCurlyBrace, 1))
    } else if c == '}' {
        Ok((TokenKind::RightCurlyBrace, 1))
    } else if c == ':' {
        Ok((TokenKind::Colon, 1))
    } else if c == ';' {
        Ok((TokenKind::Semicolon, 1))
    } else if c == ',' {
        Ok((TokenKind::Comma, 1))
    } else if c == '.' {
        Ok((TokenKind::Period, 1))
    } else if c == '>' {
        if then_equal { Ok((TokenKind::GreaterThanOrEqual, 2)) } else { Ok((TokenKind::GreaterThan, 1)) }
    } else if c == '<' {
        if then_equal { Ok((TokenKind::LessThanOrEqual, 2)) } else { Ok((TokenKind::LessThan, 1)) }
    } else if c == '=' {
        Ok((TokenKind::Equal, 1))
    } else if c == '!' {
        if then_equal { Ok((TokenKind::NotEqual, 2)) } else { Err(LexerError::UnexpectedCharacter('!')) }
    } else if c == '*' {
        Ok((TokenKind::Asterisk, 1))
    } else if c == '+' {
        Ok((TokenKind::Plus, 1))
    } else if c == '-' {
        Ok((TokenKind::Minus, 1))
    } else if c == '/' {
        Ok((TokenKind::Slash, 1))
    } else if c == '%' {
        Ok((TokenKind::Percent, 1))
    } else if c == '^' {
        Ok((TokenKind::Caret, 1))
    } else {
        Err(LexerError::UnexpectedCharacter(c))
    }
}

/// The token that starts `rest` (which does not start with whitespace), and how
/// many characters it spans.
pub open spec fn scan_token(rest: Seq<char>) -> Result<(TokenKind, int), LexerError>
    recommends
        rest.len() > 0,
{
    let c = rest[0];
    if is_numeric_char(c) {
        let n = leading_run_len(rest, number_char()) as int;
        Ok((TokenKind::Number(rest.take(n)), n))
    } else if is_alphabetic_char(c) || c == '_' {
        let n = leading_run_len(rest, word_char()) as int;
        Ok((word_kind(rest.take(n)), n))
    } else if c == '\'' || c == '"' {
        let n = leading_run_len(rest.drop_first(), other_than(c)) as int;
        if n + 1 < rest.len() {
            Ok((TokenKind::String(rest.subrange(1, n + 1)), n + 2))
        } else {
            Err(LexerError::UnexpectedEndOfInput)
        }
    } else {
        scan_symbol(rest)
    }
}

/// The tokens of `rest`, read from position `location` on; each token carries the
/// position after its last character.
pub open spec fn lex(rest: Seq<char>, location: Location) -> Result<Seq<TokenModel>, LexerError>
    decreases rest.len(),
{
    if rest.len() == 0 {
        Ok(Seq::empty())
    } else if is_whitespace_char(rest[0]) {
        lex(rest.drop_first(), rest[0].spec_next_location(location))
    } else {
        match scan_token(rest) {
            Err(e) => Err(e),
            Ok((kind, n)) => {
                if 0 < n <= rest.len() {
                    let end = advance(location, rest.take(n));
                    match lex(rest.skip(n), end) {
                        Ok(tail) => Ok(seq![TokenModel { kind, location: end }] + tail),
                        Err(e) => Err(e),
                    }
                } else {
                    Err(LexerError::UnexpectedEndOfInput)
                }
            },
        }
    }
}

/// The tokens of a whole text.
pub open spec fn spec_tokenize(text: Seq<char>) -> Result<Seq<TokenModel>, LexerError> {
    lex(text, Location::spec_start())
}

/// `lex` from the cursor's state, appended to the tokens found before it.
pub open spec fn lex_after(found: Seq<Token>, rest: Seq<char>, location: Location) -> Result<
    Seq<TokenModel>,
    LexerError,
> {
    match lex(rest, location) {
        Ok(tail) => Ok(token_models(found) + tail),
        Err(e) => Err(e),
    }
}

pub fn tokenize(haystack: &str) -> (r: Result<Vec<Token>, LexerError>)
    ensures
        match spec_tokenize(haystack@) {
            Ok(ts) => r is Ok && token_models(r->Ok_0@) == ts,
            Err(e) => r == Err::<Vec<Token>, LexerError>(e),
        },
{
    let mut tokens: Vec<Token> = Vec::with_capacity(32);
    let mut chars = PeekingCursor::new(chars_of(haystack));
    proof {
        assert(token_models(tokens@) =~= Seq::<TokenModel>::empty());
        assert(lex_after(tokens@, chars@, chars.spec_loc()) =~= spec_tokenize(haystack@));
    }
    loop
        invariant
            lex_after(tokens@, chars@, chars.spec_loc()) == spec_tokenize(haystack@),
        ensures
            lex_after(tokens@, chars@, chars.spec_loc()) == spec_tokenize(haystack@),
            chars@.len() == 0,
        decreases chars@.len(),
    {
        let c = match chars.peek() {
            Some(c) => *c,
            None => break,
        };
        let ghost before = chars;
        let ghost rest = chars@;
        if is_whitespace(c) {
            chars.next();
            continue;
        }
        let token_type = if is_numeric(c) {
            let run = chars.peek_and_take_while((
                |next: &char| -> (b: bool)
                    ensures
                        b == is_number_char(*next),
                    { is_numeric(*next) || *next == '.' }),
            );
            proof {
                lemma_leading_run_len_unique(rest, number_char(), run@.len() as int);
            }
            TokenType::Number(string_of(run))
        } else if is_alphabetic(c) || c == '_' {
            let run = chars.peek_and_take_while((
                |next: &char| -> (b: bool)
                    ensures
                        b == is_word_char(*next),
                    { is_alphabetic(*next) || is_numeric(*next) || *next == '_' }),
            );
            proof {
                lemma_leading_run_len_unique(rest, word_char(), run@.len() as int);
            }
            word_token_type(run)
        } else if c == '\'' || c == '"' {
            let quote = chars.next().unwrap();
            let ghost opened = chars;
            let run = chars.peek_and_take_while((
                |next: &char| -> (b: bool)
                    ensures
                        b == (*next != quote),
                    { *next != quote }),
            );
            proof {
                lemma_leading_run_len_unique(rest.drop_first(), other_than(quote), run@.len() as int);
                PeekingCursor::lemma_moved_to_trans(&before, &opened, &chars);
            }
            let ghost body_end = chars;
            match chars.next() {
                Some(closing) => {
                    if closing != quote {
                        return Err(LexerError::UnexpectedCharacter(closing));
                    }
                },
                None => {
                    return Err(LexerError::UnexpectedEndOfInput);
                },
            }
            proof {
                PeekingCursor::lemma_moved_to_trans(&before, &body_end, &chars);
                assert(rest.subrange(1, run@.len() + 1 as int) =~= run@);
            }
            TokenType::String(string_of(run))
        } else {
            let next = chars.next().unwrap();
            let then_equal = match chars.peek() {
                Some(following) => *following == '=',
                None => false,
            };
            let ghost one = chars;
            let token_type = match next {
                '(' => TokenType::LeftParenthesis,
                ')' => TokenType::RightParenthesis,
                '{' => TokenType::LeftCurlyBrace,
                '}' => TokenType::RightCurlyBrace,
                ':' => TokenType::Colon,
                ';' => TokenType::Semicolon,
                ',' => TokenType::Comma,
                '.' => TokenType::Period,
                '>' => {
                    if then_equal {
                        chars.next();
                        TokenType::GreaterThanOrEqual
                    } else {
                        TokenType::GreaterThan
                    }
                },
                '<' => {
                    if then_equal {
                        chars.next();
                        TokenType::LessThanOrEqual
                    } else {
                        TokenType::LessThan
                    }
                },
                '=' => TokenType::Equal,
                '!' => {
                    if then_equal {
                        chars.next();
                        TokenType::NotEqual
                    } else {
                        return Err(LexerError::UnexpectedCharacter(next));
                    }
                },
                '*' => TokenType::Asterisk,
                '+' => TokenType::Plus,
                '-' => TokenType::Minus,
                '/' => TokenType::Slash,
                '%' => TokenType::Percent,
                '^' => TokenType::Caret,
                _ => {
                    return Err(LexerError::UnexpectedCharacter(next));
                },
            };
            proof {
                if (before@.len() - chars@.len()) == 2 {
                    PeekingCursor::lemma_moved_to_trans(&before, &one, &chars);
                }
            }
            token_type
        };
        let location = chars.loc();
        let ghost consumed = (rest.len() - chars@.len()) as int;
        let ghost kind = token_type@;
        let ghost found = tokens@;
        proof {
            // The token spans the characters the cursor moved past.
            assert(before.moved_to(&chars));
            assert(0 < consumed <= rest.len());
            assert(scan_token(rest) == Ok::<(TokenKind, int), LexerError>((kind, consumed)));
            assert(chars@ == rest.skip(consumed));
        }
        tokens.push(Token::new(token_type, location));
        proof {
            let m = TokenModel { kind, location };
            assert(token_models(tokens@) =~= token_models(found) + seq![m]);
            match lex(chars@, chars.spec_loc()) {
                Ok(tail) => {
                    assert(lex(rest, before.spec_loc()) == Ok::<Seq<TokenModel>, LexerError>(seq![m] + tail));
                    assert(token_models(found) + (seq![m] + tail) =~= token_models(tokens@) + tail);
                },
                Err(e) => {
                    assert(lex(rest, before.spec_loc()) == Err::<Seq<TokenModel>, LexerError>(e));
                },
            }
        }
    }
    proof {
        assert(token_models(tokens@) + Seq::<TokenModel>::empty() =~= token_models(tokens@));
    }
    Ok(tokens)
}

/// A keyword where the word spells one exactly, otherwise an identifier.
fn word_token_type(word: Vec<char>) -> (r: TokenType)
    ensures
        r@ == word_kind(word@),
{
    let n = word.len();
    if n == 3 && word[0] == 'G' && word[1] == 'E' && word[2] == 'T' {
        assert(word@ =~= seq!['G', 'E', 'T']);
        return TokenType::Keyword(Keyword::Get);
    }
    if n == 3 && word[0] == 'P' && word[1] == 'U' && word[2] == 'T' {
        assert(word@ =~= seq!['P', 'U', 'T']);
        return TokenType::Keyword(Keyword::Put);
    }
    if n == 4 && word[0] == 't' && word[1] == 'r' && word[2] == 'u' && word[3] == 'e' {
        assert(word@ =~= seq!['t', 'r', 'u', 'e']);
        return TokenType::Keyword(Keyword::True);
    }
    if n == 5 && word[0] == 'f' && word[1] == 'a' && word[2] == 'l' && word[3] == 's' && word[4] == 'e' {
        assert(word@ =~= seq!['f', 'a', 'l', 's', 'e']);
        return TokenType::Keyword(Keyword::False);
    }
    if n == 5 && word[0] == 'W' && word[1] == 'H' && word[2] == 'E' && word[3] == 'R' && word[4] == 'E' {
        assert(word@ =~= seq!['W', 'H', 'E', 'R', 'E']);
        return TokenType::Keyword(Keyword::Where);
    }
    proof {
        assert(word@ != seq!['G', 'E', 'T'] && word@ != seq!['P', 'U', 'T']) by {
            if word@.len() == 3 {
                if word@ == seq!['G', 'E', 'T'] {
                    assert(word@[0] == 'G' && word@[1] == 'E' && word@[2] == 'T');
                }
                if word@ == seq!['P', 'U', 'T'] {
                    assert(word@[0] == 'P' && word@[1] == 'U' && word@[2] == 'T');
                }
            }
        }
        assert(word@ != seq!['t', 'r', 'u', 'e']) by {
            if word@ == seq!['t', 'r', 'u', 'e'] {
                assert(word@[0] == 't' && word@[1] == 'r' && word@[2] == 'u' && word@[3] == 'e');
            }
        }
        assert(word@ != seq!['f', 'a', 'l', 's', 'e'] && word@ != seq!['W', 'H', 'E', 'R', 'E']) by {
            if word@ == seq!['f', 'a', 'l', 's', 'e'] {
                assert(word@[0] == 'f' && word@[1] == 'a' && word@[2] == 'l' && word@[3] == 's' && word@[4] == 'e');
            }
            if word@ == seq!['W', 'H', 'E', 'R', 'E'] {
                assert(word@[0] == 'W' && word@[1] == 'H' && word@[2] == 'E' && word@[3] == 'R' && word@[4] == 'E');
            }
        }
    }
    TokenType::Identifier(string_of(word))
}

} // verus!
