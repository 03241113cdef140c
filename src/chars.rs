use vstd::prelude::*;

verus! {

/// Whether `c`, beyond the ASCII range, has Unicode's White_Space property.
pub uninterp spec fn unicode_whitespace(c: char) -> bool;

/// Whether `c`, beyond the ASCII range, has Unicode's Alphabetic property.
pub uninterp spec fn unicode_alphabetic(c: char) -> bool;

/// Whether `c`, beyond the ASCII range, is in one of Unicode's general categories
/// for numbers (Nd, Nl, No).
pub uninterp spec fn unicode_numeric(c: char) -> bool;

/// White_Space: in the ASCII range the space, tab, line feed, vertical tab, form
/// feed and carriage return.
pub open spec fn is_whitespace_char(c: char) -> bool {
    if c <= '\x7f' {
        c == ' ' || ('\t' <= c && c <= '\r')
    } else {
        unicode_whitespace(c)
    }
}

/// Alphabetic: in the ASCII range the letters `a` to `z` and `A` to `Z`.
pub open spec fn is_alphabetic_char(c: char) -> bool {
    if c <= '\x7f' {
        ('a' <= c && c <= 'z') || ('A' <= c && c <= 'Z')
    } else {
        unicode_alphabetic(c)
    }
}

/// Numeric: in the ASCII range the digits `0` to `9`.
pub open spec fn is_numeric_char(c: char) -> bool {
    if c <= '\x7f' {
        '0' <= c && c <= '9'
    } else {
        unicode_numeric(c)
    }
}

/// Relies on `char::is_whitespace`: whether `c` has the White_Space property.
#[verifier::external_body]
pub(crate) fn is_whitespace(c: char) -> (r: bool)
    ensures
        c <= '\x7f' ==> r == (c == ' ' || ('\t' <= c && c <= '\r')),
        c > '\x7f' ==> r == unicode_whitespace(c),
{
    c.is_whitespace()
}

/// Relies on `char::is_alphabetic`: whether `c` has the Alphabetic property.
#[verifier::external_body]
pub(crate) fn is_alphabetic(c: char) -> (r: bool)
    ensures
        c <= '\x7f' ==> r == (('a' <= c && c <= 'z') || ('A' <= c && c <= 'Z')),
        c > '\x7f' ==> r == unicode_alphabetic(c),
{
    c.is_alphabetic()
}

/// Relies on `char::is_numeric`: whether `c` is in a general category for numbers.
#[verifier::external_body]
pub(crate) fn is_numeric(c: char) -> (r: bool)
    ensures
        c <= '\x7f' ==> r == ('0' <= c && c <= '9'),
        c > '\x7f' ==> r == unicode_numeric(c),
{
    c.is_numeric()
}

/// Relies on `String::from_iter` over characters: the string of those characters.
#[verifier::external_body]
pub(crate) fn string_of(chars: Vec<char>) -> (r: String)
    ensures
        r@ == chars@,
{
    String::from_iter(chars)
}

/// The characters of `s`, in order.
pub fn chars_of(s: &str) -> (r: Vec<char>)
    ensures
        r@ == s@,
{
    let mut r: Vec<char> = Vec::new();
    for c in it: s.chars()
        invariant
            r@ == it.seq().take(it.index() as int),
    {
        r.push(c);
    }
    r
}

} // verus!
