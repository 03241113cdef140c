use vstd::prelude::*;

use crate::ast::Value;
use crate::chars::chars_of;
use crate::parser_error::{ParserError, ParserErrorModel};

verus! {

pub open spec fn is_digit(c: char) -> bool {
    '0' <= c && c <= '9'
}

pub open spec fn all_digits(s: Seq<char>) -> bool {
    forall|i: int| 0 <= i < s.len() ==> is_digit(#[trigger] s[i])
}

/// The number that a run of decimal digits spells.
pub open spec fn digits_value(s: Seq<char>) -> int
    decreases s.len(),
{
    if s.len() == 0 {
        0
    } else {
        digits_value(s.drop_last()) * 10 + (s.last() as int - '0' as int)
    }
}

pub open spec fn is_sign(c: char) -> bool {
    c == '+' || c == '-'
}

/// The text after an optional leading sign.
pub open spec fn unsigned_part(s: Seq<char>) -> Seq<char> {
    if s.len() > 0 && is_sign(s[0]) { s.drop_first() } else { s }
}

/// The integer that `s` writes as an optional sign and one or more decimal digits.
pub open spec fn integer_literal(s: Seq<char>) -> Option<int> {
    let digits = unsigned_part(s);
    if digits.len() > 0 && all_digits(digits) {
        if s[0] == '-' { Some(-digits_value(digits)) } else { Some(digits_value(digits)) }
    } else {
        None
    }
}

/// The number of leading decimal digits of `s`.
pub open spec fn leading_digits(s: Seq<char>) -> nat
    decreases s.len(),
{
    if s.len() > 0 && is_digit(s[0]) { 1 + leading_digits(s.drop_first()) } else { 0 }
}

/// `s` is `e` or `E`, an optional sign and one or more digits.
pub open spec fn is_exponent(s: Seq<char>) -> bool {
    &&& s.len() > 0
    &&& (s[0] == 'e' || s[0] == 'E')
    &&& unsigned_part(s.drop_first()).len() > 0
    &&& all_digits(unsigned_part(s.drop_first()))
}

/// Digits, a point and digits, with a digit on at least one side of the point
/// (which may be left out), then an optional exponent.
pub open spec fn is_decimal(s: Seq<char>) -> bool {
    let whole = leading_digits(s) as int;
    let after_whole = s.skip(whole);
    if after_whole.len() > 0 && after_whole[0] == '.' {
        let fraction = leading_digits(after_whole.drop_first()) as int;
        let rest = after_whole.skip(1 + fraction);
        whole + fraction > 0 && (rest.len() == 0 || is_exponent(rest))
    } else {
        whole > 0 && (after_whole.len() == 0 || is_exponent(after_whole))
    }
}

/// `c` is the letter `lower`, or its capital.
pub open spec fn same_letter(c: char, lower: char) -> bool {
    c == lower || (65 <= (c as u32) && (c as u32) <= 90 && c as u32 + 32 == lower as u32)
}

/// `s` spells `word`, in either case.
pub open spec fn spells(s: Seq<char>, word: Seq<char>) -> bool {
    s.len() == word.len() && forall|i: int| 0 <= i < s.len() ==> same_letter(#[trigger] s[i], word[i])
}

/// `s` is a floating-point literal as `f64`'s `FromStr` reads one: an optional sign,
/// then `inf`, `infinity` or `nan` in any case, or a decimal number.
pub open spec fn is_float_literal(s: Seq<char>) -> bool {
    let body = unsigned_part(s);
    spells(body, seq!['i', 'n', 'f']) || spells(body, seq!['i', 'n', 'f', 'i', 'n', 'i', 't', 'y'])
        || spells(body, seq!['n', 'a', 'n']) || is_decimal(body)
}

pub open spec fn fits_i64(v: int) -> bool {
    i64::MIN <= v && v <= i64::MAX
}

/// The value a numeric literal stands for: an `Integer` where it is an integer that
/// fits in `i64`, otherwise a `Float` where it is a floating-point literal.
pub open spec fn spec_number_value(text: String) -> Result<Value, ParserErrorModel> {
    match integer_literal(text@) {
        Some(v) if fits_i64(v) => Ok(Value::Integer(v as i64)),
        _ => if is_float_literal(text@) {
            Ok(Value::Float(text))
        } else {
            Err(ParserErrorModel::InvalidNumericalValue(text@))
        },
    }
}

/// The numeric value of a literal's text.
pub fn number_value(text: String) -> (r: Result<Value, ParserError>)
    ensures
        match spec_number_value(text) {
            Ok(v) => r == Ok::<Value, ParserError>(v),
            Err(e) => r is Err && r->Err_0@ == e,
        },
{
    let chars = chars_of(text.as_str());
    match parse_integer(&chars) {
        Some(v) => Ok(Value::Integer(v)),
        None => {
            if is_float(&chars) {
                Ok(Value::Float(text))
            } else {
                Err(ParserError::InvalidNumericalValue(text))
            }
        },
    }
}

proof fn lemma_digits_value_nonneg(s: Seq<char>)
    requires
        all_digits(s),
    ensures
        digits_value(s) >= 0,
    decreases s.len(),
{
    if s.len() > 0 {
        assert(all_digits(s.drop_last())) by {
            assert forall|i: int| 0 <= i < s.drop_last().len() implies is_digit(
                #[trigger] s.drop_last()[i],
            ) by {
                assert(s.drop_last()[i] == s[i]);
            }
        }
        lemma_digits_value_nonneg(s.drop_last());
        assert(is_digit(s[s.len() - 1]));
    }
}

const LIMIT: u64 = 9223372036854775808;

/// The integer that `chars` writes, where it fits in `i64`.
fn parse_integer(chars: &Vec<char>) -> (r: Option<i64>)
    ensures
        match integer_literal(chars@) {
            Some(v) if fits_i64(v) => r == Some(v as i64),
            _ => r is None,
        },
{
    let n = chars.len();
    let mut start: usize = 0;
    let mut negative = false;
    if n > 0 && (chars[0] == '+' || chars[0] == '-') {
        negative = chars[0] == '-';
        start = 1;
    }
    let ghost digits = unsigned_part(chars@);
    assert(digits =~= chars@.skip(start as int));
    if start == n {
        return None;
    }
    // `magnitude` holds the value of the digits so far until it passes `LIMIT`.
    let mut magnitude: u64 = 0;
    let mut too_large = false;
    let mut i: usize = start;
    while i < n
        invariant
            start <= i <= n,
            n == chars@.len(),
            digits == chars@.skip(start as int),
            digits == unsigned_part(chars@),
            negative == (chars@.len() > 0 && chars@[0] == '-'),
            all_digits(chars@.subrange(start as int, i as int)),
            !too_large ==> magnitude as int == digits_value(chars@.subrange(start as int, i as int)),
            !too_large ==> magnitude <= LIMIT,
            too_large ==> digits_value(chars@.subrange(start as int, i as int)) > LIMIT,
        decreases n - i,
    {
        let c = chars[i];
        if !('0' <= c && c <= '9') {
            proof {
                assert(digits[i - start] == c);
                assert(!all_digits(digits));
                assert(integer_literal(chars@) is None);
            }
            return None;
        }
        let d = (c as u32 - '0' as u32) as u64;
        let ghost before = chars@.subrange(start as int, i as int);
        let ghost after = chars@.subrange(start as int, i + 1);
        proof {
            assert(after.drop_last() =~= before);
            assert(after.last() == c);
            assert(all_digits(after)) by {
                assert forall|j: int| 0 <= j < after.len() implies is_digit(#[trigger] after[j]) by {
                    if j < before.len() {
                        assert(after[j] == before[j]);
                    }
                }
            }
            lemma_digits_value_nonneg(before);
        }
        if !too_large {
            if magnitude > (LIMIT - d) / 10 {
                too_large = true;
                assert(digits_value(after) > LIMIT) by (nonlinear_arith)
                    requires
                        digits_value(after) == magnitude * 10 + d,
                        magnitude > (LIMIT - d) / 10,
                        d <= 9,
                ;
            } else {
                assert(magnitude * 10 + d <= LIMIT) by (nonlinear_arith)
                    requires
                        magnitude <= (LIMIT - d) / 10,
                        d <= 9,
                ;
                magnitude = magnitude * 10 + d;
            }
        } else {
            assert(digits_value(after) > LIMIT) by (nonlinear_arith)
                requires
                    digits_value(after) == digits_value(before) * 10 + d,
                    digits_value(before) > LIMIT,
                    d <= 9,
            ;
        }
        i = i + 1;
    }
    assert(chars@.subrange(start as int, n as int) =~= digits);
    if too_large {
        return None;
    }
    if negative {
        if magnitude == LIMIT {
            Some(i64::MIN)
        } else {
            Some(-(magnitude as i64))
        }
    } else if magnitude <= i64::MAX as u64 {
        Some(magnitude as i64)
    } else {
        None
    }
}

/// The number of decimal digits at `chars[from..]`'s start.
fn count_digits(chars: &Vec<char>, from: usize) -> (r: usize)
    requires
        from <= chars@.len(),
    ensures
        from + r <= chars@.len(),
        r == leading_digits(chars@.skip(from as int)),
{
    let mut i = from;
    while i < chars.len() && '0' <= chars[i] && chars[i] <= '9'
        invariant
            from <= i <= chars@.len(),
            leading_digits(chars@.skip(from as int)) == (i - from) + leading_digits(
                chars@.skip(i as int),
            ),
        decreases chars@.len() - i,
    {
        proof {
            assert(chars@.skip(i as int).drop_first() =~= chars@.skip(i + 1));
        }
        i = i + 1;
    }
    i - from
}

/// Whether `chars[from..]` is an exponent.
fn is_exponent_at(chars: &Vec<char>, from: usize) -> (r: bool)
    requires
        from <= chars@.len(),
    ensures
        r == is_exponent(chars@.skip(from as int)),
{
    let n = chars.len();
    let ghost s = chars@.skip(from as int);
    if from == n || !(chars[from] == 'e' || chars[from] == 'E') {
        return false;
    }
    let mut start = from + 1;
    if start < n && (chars[start] == '+' || chars[start] == '-') {
        start = start + 1;
    }
    assert(unsigned_part(s.drop_first()) =~= chars@.skip(start as int));
    let digits = count_digits(chars, start);
    proof {
        let u = chars@.skip(start as int);
        lemma_leading_digits(u);
    }
    digits > 0 && start + digits == n
}

proof fn lemma_leading_digits(s: Seq<char>)
    ensures
        leading_digits(s) <= s.len(),
        forall|i: int| 0 <= i < leading_digits(s) ==> is_digit(#[trigger] s[i]),
        leading_digits(s) < s.len() ==> !is_digit(s[leading_digits(s) as int]),
        all_digits(s) <==> leading_digits(s) == s.len(),
    decreases s.len(),
{
    if s.len() > 0 && is_digit(s[0]) {
        lemma_leading_digits(s.drop_first());
        assert forall|i: int| 0 <= i < leading_digits(s) implies is_digit(#[trigger] s[i]) by {
            if i > 0 {
                assert(s[i] == s.drop_first()[i - 1]);
            }
        }
        if all_digits(s) {
            assert forall|i: int| 0 <= i < s.drop_first().len() implies is_digit(
                #[trigger] s.drop_first()[i],
            ) by {
                assert(s.drop_first()[i] == s[i + 1]);
            }
        }
        if leading_digits(s) == s.len() {
            assert forall|i: int| 0 <= i < s.len() implies is_digit(#[trigger] s[i]) by {}
        }
    }
}

/// Whether `chars[from..]` spells `word` (given in lower case), in either case.
fn spells_at(chars: &Vec<char>, from: usize, word: &Vec<char>) -> (r: bool)
    requires
        from <= chars@.len(),
    ensures
        r == spells(chars@.skip(from as int), word@),
{
    if chars.len() - from != word.len() {
        return false;
    }
    let mut j: usize = from;
    while j < chars.len()
        invariant
            from + word@.len() == chars@.len(),
            from <= j <= chars@.len(),
            forall|k: int| 0 <= k < j - from ==> same_letter(#[trigger] chars@.skip(from as int)[k], word@[k]),
        decreases chars@.len() - j,
    {
        let c = chars[j];
        let w = word[j - from];
        assert(chars@.skip(from as int)[j - from] == c);
        let code = c as u32;
        if !(c == w || (65 <= code && code <= 90 && code + 32 == (w as u32))) {
            return false;
        }
        j = j + 1;
    }
    true
}

/// Whether `chars` is a floating-point literal.
fn is_float(chars: &Vec<char>) -> (r: bool)
    ensures
        r == is_float_literal(chars@),
{
    let n = chars.len();
    let start: usize = if n > 0 && (chars[0] == '+' || chars[0] == '-') { 1 } else { 0 };
    let ghost body = unsigned_part(chars@);
    assert(body =~= chars@.skip(start as int));
    if spells_at(chars, start, &vec!['i', 'n', 'f']) || spells_at(
        chars,
        start,
        &vec!['i', 'n', 'f', 'i', 'n', 'i', 't', 'y'],
    ) || spells_at(chars, start, &vec!['n', 'a', 'n']) {
        return true;
    }
    let whole = count_digits(chars, start);
    let after_whole = start + whole;
    proof {
        assert(body.skip(whole as int) =~= chars@.skip(after_whole as int));
    }
    if after_whole < n && chars[after_whole] == '.' {
        let fraction = count_digits(chars, after_whole + 1);
        proof {
            assert(body.skip(whole as int).drop_first() =~= chars@.skip(after_whole + 1));
            assert(body.skip(whole as int).skip(1 + fraction) =~= chars@.skip(after_whole + 1 + fraction));
        }
        let rest = after_whole + 1 + fraction;
        whole + fraction > 0 && (rest == n || is_exponent_at(chars, rest))
    } else {
        whole > 0 && (after_whole == n || is_exponent_at(chars, after_whole))
    }
}

} // verus!
