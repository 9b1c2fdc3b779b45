//! The decimal notation of a floating-point number, as a grammar over
//! characters:
//!
//! ```text
//! Float    ::= Sign? ( Special | Number )
//! Special  ::= 'inf' | 'infinity' | 'nan'          (in either case)
//! Number   ::= Mantissa Exponent?
//! Mantissa ::= Digit+ | Digit+ '.' Digit* | Digit* '.' Digit+
//! Exponent ::= ( 'e' | 'E' ) Sign? Digit+
//! Sign     ::= '+' | '-'
//! Digit    ::= '0' ..= '9'
//! ```
//!
//! This is the notation that `f64`'s `FromStr` accepts. No white space is
//! allowed anywhere in it.

use crate::text::{
    ascii_lowercase, char_ascii_lowercase, char_is_digit, char_is_sign, chars_of, is_digit,
    is_sign, is_whitespace,
};
use vstd::prelude::*;
use vstd::slice::slice_subrange;

verus! {

/// Every character of `s` from `from` up to `to` is a digit.
pub open spec fn digits_between(s: Seq<char>, from: int, to: int) -> bool {
    forall|i: int| from <= i < to ==> is_digit(#[trigger] s[i])
}

/// `s` is `Digit* '.' Digit*` with the point at `k` and at least one digit.
pub open spec fn is_mantissa_with_point(s: Seq<char>, k: int) -> bool {
    &&& 0 <= k < s.len()
    &&& s[k] == '.'
    &&& s.len() >= 2
    &&& digits_between(s, 0, k)
    &&& digits_between(s, k + 1, s.len() as int)
}

/// `Digit+ | Digit+ '.' Digit* | Digit* '.' Digit+`
pub open spec fn is_mantissa(s: Seq<char>) -> bool {
    ||| s.len() >= 1 && digits_between(s, 0, s.len() as int)
    ||| exists|k: int| is_mantissa_with_point(s, k)
}

/// `( 'e' | 'E' ) Sign? Digit+`
pub open spec fn is_exponent(s: Seq<char>) -> bool {
    &&& s.len() >= 2
    &&& ascii_lowercase(s[0]) == 'e'
    &&& if is_sign(s[1]) {
        s.len() >= 3 && digits_between(s, 2, s.len() as int)
    } else {
        digits_between(s, 1, s.len() as int)
    }
}

/// `s` is a mantissa up to `k` and an exponent from `k` on.
pub open spec fn is_number_with_exponent(s: Seq<char>, k: int) -> bool {
    &&& 0 < k < s.len()
    &&& is_mantissa(s.subrange(0, k))
    &&& is_exponent(s.subrange(k, s.len() as int))
}

/// `Mantissa Exponent?`
pub open spec fn is_number(s: Seq<char>) -> bool {
    ||| is_mantissa(s)
    ||| exists|k: int| is_number_with_exponent(s, k)
}

/// `s` is `word`, whichever case its ASCII letters are in. `word` is in
/// lower case.
pub open spec fn spells(s: Seq<char>, word: Seq<char>) -> bool {
    &&& s.len() == word.len()
    &&& forall|i: int| 0 <= i < s.len() ==> ascii_lowercase(#[trigger] s[i]) == word[i]
}

/// `'inf' | 'infinity' | 'nan'`, in either case.
pub open spec fn is_special(s: Seq<char>) -> bool {
    ||| spells(s, seq!['i', 'n', 'f'])
    ||| spells(s, seq!['i', 'n', 'f', 'i', 'n', 'i', 't', 'y'])
    ||| spells(s, seq!['n', 'a', 'n'])
}

/// `s` without the sign it starts with, if it starts with one.
pub open spec fn without_sign(s: Seq<char>) -> Seq<char> {
    if s.len() > 0 && is_sign(s[0]) {
        s.drop_first()
    } else {
        s
    }
}

/// `Sign? ( Special | Number )`
pub open spec fn is_float_literal(s: Seq<char>) -> bool {
    is_special(without_sign(s)) || is_number(without_sign(s))
}

/// The end of the run of digits that starts at `from`.
fn scan_digits(text: &[char], from: usize) -> (end: usize)
    requires
        from <= text@.len(),
    ensures
        from <= end <= text@.len(),
        digits_between(text@, from as int, end as int),
        end == text@.len() || !is_digit(text@[end as int]),
{
    let n: usize = text.len();
    let mut end: usize = from;
    while end < n && char_is_digit(text[end])
        invariant
            from <= end <= n == text@.len(),
            digits_between(text@, from as int, end as int),
        decreases n - end,
    {
        end = end + 1;
    }
    end
}

/// Decides whether `text` is a mantissa.
pub fn check_mantissa(text: &[char]) -> (r: bool)
    ensures
        r == is_mantissa(text@),
{
    let n: usize = text.len();
    let a: usize = scan_digits(text, 0);
    if a == n {
        return n >= 1;
    }
    if text[a] != '.' {
        return false;
    }
    let b: usize = scan_digits(text, a + 1);
    if b == n && n >= 2 {
        assert(is_mantissa_with_point(text@, a as int));
        true
    } else {
        assert forall|k: int| !is_mantissa_with_point(text@, k) by {
            if is_mantissa_with_point(text@, k) && k < a {
                assert(is_digit(text@[k]));
            }
        }
        false
    }
}

/// A mantissa holds digits and points only.
pub proof fn lemma_mantissa_characters(s: Seq<char>)
    requires
        is_mantissa(s),
    ensures
        forall|i: int| 0 <= i < s.len() ==> is_digit(#[trigger] s[i]) || s[i] == '.',
{
    if !(s.len() >= 1 && digits_between(s, 0, s.len() as int)) {
        let k = choose|k: int| is_mantissa_with_point(s, k);
        assert forall|i: int| 0 <= i < s.len() implies is_digit(#[trigger] s[i]) || s[i]
            == '.' by {
            if i < k {
                assert(is_digit(s[i]));
            } else if i > k {
                assert(is_digit(s[i]));
            }
        }
    }
}

/// Decides whether `text` is an exponent.
pub fn check_exponent(text: &[char]) -> (r: bool)
    ensures
        r == is_exponent(text@),
{
    let n: usize = text.len();
    if n < 2 || char_ascii_lowercase(text[0]) != 'e' {
        return false;
    }
    let from: usize = if char_is_sign(text[1]) {
        2
    } else {
        1
    };
    let end: usize = scan_digits(text, from);
    end == n && end > from
}

/// The end of the run of digits and points that `text` starts with.
fn scan_mantissa(text: &[char]) -> (end: usize)
    ensures
        end <= text@.len(),
        forall|i: int| 0 <= i < end ==> is_digit(#[trigger] text@[i]) || text@[i] == '.',
        end == text@.len() || !(is_digit(text@[end as int]) || text@[end as int] == '.'),
{
    let n: usize = text.len();
    let mut end: usize = 0;
    while end < n && (char_is_digit(text[end]) || text[end] == '.')
        invariant
            end <= n == text@.len(),
            forall|i: int| 0 <= i < end ==> is_digit(#[trigger] text@[i]) || text@[i] == '.',
        decreases n - end,
    {
        end = end + 1;
    }
    end
}

/// Decides whether `text` is a number: a mantissa, with or without an
/// exponent behind it.
pub fn check_number(text: &[char]) -> (r: bool)
    ensures
        r == is_number(text@),
{
    let n: usize = text.len();
    let p: usize = scan_mantissa(text);
    proof {
        if is_mantissa(text@) {
            lemma_mantissa_characters(text@);
        }
        assert forall|k: int| is_number_with_exponent(text@, k) implies k == p by {
            let head = text@.subrange(0, k);
            let tail = text@.subrange(k, n as int);
            lemma_mantissa_characters(head);
            assert(tail[0] == text@[k]);
            if p < k {
                assert(head[p as int] == text@[p as int]);
            }
        }
        assert(text@.subrange(0, n as int) =~= text@);
    }
    if !check_mantissa(slice_subrange(text, 0, p)) {
        return false;
    }
    if p == n {
        return true;
    }
    let r = check_exponent(slice_subrange(text, p, n));
    assert(r ==> is_number_with_exponent(text@, p as int));
    r
}

/// Decides whether `text` is `word`, whichever case its ASCII letters are in.
fn check_spells(text: &[char], word: &[char]) -> (r: bool)
    ensures
        r == spells(text@, word@),
{
    let n: usize = text.len();
    if n != word.len() {
        return false;
    }
    let mut i: usize = 0;
    while i < n
        invariant
            i <= n == text@.len() == word@.len(),
            forall|j: int| 0 <= j < i ==> ascii_lowercase(#[trigger] text@[j]) == word@[j],
        decreases n - i,
    {
        if char_ascii_lowercase(text[i]) != word[i] {
            return false;
        }
        i = i + 1;
    }
    true
}

/// Decides whether `text` names an infinity or a value that is not a number.
pub fn check_special(text: &[char]) -> (r: bool)
    ensures
        r == is_special(text@),
{
    let inf: [char; 3] = ['i', 'n', 'f'];
    let infinity: [char; 8] = ['i', 'n', 'f', 'i', 'n', 'i', 't', 'y'];
    let nan: [char; 3] = ['n', 'a', 'n'];
    assert(inf@ =~= seq!['i', 'n', 'f']);
    assert(infinity@ =~= seq!['i', 'n', 'f', 'i', 'n', 'i', 't', 'y']);
    assert(nan@ =~= seq!['n', 'a', 'n']);
    check_spells(text, inf.as_slice()) || check_spells(text, infinity.as_slice()) || check_spells(
        text,
        nan.as_slice(),
    )
}

/// Decides whether `text` is the decimal notation of a floating-point
/// number.
pub fn check_float_literal(text: &[char]) -> (r: bool)
    ensures
        r == is_float_literal(text@),
{
    let n: usize = text.len();
    let from: usize = if n > 0 && char_is_sign(text[0]) {
        1
    } else {
        0
    };
    let body = slice_subrange(text, from, n);
    assert(body@ =~= without_sign(text@));
    check_special(body) || check_number(body)
}

/// Decides whether the whole of `text` is the decimal notation of a
/// floating-point number.
pub fn is_float_text(text: &str) -> (r: bool)
    ensures
        r == is_float_literal(text@),
{
    let chars = chars_of(text);
    check_float_literal(chars.as_slice())
}

/// A number is written without white space: the notation is never empty and
/// none of its characters is white space.
pub proof fn lemma_literal_has_no_white_space(s: Seq<char>)
    requires
        is_float_literal(s),
    ensures
        s.len() > 0,
        forall|i: int| 0 <= i < s.len() ==> !is_whitespace(#[trigger] s[i]),
{
    let body = without_sign(s);
    assert forall|i: int| 0 <= i < body.len() implies !is_whitespace(#[trigger] body[i]) by {
        if is_special(body) {
            assert(ascii_lowercase(body[i]) != body[i] || !is_whitespace(body[i]));
        } else if is_mantissa(body) {
            lemma_mantissa_characters(body);
        } else {
            let k = choose|k: int| is_number_with_exponent(body, k);
            let head = body.subrange(0, k);
            let tail = body.subrange(k, body.len() as int);
            lemma_mantissa_characters(head);
            if i < k {
                assert(head[i] == body[i]);
            } else {
                assert(tail[i - k] == body[i]);
                if i - k >= 2 || (i - k == 1 && !is_sign(tail[1])) {
                    assert(is_digit(tail[i - k]));
                }
            }
        }
    }
    assert(body.len() > 0) by {
        if is_mantissa(body) {
        } else if is_number(body) {
            let k = choose|k: int| is_number_with_exponent(body, k);
        }
    }
    assert forall|i: int| 0 <= i < s.len() implies !is_whitespace(#[trigger] s[i]) by {
        if s.len() > 0 && is_sign(s[0]) && i > 0 {
            assert(body[i - 1] == s[i]);
        }
    }
}

} // verus!
