//! Character classes, trimming and comparison over sequences of characters.

use vstd::prelude::*;

verus! {

/// The code points that carry the Unicode property `White_Space`.
pub open spec fn is_whitespace(c: char) -> bool {
    let n = c as u32;
    ||| 0x0009 <= n <= 0x000D
    ||| n == 0x0020
    ||| n == 0x0085
    ||| n == 0x00A0
    ||| n == 0x1680
    ||| 0x2000 <= n <= 0x200A
    ||| n == 0x2028
    ||| n == 0x2029
    ||| n == 0x202F
    ||| n == 0x205F
    ||| n == 0x3000
}

/// The ASCII digits `0` to `9`.
pub open spec fn is_digit(c: char) -> bool {
    '0' <= c <= '9'
}

/// `+` or `-`.
pub open spec fn is_sign(c: char) -> bool {
    c == '+' || c == '-'
}

/// Maps `A`..`Z` to `a`..`z` and leaves every other character alone.
pub open spec fn ascii_lowercase(c: char) -> char {
    if 'A' <= c <= 'Z' {
        ((c as u32) + 32) as char
    } else {
        c
    }
}

/// `s` with each of its characters folded by [`ascii_lowercase`].
pub open spec fn ascii_lowercased(s: Seq<char>) -> Seq<char> {
    Seq::new(s.len(), |i: int| ascii_lowercase(s[i]))
}

/// `s` without the white space it starts with.
pub open spec fn trim_start(s: Seq<char>) -> Seq<char>
    decreases s.len(),
{
    if s.len() > 0 && is_whitespace(s[0]) {
        trim_start(s.drop_first())
    } else {
        s
    }
}

/// `s` without the white space it ends with.
pub open spec fn trim_end(s: Seq<char>) -> Seq<char>
    decreases s.len(),
{
    if s.len() > 0 && is_whitespace(s.last()) {
        trim_end(s.drop_last())
    } else {
        s
    }
}

/// `s` without the white space at either end.
pub open spec fn trimmed(s: Seq<char>) -> Seq<char> {
    trim_end(trim_start(s))
}

/// `s` ends with `suffix`.
pub open spec fn has_suffix(s: Seq<char>, suffix: Seq<char>) -> bool {
    s.len() >= suffix.len() && s.subrange(s.len() - suffix.len(), s.len() as int) == suffix
}

/// Trimming takes off the white space that follows a text which does not
/// end with white space itself.
pub proof fn lemma_trim_end_drops(s: Seq<char>, space: Seq<char>)
    requires
        s.len() > 0 ==> !is_whitespace(s.last()),
        forall|i: int| 0 <= i < space.len() ==> is_whitespace(#[trigger] space[i]),
    ensures
        trim_end(s + space) == s,
    decreases space.len(),
{
    if space.len() == 0 {
        assert(s + space =~= s);
    } else {
        assert((s + space).last() == space.last());
        assert((s + space).drop_last() =~= s + space.drop_last());
        lemma_trim_end_drops(s, space.drop_last());
    }
}

/// Decides whether `c` is white space.
pub fn char_is_whitespace(c: char) -> (r: bool)
    ensures
        r == is_whitespace(c),
{
    let n: u32 = c as u32;
    if n <= 0x0020 {
        (0x0009 <= n && n <= 0x000D) || n == 0x0020
    } else if n < 0x2000 {
        n == 0x0085 || n == 0x00A0 || n == 0x1680
    } else {
        n <= 0x200A || n == 0x2028 || n == 0x2029 || n == 0x202F || n == 0x205F || n == 0x3000
    }
}

/// Decides whether `c` is an ASCII digit.
pub fn char_is_digit(c: char) -> (r: bool)
    ensures
        r == is_digit(c),
{
    '0' <= c && c <= '9'
}

/// Decides whether `c` is a sign.
pub fn char_is_sign(c: char) -> (r: bool)
    ensures
        r == is_sign(c),
{
    c == '+' || c == '-'
}

/// Folds an ASCII capital to its small letter.
pub fn char_ascii_lowercase(c: char) -> (r: char)
    ensures
        r == ascii_lowercase(c),
{
    if 'A' <= c && c <= 'Z' {
        let n: u8 = c as u8 + 32;
        n as char
    } else {
        c
    }
}

/// The characters of `s`, in order.
pub fn chars_of(s: &str) -> (v: Vec<char>)
    ensures
        v@ == s@,
{
    let mut v: Vec<char> = Vec::new();
    for c in it: s.chars()
        invariant
            v@ == it.seq().take(it.index()),
    {
        v.push(c);
    }
    v
}

/// Where the trimmed part of `text` starts and ends: nothing but white space
/// stands before the start or from the end on, and what lies between, if
/// anything does, starts and ends with a character that is not white space.
pub fn trim_bounds(text: &[char]) -> (r: (usize, usize))
    ensures
        r.0 <= r.1 <= text@.len(),
        text@.subrange(r.0 as int, r.1 as int) == trimmed(text@),
        forall|i: int| 0 <= i < r.0 ==> is_whitespace(#[trigger] text@[i]),
        forall|i: int| r.1 <= i < text@.len() ==> is_whitespace(#[trigger] text@[i]),
        r.0 < r.1 ==> !is_whitespace(text@[r.0 as int]) && !is_whitespace(text@[r.1 - 1]),
{
    let n: usize = text.len();
    let mut a: usize = 0;
    assert(text@.subrange(0, n as int) =~= text@);
    while a < n && char_is_whitespace(text[a])
        invariant
            a <= n == text@.len(),
            trim_start(text@) == trim_start(text@.subrange(a as int, n as int)),
            forall|i: int| 0 <= i < a ==> is_whitespace(#[trigger] text@[i]),
        decreases n - a,
    {
        assert(text@.subrange(a as int, n as int).drop_first() =~= text@.subrange(
            a as int + 1,
            n as int,
        ));
        a = a + 1;
    }
    let mut b: usize = n;
    while b > a && char_is_whitespace(text[b - 1])
        invariant
            a <= b <= n == text@.len(),
            trimmed(text@) == trim_end(text@.subrange(a as int, b as int)),
            a == n || !is_whitespace(text@[a as int]),
            forall|i: int| b <= i < n ==> is_whitespace(#[trigger] text@[i]),
        decreases b - a,
    {
        assert(text@.subrange(a as int, b as int).drop_last() =~= text@.subrange(
            a as int,
            b as int - 1,
        ));
        b = b - 1;
    }
    (a, b)
}

/// Decides whether two strings hold the same characters.
pub fn same_text(a: &str, b: &str) -> (r: bool)
    ensures
        r == (a@ == b@),
{
    let x = chars_of(a);
    let y = chars_of(b);
    if x.len() != y.len() {
        return false;
    }
    let mut i: usize = 0;
    while i < x.len()
        invariant
            i <= x.len() == y.len(),
            x@ == a@,
            y@ == b@,
            forall|j: int| 0 <= j < i ==> x@[j] == y@[j],
        decreases x.len() - i,
    {
        if x[i] != y[i] {
            return false;
        }
        i = i + 1;
    }
    assert(x@ =~= y@);
    true
}

} // verus!
