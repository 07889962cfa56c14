//! Character-level scanning over the text, each step stated as a spec function.
use vstd::prelude::*;
use vstd::string::*;

verus! {

/// Blanks that separate tokens within a line.
pub open spec fn is_blank(c: char) -> bool {
    c == ' ' || c == '\t'
}

pub open spec fn is_digit(c: char) -> bool {
    48 <= (c as u32) && (c as u32) <= 57
}

/// First position at or after `i` that is not a blank.
pub open spec fn skip_ws(s: Seq<char>, i: int) -> int
    decreases s.len() - i,
{
    if 0 <= i < s.len() && is_blank(s[i]) {
        skip_ws(s, i + 1)
    } else {
        i
    }
}

/// End of the token that starts at `i`: the first blank, newline or end of text.
pub open spec fn word_end(s: Seq<char>, i: int) -> int
    decreases s.len() - i,
{
    if 0 <= i < s.len() && !is_blank(s[i]) && s[i] != '\n' {
        word_end(s, i + 1)
    } else {
        i
    }
}

/// Position of the newline that ends the line holding `i`, or the length of the text.
pub open spec fn line_end(s: Seq<char>, i: int) -> int
    decreases s.len() - i,
{
    if 0 <= i < s.len() && s[i] != '\n' {
        line_end(s, i + 1)
    } else {
        i
    }
}

/// End of the run of decimal digits that starts at `i`.
pub open spec fn digits_end(s: Seq<char>, i: int) -> int
    decreases s.len() - i,
{
    if 0 <= i < s.len() && is_digit(s[i]) {
        digits_end(s, i + 1)
    } else {
        i
    }
}

/// The number written in decimal by the characters `s[a..b]`.
pub open spec fn digits_value(s: Seq<char>, a: int, b: int) -> nat
    decreases b - a,
{
    if a < b {
        digits_value(s, a, b - 1) * 10 + ((s[b - 1] as u32) - 48) as nat
    } else {
        0
    }
}

/// The literal `lit` stands in `s` at position `i`.
pub open spec fn matches_lit(s: Seq<char>, i: int, lit: Seq<char>) -> bool {
    0 <= i && i + lit.len() <= s.len() && s.subrange(i, i + lit.len()) == lit
}

/// The literal `lit` stands somewhere inside `s[a..b]`.
pub open spec fn contains_lit(s: Seq<char>, a: int, b: int, lit: Seq<char>) -> bool {
    exists|k: int| a <= k && k + lit.len() <= b && #[trigger] matches_lit(s, k, lit)
}

pub fn skip_blanks(s: &str, i: usize) -> (r: usize)
    requires
        i <= s@.len(),
    ensures
        r == skip_ws(s@, i as int),
        i <= r <= s@.len(),
{
    let n = s.unicode_len();
    let mut j: usize = i;
    while j < n && (s.get_char(j) == ' ' || s.get_char(j) == '\t')
        invariant
            n == s@.len(),
            i <= j <= n,
            skip_ws(s@, j as int) == skip_ws(s@, i as int),
        decreases n - j,
    {
        j = j + 1;
    }
    j
}

pub fn token_end(s: &str, i: usize) -> (r: usize)
    requires
        i <= s@.len(),
    ensures
        r == word_end(s@, i as int),
        i <= r <= s@.len(),
{
    let n = s.unicode_len();
    let mut j: usize = i;
    while j < n && s.get_char(j) != ' ' && s.get_char(j) != '\t' && s.get_char(j) != '\n'
        invariant
            n == s@.len(),
            i <= j <= n,
            word_end(s@, j as int) == word_end(s@, i as int),
        decreases n - j,
    {
        j = j + 1;
    }
    j
}

pub fn end_of_line(s: &str, i: usize) -> (r: usize)
    requires
        i <= s@.len(),
    ensures
        r == line_end(s@, i as int),
        i <= r <= s@.len(),
{
    let n = s.unicode_len();
    let mut j: usize = i;
    while j < n && s.get_char(j) != '\n'
        invariant
            n == s@.len(),
            i <= j <= n,
            line_end(s@, j as int) == line_end(s@, i as int),
        decreases n - j,
    {
        j = j + 1;
    }
    j
}

pub fn end_of_digits(s: &str, i: usize) -> (r: usize)
    requires
        i <= s@.len(),
    ensures
        r == digits_end(s@, i as int),
        i <= r <= s@.len(),
{
    let n = s.unicode_len();
    let mut j: usize = i;
    while j < n && 48 <= (s.get_char(j) as u32) && (s.get_char(j) as u32) <= 57
        invariant
            n == s@.len(),
            i <= j <= n,
            digits_end(s@, j as int) == digits_end(s@, i as int),
        decreases n - j,
    {
        j = j + 1;
    }
    j
}

/// Whether `lit` stands in `s` at position `i`.
pub fn lit_at(s: &str, i: usize, lit: &str) -> (r: bool)
    ensures
        r == matches_lit(s@, i as int, lit@),
{
    let n = s.unicode_len();
    let m = lit.unicode_len();
    if i > n || m > n - i {
        return false;
    }
    let mut k: usize = 0;
    while k < m
        invariant
            n == s@.len(),
            m == lit@.len(),
            i + m <= n,
            k <= m,
            forall|t: int| 0 <= t < k ==> s@[i + t] == lit@[t],
        decreases m - k,
    {
        if s.get_char(i + k) != lit.get_char(k) {
            assert(s@.subrange(i as int, i + m)[k as int] != lit@[k as int]);
            return false;
        }
        k = k + 1;
    }
    assert(s@.subrange(i as int, i + m) =~= lit@);
    true
}

/// Whether the characters `s[a..b]` are exactly `lit`.
pub fn span_is(s: &str, a: usize, b: usize, lit: &str) -> (r: bool)
    requires
        a <= b <= s@.len(),
    ensures
        r == (s@.subrange(a as int, b as int) == lit@),
{
    let m = lit.unicode_len();
    if b - a != m {
        assert(s@.subrange(a as int, b as int).len() != lit@.len());
        return false;
    }
    lit_at(s, a, lit)
}

/// Whether `lit` stands somewhere inside `s[a..b]`.
pub fn contains_at(s: &str, a: usize, b: usize, lit: &str) -> (r: bool)
    requires
        a <= b <= s@.len(),
    ensures
        r == contains_lit(s@, a as int, b as int, lit@),
{
    let m = lit.unicode_len();
    if m > b - a {
        return false;
    }
    if m == 0 {
        assert(s@.subrange(a as int, a as int) =~= lit@);
        assert(matches_lit(s@, a as int, lit@));
        return true;
    }
    let mut k: usize = a;
    while k <= b - m
        invariant
            m == lit@.len(),
            0 < m,
            a <= k <= b - m + 1,
            a + m <= b <= s@.len(),
            forall|t: int| a <= t < k ==> !#[trigger] matches_lit(s@, t, lit@),
        decreases b - m + 1 - k,
    {
        if lit_at(s, k, lit) {
            return true;
        }
        k = k + 1;
    }
    false
}

/// No colon stands in `s[a..b]`.
pub open spec fn colon_free(s: Seq<char>, a: int, b: int) -> bool {
    forall|k: int| a <= k < b ==> #[trigger] s[k] != ':'
}

pub fn no_colon(s: &str, a: usize, b: usize) -> (r: bool)
    requires
        a <= b <= s@.len(),
    ensures
        r == colon_free(s@, a as int, b as int),
{
    let mut k: usize = a;
    while k < b
        invariant
            a <= k <= b <= s@.len(),
            colon_free(s@, a as int, k as int),
        decreases b - k,
    {
        if s.get_char(k) == ':' {
            return false;
        }
        k = k + 1;
    }
    true
}

} // verus!
