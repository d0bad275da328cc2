//! Character-level helpers shared by the lexer, the runtime and the compiler.
use vstd::prelude::*;

verus! {

/// The character of a decimal digit.
pub open spec fn digit_char(d: nat) -> char {
    if d == 0 { '0' }
    else if d == 1 { '1' }
    else if d == 2 { '2' }
    else if d == 3 { '3' }
    else if d == 4 { '4' }
    else if d == 5 { '5' }
    else if d == 6 { '6' }
    else if d == 7 { '7' }
    else if d == 8 { '8' }
    else { '9' }
}

/// Decimal notation of a natural number, most significant digit first.
pub open spec fn nat_decimal(n: nat) -> Seq<char>
    decreases n,
{
    if n < 10 {
        seq![digit_char(n)]
    } else {
        nat_decimal(n / 10).push(digit_char(n % 10))
    }
}

/// Decimal notation of an integer: a minus sign before negative numbers.
pub open spec fn int_decimal(i: int) -> Seq<char> {
    if i < 0 {
        seq!['-'] + nat_decimal((-i) as nat)
    } else {
        nat_decimal(i as nat)
    }
}

/// Whether `c` is an ASCII decimal digit.
pub open spec fn is_ascii_digit(c: char) -> bool {
    '0' <= c <= '9'
}

/// The Unicode `White_Space` property.
pub open spec fn is_unicode_whitespace(c: char) -> bool {
    ||| ('\u{9}' <= c <= '\u{d}')
    ||| c == ' '
    ||| c == '\u{85}'
    ||| c == '\u{a0}'
    ||| c == '\u{1680}'
    ||| ('\u{2000}' <= c <= '\u{200a}')
    ||| c == '\u{2028}'
    ||| c == '\u{2029}'
    ||| c == '\u{202f}'
    ||| c == '\u{205f}'
    ||| c == '\u{3000}'
}

/// Executable form of [`is_unicode_whitespace`].
pub fn char_is_whitespace(c: char) -> (b: bool)
    ensures
        b == is_unicode_whitespace(c),
{
    ('\u{9}' <= c && c <= '\u{d}') || c == ' ' || c == '\u{85}' || c == '\u{a0}' || c == '\u{1680}'
        || ('\u{2000}' <= c && c <= '\u{200a}') || c == '\u{2028}' || c == '\u{2029}' || c
        == '\u{202f}' || c == '\u{205f}' || c == '\u{3000}'
}

/// Executable form of [`is_ascii_digit`].
pub fn char_is_ascii_digit(c: char) -> (b: bool)
    ensures
        b == is_ascii_digit(c),
{
    '0' <= c && c <= '9'
}

/// Whether `c` has one of Unicode's general categories for numbers (`Nd`, `Nl`, `No`).
pub uninterp spec fn is_numeric_char(c: char) -> bool;

/// Calls `char::is_numeric`. Its documentation defines the result by the Unicode
/// general categories for numbers, which are named here, not written out; of them,
/// only the decimal digits are ASCII.
#[verifier::external_body]
pub(crate) fn char_is_numeric(c: char) -> (b: bool)
    ensures
        b == is_numeric_char(c),
        c <= '\u{7f}' ==> (b <==> is_ascii_digit(c)),
{
    c.is_numeric()
}

fn digit(d: u64) -> (c: char)
    requires
        d < 10,
    ensures
        c == digit_char(d as nat),
{
    match d {
        0 => '0',
        1 => '1',
        2 => '2',
        3 => '3',
        4 => '4',
        5 => '5',
        6 => '6',
        7 => '7',
        8 => '8',
        _ => '9',
    }
}

/// Appends the decimal notation of `n` to `out`.
pub fn push_u64_decimal(out: &mut Vec<char>, n: u64)
    ensures
        final(out)@ == old(out)@ + nat_decimal(n as nat),
    decreases n,
{
    if n < 10 {
        out.push(digit(n));
    } else {
        push_u64_decimal(out, n / 10);
        out.push(digit(n % 10));
        proof {
            assert(nat_decimal(n as nat) == nat_decimal((n / 10) as nat).push(digit_char((n % 10) as nat)));
        }
    }
}

/// Appends the decimal notation of `i` to `out`.
pub fn push_i64_decimal(out: &mut Vec<char>, i: i64)
    ensures
        final(out)@ == old(out)@ + int_decimal(i as int),
{
    if i < 0 {
        out.push('-');
        let m: u64 = ((-(i + 1)) as u64) + 1;
        push_u64_decimal(out, m);
    } else {
        push_u64_decimal(out, i as u64);
    }
}

/// Appends every character of `s` to `out`.
pub fn push_chars(out: &mut Vec<char>, s: &[char])
    ensures
        final(out)@ == old(out)@ + s@,
{
    let mut i: usize = 0;
    while i < s.len()
        invariant
            i <= s.len(),
            out@ == old(out)@ + s@.take(i as int),
        decreases s.len() - i,
    {
        out.push(s[i]);
        i = i + 1;
        assert(s@.take(i as int) == s@.take(i - 1).push(s@[i - 1]));
    }
    assert(s@.take(s.len() as int) == s@);
}

/// Collects the characters of a string slice, in order. A vector never holds more than
/// `isize::MAX` bytes, so it never holds more characters than that either.
#[verifier::external_body]
pub(crate) fn str_chars(s: &str) -> (v: Vec<char>)
    ensures
        v@ == s@,
        v@.len() <= isize::MAX,
{
    s.chars().collect()
}

/// Builds a `String` holding exactly the given characters.
#[verifier::external_body]
pub(crate) fn string_from_chars(v: &[char]) -> (s: String)
    ensures
        s@ == v@,
{
    String::from_iter(v)
}

/// Whether two character sequences are equal.
pub fn chars_eq(a: &[char], b: &[char]) -> (r: bool)
    ensures
        r == (a@ == b@),
{
    if a.len() != b.len() {
        return false;
    }
    let mut i: usize = 0;
    while i < a.len()
        invariant
            a.len() == b.len(),
            i <= a.len(),
            forall|j: int| 0 <= j < i ==> a@[j] == b@[j],
        decreases a.len() - i,
    {
        if a[i] != b[i] {
            return false;
        }
        i = i + 1;
    }
    assert(a@ =~= b@);
    true
}

/// Whether two string slices hold the same characters.
pub fn str_eq(a: &str, b: &str) -> (r: bool)
    ensures
        r == (a@ == b@),
{
    let va = str_chars(a);
    let vb = str_chars(b);
    chars_eq(va.as_slice(), vb.as_slice())
}


/// Whether `t` begins with `p`.
pub open spec fn starts_with(t: Seq<char>, p: Seq<char>) -> bool {
    p.len() <= t.len() && t.take(p.len() as int) == p
}

/// Whether `p` occurs somewhere in `t`.
pub open spec fn contains_seq(t: Seq<char>, p: Seq<char>) -> bool {
    exists|i: int| 0 <= i && i + p.len() <= t.len() && #[trigger] t.subrange(i, i + p.len()) == p
}

/// Whether `p` occurs in `s` starting at `start`, ending no later than `end`.
pub fn has_prefix_at(s: &[char], start: usize, end: usize, p: &[char]) -> (r: bool)
    requires
        start <= end <= s.len(),
    ensures
        r == starts_with(s@.subrange(start as int, end as int), p@),
{
    let ghost t = s@.subrange(start as int, end as int);
    if p.len() > end - start {
        return false;
    }
    let mut i: usize = 0;
    while i < p.len()
        invariant
            start <= end <= s.len(),
            p.len() <= end - start,
            t == s@.subrange(start as int, end as int),
            i <= p.len(),
            forall|j: int| 0 <= j < i ==> t[j] == p@[j],
        decreases p.len() - i,
    {
        if s[start + i] != p[i] {
            assert(t.take(p.len() as int)[i as int] != p@[i as int]);
            return false;
        }
        i = i + 1;
    }
    assert(t.take(p.len() as int) =~= p@);
    true
}

/// Whether `p` occurs somewhere in `s`.
pub fn contains_chars(s: &[char], p: &[char]) -> (r: bool)
    ensures
        r == contains_seq(s@, p@),
{
    if p.len() > s.len() {
        return false;
    }
    let last = s.len() - p.len();
    let mut i: usize = 0;
    loop
        invariant
            p.len() <= s.len(),
            last == s.len() - p.len(),
            i <= last,
            forall|k: int| 0 <= k < i ==> #[trigger] s@.subrange(k, k + p.len()) != p@,
        decreases last - i,
    {
        assert(s@.subrange(i as int, i + p.len()) =~= s@.subrange(i as int, s.len() as int).take(
            p.len() as int,
        ));
        if has_prefix_at(s, i, s.len(), p) {
            return true;
        }
        if i == last {
            return false;
        }
        i = i + 1;
    }
}


/// Whether `t` ends with `p`.
pub open spec fn ends_with(t: Seq<char>, p: Seq<char>) -> bool {
    p.len() <= t.len() && t.skip(t.len() - p.len()) == p
}

/// Whether `s` ends with `p`.
pub fn ends_with_chars(s: &[char], p: &[char]) -> (r: bool)
    ensures
        r == ends_with(s@, p@),
{
    if p.len() > s.len() {
        return false;
    }
    let start = s.len() - p.len();
    let r = has_prefix_at(s, start, s.len(), p);
    assert(s@.subrange(start as int, s.len() as int) =~= s@.skip(start as int));
    assert(s@.skip(start as int).take(p.len() as int) =~= s@.skip(start as int));
    r
}

/// Whether `p` occurs in `s` at position `i`.
pub open spec fn starts_at(s: Seq<char>, i: int, p: Seq<char>) -> bool {
    0 <= i && i + p.len() <= s.len() && s.subrange(i, i + p.len()) == p
}

/// Executable form of [`starts_at`].
pub fn starts_at_exec(s: &[char], i: usize, p: &[char]) -> (r: bool)
    ensures
        r == starts_at(s@, i as int, p@),
{
    if i > s.len() {
        return false;
    }
    let r = has_prefix_at(s, i, s.len(), p);
    proof {
        if p@.len() <= s@.len() - i {
            assert(s@.subrange(i as int, s@.len() as int).take(p@.len() as int) =~= s@.subrange(
                i as int,
                i + p@.len(),
            ));
        }
    }
    r
}


/// `s` with every occurrence of the non-empty pattern `p` replaced by `r`, scanning from
/// the left and not letting occurrences overlap.
pub open spec fn replaced(s: Seq<char>, p: Seq<char>, r: Seq<char>) -> Seq<char>
    decreases s.len(),
{
    if s.len() == 0 {
        seq![]
    } else if p.len() > 0 && starts_with(s, p) {
        r + replaced(s.skip(p.len() as int), p, r)
    } else {
        seq![s[0]] + replaced(s.skip(1), p, r)
    }
}

/// Replaces every occurrence of `p` in `s` by `r`.
pub fn replace_all(s: &[char], p: &[char], r: &[char]) -> (out: Vec<char>)
    requires
        p@.len() > 0,
    ensures
        out@ == replaced(s@, p@, r@),
{
    let ghost t = s@;
    let mut out: Vec<char> = Vec::new();
    let mut i: usize = 0;
    assert(t.skip(0) =~= t);
    while i < s.len()
        invariant
            t == s@,
            p@.len() > 0,
            i <= t.len(),
            out@ + replaced(t.skip(i as int), p@, r@) == replaced(t, p@, r@),
        decreases t.len() - i,
    {
        let ghost rest = t.skip(i as int);
        if has_prefix_at(s, i, s.len(), p) {
            assert(t.subrange(i as int, t.len() as int) =~= rest);
            push_chars(&mut out, r);
            assert(rest.skip(p@.len() as int) =~= t.skip(i + p@.len()));
            assert(out@ + replaced(t.skip(i + p@.len()), p@, r@) =~= replaced(t, p@, r@));
            i = i + p.len();
        } else {
            assert(t.subrange(i as int, t.len() as int) =~= rest);
            out.push(s[i]);
            assert(rest.skip(1) =~= t.skip(i + 1));
            assert(out@ + replaced(t.skip(i + 1), p@, r@) =~= replaced(t, p@, r@));
            i = i + 1;
        }
    }
    assert(t.skip(i as int) =~= Seq::<char>::empty());
    assert(out@ =~= replaced(t, p@, r@));
    out
}

} // verus!
