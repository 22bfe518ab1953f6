//! Decoding of unsigned integers and decimal numbers written in ASCII digits.
use vstd::prelude::*;

use crate::text::slice_of;

verus! {

/// Whether `c` is an ASCII decimal digit.
pub open spec fn is_digit(c: char) -> bool {
    '0' <= c && c <= '9'
}

/// Whether `s` is a non-empty run of decimal digits.
pub open spec fn is_digits(s: Seq<char>) -> bool {
    s.len() > 0 && forall|i: int| 0 <= i < s.len() ==> is_digit(#[trigger] s[i])
}

/// The value of the decimal digits `s`.
pub open spec fn digits_value(s: Seq<char>) -> nat
    decreases s.len(),
{
    if s.len() == 0 {
        0
    } else {
        digits_value(s.drop_last()) * 10 + ((s.last() as u32) - ('0' as u32)) as nat
    }
}

/// `s` without the optional leading `+` that an unsigned number may carry.
pub open spec fn unsigned_part(s: Seq<char>) -> Seq<char> {
    if s.len() > 0 && s[0] == '+' {
        s.skip(1)
    } else {
        s
    }
}

/// The number written in `s` (an optional `+`, then digits), where it is at most `max`.
pub open spec fn number_of(s: Seq<char>, max: nat) -> Option<nat> {
    let d = unsigned_part(s);
    if is_digits(d) && digits_value(d) <= max {
        Some(digits_value(d))
    } else {
        None
    }
}

/// The value of a prefix of digits never exceeds the value of the whole.
proof fn lemma_prefix_value(s: Seq<char>, k: int)
    requires
        0 <= k <= s.len(),
    ensures
        digits_value(s.take(k)) <= digits_value(s),
    decreases s.len(),
{
    if k < s.len() {
        assert(s.drop_last().take(k) =~= s.take(k));
        lemma_prefix_value(s.drop_last(), k);
    } else {
        assert(s.take(k) =~= s);
    }
}

/// Decodes the number written in `v`, where it is at most `max`.
pub fn parse_number(v: &Vec<char>, max: u32) -> (r: Option<u32>)
    ensures
        match number_of(v@, max as nat) {
            Some(n) => r == Some(n as u32),
            None => r is None,
        },
{
    let start: usize = if v.len() > 0 && v[0] == '+' {
        1
    } else {
        0
    };
    let ghost d = unsigned_part(v@);
    assert(d =~= v@.skip(start as int));
    if start >= v.len() {
        return None;
    }
    let mut acc: u32 = 0;
    let mut i: usize = start;
    while i < v.len()
        invariant
            start <= i <= v@.len(),
            d == v@.skip(start as int),
            d == unsigned_part(v@),
            acc as nat == digits_value(d.take(i - start)),
            acc <= max,
            forall|j: int| 0 <= j < i - start ==> is_digit(#[trigger] d[j]),
        decreases v@.len() - i,
    {
        let c = v[i];
        assert(d.take(i - start + 1).drop_last() =~= d.take(i - start));
        if !('0' <= c && c <= '9') {
            assert(d[i - start] == c);
            assert(!is_digit(d[i - start]));
            assert(!is_digits(d));
            return None;
        }
        let next: u64 = (acc as u64) * 10 + ((c as u32) - ('0' as u32)) as u64;
        assert(d.take(i - start + 1).last() == c);
        assert(next == digits_value(d.take(i - start + 1)));
        if next > max as u64 {
            proof {
                lemma_prefix_value(d, i - start + 1);
            }
            return None;
        }
        acc = next as u32;
        i = i + 1;
    }
    assert(d.take(i - start) =~= d);
    Some(acc)
}

/// Whether every character of `s` is a decimal digit (`s` may be empty).
pub open spec fn all_digits(s: Seq<char>) -> bool {
    forall|i: int| 0 <= i < s.len() ==> is_digit(#[trigger] s[i])
}

/// `s` without one leading sign, `+` or `-`.
pub open spec fn signless(s: Seq<char>) -> Seq<char> {
    if s.len() > 0 && (s[0] == '+' || s[0] == '-') {
        s.skip(1)
    } else {
        s
    }
}

/// Whether `m` is the digits of a floating-point number: digits with at
/// most one point, and at least one digit.
pub open spec fn is_mantissa(m: Seq<char>) -> bool {
    is_digits(m) || (m.len() >= 2 && exists|q: int|
        0 <= q < m.len() && m[q] == '.' && all_digits(#[trigger] m.take(q)) && all_digits(m.skip(q + 1)))
}

/// Whether `c` marks an exponent.
pub open spec fn is_exp_mark(c: char) -> bool {
    c == 'e' || c == 'E'
}

/// Whether `u` is an unsigned floating-point number: a mantissa, then
/// optionally `e` or `E` and a signed exponent.
pub open spec fn is_number_text(u: Seq<char>) -> bool {
    is_mantissa(u) || exists|p: int|
        0 <= p < u.len() && is_exp_mark(u[p]) && is_mantissa(#[trigger] u.take(p)) && is_digits(
            signless(u.skip(p + 1)),
        )
}

/// `c` in lower case, for ASCII letters.
pub open spec fn ascii_lower(c: char) -> char {
    if 'A' <= c && c <= 'Z' {
        ((c as u32) + 32) as char
    } else {
        c
    }
}

/// Whether `s` is the lower-case word `w`, ignoring ASCII case.
pub open spec fn is_word(s: Seq<char>, w: Seq<char>) -> bool {
    s.len() == w.len() && forall|i: int| 0 <= i < s.len() ==> ascii_lower(#[trigger] s[i]) == w[i]
}

/// Whether `s` is written as a floating-point number: an optional sign, then
/// `inf`, `infinity` or `nan` in any case, or a number with an optional
/// exponent.
pub open spec fn is_float_text(s: Seq<char>) -> bool {
    let u = signless(s);
    is_word(u, seq!['i', 'n', 'f']) || is_word(u, seq!['i', 'n', 'f', 'i', 'n', 'i', 't', 'y'])
        || is_word(u, seq!['n', 'a', 'n']) || is_number_text(u)
}

/// A mantissa holds only digits and points.
proof fn lemma_mantissa_chars(m: Seq<char>, i: int)
    requires
        is_mantissa(m),
        0 <= i < m.len(),
    ensures
        is_digit(m[i]) || m[i] == '.',
{
    if !is_digits(m) {
        let q = choose|q: int|
            0 <= q < m.len() && m[q] == '.' && all_digits(#[trigger] m.take(q)) && all_digits(
                m.skip(q + 1),
            );
        if i < q {
            assert(m.take(q)[i] == m[i]);
        } else if i > q {
            assert(m.skip(q + 1)[i - q - 1] == m[i]);
        }
    }
}

/// Lower-cases an ASCII letter.
fn lower_char(c: char) -> (r: char)
    ensures
        r == ascii_lower(c),
{
    if 'A' <= c && c <= 'Z' {
        ((c as u32 + 32) as u8) as char
    } else {
        c
    }
}

/// Whether `v` is the lower-case word `w`, ignoring ASCII case.
fn word_matches(v: &Vec<char>, w: &Vec<char>) -> (r: bool)
    ensures
        r == is_word(v@, w@),
{
    if v.len() != w.len() {
        return false;
    }
    let mut i: usize = 0;
    while i < v.len()
        invariant
            v@.len() == w@.len(),
            i <= v@.len(),
            forall|j: int| 0 <= j < i ==> ascii_lower(#[trigger] v@[j]) == w@[j],
        decreases v@.len() - i,
    {
        if lower_char(v[i]) != w[i] {
            return false;
        }
        i = i + 1;
    }
    true
}

/// Whether `m` is a mantissa.
fn check_mantissa(m: &Vec<char>) -> (r: bool)
    ensures
        r == is_mantissa(m@),
{
    let mut i: usize = 0;
    while i < m.len() && '0' <= m[i] && m[i] <= '9'
        invariant
            i <= m@.len(),
            forall|j: int| 0 <= j < i ==> is_digit(#[trigger] m@[j]),
        decreases m@.len() - i,
    {
        i = i + 1;
    }
    if i == m.len() {
        if i == 0 {
            assert(!is_digits(m@));
            return false;
        }
        return true;
    }
    assert(!is_digits(m@));
    if m[i] != '.' {
        assert forall|q: int| 0 <= q < m@.len() && m@[q] == '.' implies !all_digits(#[trigger] m@.take(q)) by {
            if q > i {
                assert(m@.take(q)[i as int] == m@[i as int]);
            } else if q < i {
                assert(is_digit(m@[q]));
            }
        }
        return false;
    }
    let mut k: usize = i + 1;
    while k < m.len() && '0' <= m[k] && m[k] <= '9'
        invariant
            i < k <= m@.len(),
            forall|j: int| i < j < k ==> is_digit(#[trigger] m@[j]),
        decreases m@.len() - k,
    {
        k = k + 1;
    }
    let ok = k == m.len() && m.len() >= 2;
    if ok {
        assert(all_digits(m@.take(i as int)));
        assert(all_digits(m@.skip(i + 1))) by {
            assert forall|j: int| 0 <= j < m@.skip(i + 1).len() implies is_digit(#[trigger] m@.skip(i + 1)[j]) by {
                assert(m@.skip(i + 1)[j] == m@[i + 1 + j]);
            }
        }
    } else {
        assert forall|q: int|
            0 <= q < m@.len() && m@[q] == '.' && all_digits(#[trigger] m@.take(q)) implies !(m@.len() >= 2
                && all_digits(m@.skip(q + 1))) by {
            if q > i {
                assert(m@.take(q)[i as int] == m@[i as int]);
            } else if q < i {
                assert(is_digit(m@[q]));
            } else if k < m@.len() {
                assert(m@.skip(q + 1)[k - i - 1] == m@[k as int]);
            }
        }
    }
    ok
}

/// Whether `v` is written as a floating-point number.
pub fn check_float(v: &Vec<char>) -> (r: bool)
    ensures
        r == is_float_text(v@),
{
    let n = v.len();
    let start: usize = if n > 0 && (v[0] == '+' || v[0] == '-') {
        1
    } else {
        0
    };
    let u = slice_of(v, start, n);
    assert(u@ =~= signless(v@));
    let inf: Vec<char> = vec!['i', 'n', 'f'];
    let infinity: Vec<char> = vec!['i', 'n', 'f', 'i', 'n', 'i', 't', 'y'];
    let nan: Vec<char> = vec!['n', 'a', 'n'];
    assert(inf@ =~= seq!['i', 'n', 'f']);
    assert(infinity@ =~= seq!['i', 'n', 'f', 'i', 'n', 'i', 't', 'y']);
    assert(nan@ =~= seq!['n', 'a', 'n']);
    if word_matches(&u, &inf) || word_matches(&u, &infinity) || word_matches(&u, &nan) {
        return true;
    }
    // the first exponent mark, if any
    let m = u.len();
    let mut p: usize = 0;
    while p < m && u[p] != 'e' && u[p] != 'E'
        invariant
            p <= m == u@.len(),
            forall|j: int| 0 <= j < p ==> !is_exp_mark(#[trigger] u@[j]),
        decreases m - p,
    {
        p = p + 1;
    }
    if p == m {
        assert(u@.take(p as int) =~= u@);
        let r = check_mantissa(&u);
        return r;
    }
    let mant = slice_of(&u, 0, p);
    let exp = slice_of(&u, p + 1, m);
    assert(mant@ =~= u@.take(p as int));
    assert(exp@ =~= u@.skip(p + 1));
    assert(!is_mantissa(u@)) by {
        if is_mantissa(u@) {
            lemma_mantissa_chars(u@, p as int);
        }
    }
    let es: usize = if exp.len() > 0 && (exp[0] == '+' || exp[0] == '-') {
        1
    } else {
        0
    };
    let digits = slice_of(&exp, es, exp.len());
    assert(digits@ =~= signless(exp@));
    let ok_exp = digits.len() > 0 && all_digit_chars(&digits);
    let r = check_mantissa(&mant) && ok_exp;
    assert forall|q: int|
        0 <= q < u@.len() && is_exp_mark(u@[q]) && #[trigger] is_mantissa(u@.take(q)) implies q == p by {
        if q > p {
            lemma_mantissa_chars(u@.take(q), p as int);
            assert(u@.take(q)[p as int] == u@[p as int]);
        }
    }
    r
}

/// Whether every character of `v` is a decimal digit.
fn all_digit_chars(v: &Vec<char>) -> (r: bool)
    ensures
        r == all_digits(v@),
{
    let mut i: usize = 0;
    while i < v.len()
        invariant
            i <= v@.len(),
            forall|j: int| 0 <= j < i ==> is_digit(#[trigger] v@[j]),
        decreases v@.len() - i,
    {
        if !('0' <= v[i] && v[i] <= '9') {
            return false;
        }
        i = i + 1;
    }
    true
}

} // verus!
