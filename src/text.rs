//! Character-level helpers: conversion between strings and characters,
//! line splitting and the `key: value` separator.
use vstd::prelude::*;

verus! {

/// Relies on `str::chars` (collected into a `Vec`): the characters of `s`, in order.
#[verifier::external_body]
pub(crate) fn chars_of(s: &str) -> (r: Vec<char>)
    ensures
        r@ == s@,
{
    s.chars().collect()
}

/// Relies on `String`'s `FromIterator<char>`: the string made of the characters of `c`.
#[verifier::external_body]
pub(crate) fn string_of(c: &[char]) -> (r: String)
    ensures
        r@ == c@,
{
    c.iter().collect()
}

/// Appends the characters of `s` to `v`.
pub(crate) fn push_str(v: &mut Vec<char>, s: &str)
    ensures
        final(v)@ == old(v)@ + s@,
{
    let c = chars_of(s);
    let ghost start = v@;
    let mut i: usize = 0;
    while i < c.len()
        invariant
            i <= c@.len(),
            v@ == start + c@.take(i as int),
        decreases c@.len() - i,
    {
        v.push(c[i]);
        i = i + 1;
        assert(v@ =~= start + c@.take(i as int));
    }
    assert(c@.take(i as int) =~= c@);
}

/// The characters of `v` from `start` (included) to `end` (excluded).
pub(crate) fn slice_of(v: &Vec<char>, start: usize, end: usize) -> (r: Vec<char>)
    requires
        start <= end <= v@.len(),
    ensures
        r@ == v@.subrange(start as int, end as int),
{
    let mut r: Vec<char> = Vec::new();
    let mut i: usize = start;
    while i < end
        invariant
            start <= i <= end <= v@.len(),
            r@ == v@.subrange(start as int, i as int),
        decreases end - i,
    {
        r.push(v[i]);
        i = i + 1;
    }
    r
}

/// The string made of the characters of `v` from `start` to `end`.
pub(crate) fn substring(v: &Vec<char>, start: usize, end: usize) -> (r: String)
    requires
        start <= end <= v@.len(),
    ensures
        r@ == v@.subrange(start as int, end as int),
{
    let s = slice_of(v, start, end);
    string_of(s.as_slice())
}

/// Whether `a` and `b` hold the same characters.
pub(crate) fn chars_eq(a: &[char], b: &[char]) -> (r: bool)
    ensures
        r == (a@ == b@),
{
    if a.len() != b.len() {
        return false;
    }
    let mut i: usize = 0;
    while i < a.len()
        invariant
            a@.len() == b@.len(),
            i <= a@.len(),
            forall|j: int| 0 <= j < i ==> a@[j] == b@[j],
        decreases a@.len() - i,
    {
        if a[i] != b[i] {
            return false;
        }
        i = i + 1;
    }
    assert(a@ =~= b@);
    true
}

/// Whether the characters of `v` are those of the literal `lit`.
pub(crate) fn is_lit(v: &Vec<char>, lit: &str) -> (r: bool)
    ensures
        r == (v@ == lit@),
{
    let l = chars_of(lit);
    chars_eq(v.as_slice(), l.as_slice())
}

/// Whether `s` begins with `p`.
pub open spec fn starts_with(s: Seq<char>, p: Seq<char>) -> bool {
    p.len() <= s.len() && s.take(p.len() as int) == p
}

/// Whether `s` ends with `p`.
pub open spec fn ends_with(s: Seq<char>, p: Seq<char>) -> bool {
    p.len() <= s.len() && s.skip(s.len() - p.len()) == p
}

/// Whether `v` begins with the characters of `p` at position `at`.
pub(crate) fn occurs_at(v: &Vec<char>, p: &Vec<char>, at: usize) -> (r: bool)
    requires
        at <= v@.len(),
    ensures
        r == starts_with(v@.skip(at as int), p@),
{
    if p.len() > v.len() - at {
        return false;
    }
    let mut i: usize = 0;
    while i < p.len()
        invariant
            at + p@.len() <= v@.len(),
            v@.len() <= usize::MAX,
            i <= p@.len(),
            forall|j: int| 0 <= j < i ==> v@[at + j] == p@[j],
        decreases p@.len() - i,
    {
        let k: usize = at + i;
        if v[k] != p[i] {
            assert(v@.skip(at as int).take(p@.len() as int)[i as int] != p@[i as int]);
            return false;
        }
        i = i + 1;
    }
    assert(v@.skip(at as int).take(p@.len() as int) =~= p@);
    true
}

/// Whether `c` is white space in Unicode's sense (the property `White_Space`).
pub open spec fn is_space(c: char) -> bool {
    let u = c as u32;
    (0x9 <= u && u <= 0xd) || u == 0x20 || u == 0x85 || u == 0xa0 || u == 0x1680 || (0x2000 <= u
        && u <= 0x200a) || u == 0x2028 || u == 0x2029 || u == 0x202f || u == 0x205f || u == 0x3000
}

/// Whether `c` is white space.
pub(crate) fn is_space_char(c: char) -> (r: bool)
    ensures
        r == is_space(c),
{
    let u = c as u32;
    (0x9 <= u && u <= 0xd) || u == 0x20 || u == 0x85 || u == 0xa0 || u == 0x1680 || (0x2000 <= u
        && u <= 0x200a) || u == 0x2028 || u == 0x2029 || u == 0x202f || u == 0x205f || u == 0x3000
}

/// `s` without its trailing whitespace.
pub open spec fn trim_end(s: Seq<char>) -> Seq<char>
    decreases s.len(),
{
    if s.len() > 0 && is_space(s.last()) {
        trim_end(s.drop_last())
    } else {
        s
    }
}

/// The length of `v@.take(end)` once trailing whitespace is removed.
pub(crate) fn trim_end_len(v: &Vec<char>, end: usize) -> (r: usize)
    requires
        end <= v@.len(),
    ensures
        r <= end,
        v@.take(r as int) == trim_end(v@.take(end as int)),
{
    let mut k: usize = end;
    while k > 0 && is_space_char(v[k - 1])
        invariant
            k <= end <= v@.len(),
            trim_end(v@.take(k as int)) == trim_end(v@.take(end as int)),
        decreases k,
    {
        assert(v@.take(k as int).drop_last() =~= v@.take(k - 1));
        k = k - 1;
    }
    proof {
        lemma_trim_end_fixed(v@.take(k as int));
    }
    k
}

proof fn lemma_trim_end_fixed(s: Seq<char>)
    requires
        s.len() == 0 || !is_space(s.last()),
    ensures
        trim_end(s) == s,
{
}

/// State of the line scanner after reading `s`: the finished lines, and the
/// line under way.
pub open spec fn scan_lines(s: Seq<char>) -> (Seq<Seq<char>>, Seq<char>)
    decreases s.len(),
{
    if s.len() == 0 {
        (seq![], seq![])
    } else {
        let (done, cur) = scan_lines(s.drop_last());
        if s.last() == '\n' {
            (done.push(cur), seq![])
        } else {
            (done, cur.push(s.last()))
        }
    }
}

/// `l` without the carriage return that may end it.
pub open spec fn strip_cr(l: Seq<char>) -> Seq<char> {
    if l.len() > 0 && l.last() == '\r' {
        l.drop_last()
    } else {
        l
    }
}

/// The lines of `s`: the pieces between line feeds, where a line feed ends a
/// line together with the carriage return before it, and a final line feed
/// ends the last line rather than starting an empty one.
pub open spec fn lines(s: Seq<char>) -> Seq<Seq<char>> {
    let (done, cur) = scan_lines(s);
    let ended = done.map_values(|l: Seq<char>| strip_cr(l));
    if cur.len() == 0 {
        ended
    } else {
        ended.push(cur)
    }
}

/// Removes the carriage return that may end `l`.
fn strip_cr_in_place(l: &mut Vec<char>)
    ensures
        final(l)@ == strip_cr(old(l)@),
{
    let n = l.len();
    if n > 0 && l[n - 1] == '\r' {
        l.pop();
        assert(l@ =~= strip_cr(old(l)@));
    }
}

/// Splits `v` into its lines.
pub(crate) fn split_lines(v: &Vec<char>) -> (r: Vec<Vec<char>>)
    ensures
        r@.len() == lines(v@).len(),
        forall|i: int| 0 <= i < r@.len() ==> #[trigger] r@[i]@ == lines(v@)[i],
{
    let mut done: Vec<Vec<char>> = Vec::new();
    let mut cur: Vec<char> = Vec::new();
    let mut i: usize = 0;
    while i < v.len()
        invariant
            i <= v@.len(),
            done@.len() == scan_lines(v@.take(i as int)).0.len(),
            forall|j: int|
                0 <= j < done@.len() ==> #[trigger] done@[j]@ == strip_cr(scan_lines(v@.take(i as int)).0[j]),
            cur@ == scan_lines(v@.take(i as int)).1,
        decreases v@.len() - i,
    {
        assert(v@.take(i + 1).drop_last() =~= v@.take(i as int));
        if v[i] == '\n' {
            strip_cr_in_place(&mut cur);
            done.push(cur);
            cur = Vec::new();
        } else {
            cur.push(v[i]);
        }
        i = i + 1;
    }
    assert(v@.take(v@.len() as int) =~= v@);
    if cur.len() > 0 {
        done.push(cur);
    }
    done
}

/// Whether the separator `": "` starts at position `i` of `l`.
pub open spec fn sep_at(l: Seq<char>, i: int) -> bool {
    0 <= i && i + 1 < l.len() && l[i] == ':' && l[i + 1] == ' '
}

/// Whether `i` is the first position of `l` where the separator starts.
pub open spec fn first_sep_at(l: Seq<char>, i: int) -> bool {
    sep_at(l, i) && forall|j: int| 0 <= j < i ==> !sep_at(l, j)
}

/// Whether `l` holds the separator `": "`.
pub open spec fn has_sep(l: Seq<char>) -> bool {
    exists|i: int| sep_at(l, i)
}

/// The first position of the separator in `l` (meaningful where `has_sep(l)`).
pub open spec fn first_sep(l: Seq<char>) -> int {
    choose|i: int| first_sep_at(l, i)
}

/// The part of a `key: value` line before the first separator.
pub open spec fn key_of(l: Seq<char>) -> Seq<char> {
    l.take(first_sep(l))
}

/// The part of a `key: value` line after the first separator.
pub open spec fn value_of(l: Seq<char>) -> Seq<char> {
    l.skip(first_sep(l) + 2)
}

/// The first position of the separator is the one `first_sep` names.
pub proof fn lemma_first_sep(l: Seq<char>, i: int)
    requires
        first_sep_at(l, i),
    ensures
        has_sep(l),
        first_sep(l) == i,
{
    let k = first_sep(l);
    assert(first_sep_at(l, k));
    if k < i {
        assert(!sep_at(l, k));
    } else if i < k {
        assert(!sep_at(l, i));
    }
}

/// Whether `i` is the first position of `c` in `s`.
pub open spec fn first_char_at(s: Seq<char>, c: char, i: int) -> bool {
    0 <= i < s.len() && s[i] == c && forall|j: int| 0 <= j < i ==> s[j] != c
}

/// The first position of `c` in `s` (meaningful where `s.contains(c)`).
pub open spec fn first_char(s: Seq<char>, c: char) -> int {
    choose|i: int| first_char_at(s, c, i)
}

/// The first position of `c` is the one `first_char` names.
pub proof fn lemma_first_char(s: Seq<char>, c: char, i: int)
    requires
        first_char_at(s, c, i),
    ensures
        s.contains(c),
        first_char(s, c) == i,
{
    let k = first_char(s, c);
    assert(first_char_at(s, c, k));
    if k < i {
        assert(s[k] != c);
    } else if i < k {
        assert(s[i] != c);
    }
}

/// Finds the first position of `c` in `v`.
pub(crate) fn find_char(v: &Vec<char>, c: char) -> (r: Option<usize>)
    ensures
        r matches Some(i) ==> first_char_at(v@, c, i as int) && first_char(v@, c) == i,
        r matches Some(_) <==> v@.contains(c),
{
    let mut i: usize = 0;
    while i < v.len()
        invariant
            i <= v@.len(),
            forall|j: int| 0 <= j < i ==> v@[j] != c,
        decreases v@.len() - i,
    {
        if v[i] == c {
            proof {
                lemma_first_char(v@, c, i as int);
            }
            return Some(i);
        }
        i = i + 1;
    }
    None
}

/// Finds the first position of the separator `": "` in `l`.
pub(crate) fn find_sep(l: &Vec<char>) -> (r: Option<usize>)
    ensures
        r matches Some(i) ==> first_sep_at(l@, i as int) && first_sep(l@) == i,
        r matches Some(_) <==> has_sep(l@),
{
    let mut i: usize = 0;
    while l.len() > 1 && i < l.len() - 1
        invariant
            forall|j: int| 0 <= j < i ==> !sep_at(l@, j),
        decreases l@.len() - i,
    {
        if l[i] == ':' && l[i + 1] == ' ' {
            proof {
                lemma_first_sep(l@, i as int);
            }
            return Some(i);
        }
        i = i + 1;
    }
    None
}

} // verus!
