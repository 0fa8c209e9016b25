//! Character-level string helpers with exact specifications: conversion between
//! `&str` and `Vec<char>`, whitespace trimming, ASCII case folding, and literal
//! substring replacement.
use vstd::prelude::*;

verus! {

/// The characters of `s`, in order.
pub fn chars_of(s: &str) -> (v: Vec<char>)
    ensures
        v@ == s@,
{
    let mut v: Vec<char> = Vec::new();
    for c in it: s.chars()
        invariant
            it.seq() == s@,
            v@ == it.seq().take(it.index()),
    {
        v.push(c);
    }
    v
}

/// `String` built from a slice of characters (std's `FromIterator<char>` for `String`).
/// Trusted: the collected string holds exactly the given characters, in order.
#[verifier::external_body]
pub fn string_from_chars(v: &[char]) -> (s: String)
    ensures
        s@ == v@,
{
    v.iter().collect::<String>()
}

/// Unicode `White_Space` characters, the set that `char::is_whitespace` and `str::trim` use.
pub open spec fn is_space(c: char) -> bool {
    ||| ('\u{9}' <= c && c <= '\u{d}')
    ||| c == ' '
    ||| c == '\u{85}'
    ||| c == '\u{a0}'
    ||| c == '\u{1680}'
    ||| ('\u{2000}' <= c && c <= '\u{200a}')
    ||| c == '\u{2028}'
    ||| c == '\u{2029}'
    ||| c == '\u{202f}'
    ||| c == '\u{205f}'
    ||| c == '\u{3000}'
}

pub fn is_space_exec(c: char) -> (b: bool)
    ensures
        b == is_space(c),
{
    ('\u{9}' <= c && c <= '\u{d}') || c == ' ' || c == '\u{85}' || c == '\u{a0}' || c == '\u{1680}'
        || ('\u{2000}' <= c && c <= '\u{200a}') || c == '\u{2028}' || c == '\u{2029}' || c
        == '\u{202f}' || c == '\u{205f}' || c == '\u{3000}'
}

/// `s` without its leading whitespace.
pub open spec fn trim_start(s: Seq<char>) -> Seq<char>
    decreases s.len(),
{
    if s.len() > 0 && is_space(s[0]) {
        trim_start(s.skip(1))
    } else {
        s
    }
}

/// `s` without its trailing whitespace.
pub open spec fn trim_end(s: Seq<char>) -> Seq<char>
    decreases s.len(),
{
    if s.len() > 0 && is_space(s.last()) {
        trim_end(s.drop_last())
    } else {
        s
    }
}

/// `s` without leading and trailing whitespace (as `str::trim`).
pub open spec fn trim(s: Seq<char>) -> Seq<char> {
    trim_end(trim_start(s))
}

proof fn lemma_trim_start_skip(s: Seq<char>, i: int)
    requires
        0 <= i < s.len(),
        is_space(s[i]),
    ensures
        trim_start(s.skip(i)) == trim_start(s.skip(i + 1)),
{
    assert(s.skip(i).skip(1) =~= s.skip(i + 1));
}

proof fn lemma_trim_end_take(s: Seq<char>, j: int)
    requires
        0 < j <= s.len(),
        is_space(s[j - 1]),
    ensures
        trim_end(s.take(j)) == trim_end(s.take(j - 1)),
{
    assert(s.take(j).drop_last() =~= s.take(j - 1));
}

/// Index range `[lo, hi)` of `v` that `trim` keeps.
pub fn trim_bounds(v: &[char]) -> (r: (usize, usize))
    ensures
        r.0 <= r.1 <= v@.len(),
        v@.subrange(r.0 as int, r.1 as int) == trim(v@),
{
    let n = v.len();
    let mut i: usize = 0;
    assert(v@.skip(0) =~= v@);
    while i < n && is_space_exec(v[i])
        invariant
            i <= n == v@.len(),
            trim_start(v@) == trim_start(v@.skip(i as int)),
        decreases n - i,
    {
        proof {
            lemma_trim_start_skip(v@, i as int);
        }
        i = i + 1;
    }
    let ghost t = v@.skip(i as int);
    assert(trim_start(t) == t);
    let mut j: usize = n;
    assert(t.take(j - i) =~= t);
    while j > i && is_space_exec(v[j - 1])
        invariant
            i <= j <= n == v@.len(),
            t == v@.skip(i as int),
            trim_end(t) == trim_end(t.take(j - i)),
        decreases j,
    {
        proof {
            lemma_trim_end_take(t, (j - i) as int);
            assert(t.take(j - i) == t.take((j - i) as int));
        }
        j = j - 1;
    }
    assert(trim_end(t.take(j - i)) == t.take(j - i));
    assert(v@.subrange(i as int, j as int) =~= t.take(j - i));
    (i, j)
}

/// `str::trim`, as an owned string.
pub fn trim_string(s: &str) -> (r: String)
    ensures
        r@ == trim(s@),
{
    let v = chars_of(s);
    let (lo, hi) = trim_bounds(v.as_slice());
    string_from_chars(slice_range(v.as_slice(), lo, hi))
}

/// `&v[lo..hi]`.
pub fn slice_range(v: &[char], lo: usize, hi: usize) -> (r: &[char])
    requires
        lo <= hi <= v@.len(),
    ensures
        r@ == v@.subrange(lo as int, hi as int),
{
    vstd::slice::slice_subrange(v, lo, hi)
}

/// Whether `s` is empty once trimmed (`s.trim().is_empty()`).
pub fn is_blank(s: &str) -> (b: bool)
    ensures
        b == (trim(s@).len() == 0),
{
    let v = chars_of(s);
    let (lo, hi) = trim_bounds(v.as_slice());
    lo == hi
}

/// ASCII lowercase of one character (as `char::to_ascii_lowercase`).
pub open spec fn ascii_lower(c: char) -> char {
    if 'A' <= c && c <= 'Z' {
        ((c as u32) + 32) as char
    } else {
        c
    }
}

pub fn ascii_lower_exec(c: char) -> (r: char)
    ensures
        r == ascii_lower(c),
{
    if 'A' <= c && c <= 'Z' {
        let u = (c as u32) + 32;
        assert(0x61 <= u <= 0x7a);
        let r = char_from_ascii(u);
        r
    } else {
        c
    }
}

/// The character with code point `u`, for an ASCII code point.
fn char_from_ascii(u: u32) -> (c: char)
    requires
        u < 128,
    ensures
        c == u as char,
{
    let b = u as u8;
    b as char
}

/// ASCII lowercase of a string (as `str::to_ascii_lowercase`).
pub open spec fn ascii_lowercase(s: Seq<char>) -> Seq<char> {
    s.map_values(|c: char| ascii_lower(c))
}

pub fn ascii_lowercase_string(s: &str) -> (r: String)
    ensures
        r@ == ascii_lowercase(s@),
{
    let v = chars_of(s);
    let mut out: Vec<char> = Vec::new();
    for i in 0..v.len()
        invariant
            v@ == s@,
            out@ == ascii_lowercase(v@.take(i as int)),
    {
        out.push(ascii_lower_exec(v[i]));
        assert(ascii_lowercase(v@.take(i + 1)) =~= ascii_lowercase(v@.take(i as int)).push(
            ascii_lower(v@[i as int]),
        ));
    }
    assert(v@.take(v@.len() as int) =~= v@);
    string_from_chars(out.as_slice())
}

/// `a.eq_ignore_ascii_case(b)`.
pub fn eq_ignore_ascii_case(a: &str, b: &str) -> (r: bool)
    ensures
        r == (ascii_lowercase(a@) == ascii_lowercase(b@)),
{
    let x = chars_of(a);
    let y = chars_of(b);
    if x.len() != y.len() {
        assert(ascii_lowercase(a@).len() != ascii_lowercase(b@).len());
        return false;
    }
    for i in 0..x.len()
        invariant
            x@ == a@,
            y@ == b@,
            x@.len() == y@.len(),
            forall|k: int| 0 <= k < i ==> ascii_lower(#[trigger] x@[k]) == ascii_lower(y@[k]),
    {
        if ascii_lower_exec(x[i]) != ascii_lower_exec(y[i]) {
            assert(ascii_lowercase(a@)[i as int] != ascii_lowercase(b@)[i as int]);
            return false;
        }
    }
    assert(ascii_lowercase(a@) =~= ascii_lowercase(b@));
    true
}

/// String equality through views (`a == b` on `&str`).
pub fn str_eq(a: &str, b: &str) -> (r: bool)
    ensures
        r == (a@ == b@),
{
    let x = chars_of(a);
    let y = chars_of(b);
    seq_eq(x.as_slice(), y.as_slice())
}

/// Equality of two character slices.
pub fn seq_eq(x: &[char], y: &[char]) -> (r: bool)
    ensures
        r == (x@ == y@),
{
    if x.len() != y.len() {
        return false;
    }
    for i in 0..x.len()
        invariant
            x@.len() == y@.len(),
            forall|k: int| 0 <= k < i ==> #[trigger] x@[k] == y@[k],
    {
        if x[i] != y[i] {
            return false;
        }
    }
    assert(x@ =~= y@);
    true
}

/// Result of replacing every non-overlapping occurrence of `from` in `s` by `to`,
/// scanning left to right (as `str::replace` for a non-empty pattern).
pub open spec fn replace_all(s: Seq<char>, from: Seq<char>, to: Seq<char>) -> Seq<char>
    recommends
        from.len() > 0,
    decreases s.len(),
{
    if from.len() == 0 || s.len() < from.len() {
        s
    } else if s.take(from.len() as int) == from {
        to + replace_all(s.skip(from.len() as int), from, to)
    } else {
        seq![s[0]] + replace_all(s.skip(1), from, to)
    }
}

/// Whether `pat` occurs in `s` starting at index `i`.
pub open spec fn occurs_at(s: Seq<char>, pat: Seq<char>, i: int) -> bool {
    0 <= i && i + pat.len() <= s.len() && s.subrange(i, i + pat.len()) == pat
}

/// How many occurrences `replace_all` replaces.
pub open spec fn replace_count(s: Seq<char>, from: Seq<char>) -> nat
    decreases s.len(),
{
    if from.len() == 0 || s.len() < from.len() {
        0
    } else if s.take(from.len() as int) == from {
        1 + replace_count(s.skip(from.len() as int), from)
    } else {
        replace_count(s.skip(1), from)
    }
}

proof fn lemma_replace_len(s: Seq<char>, from: Seq<char>, to: Seq<char>)
    ensures
        replace_all(s, from, to).len() == s.len() + replace_count(s, from) * (to.len() - from.len()),
    decreases s.len(),
{
    let d: int = to.len() - from.len();
    if from.len() == 0 || s.len() < from.len() {
        assert(replace_count(s, from) == 0);
        assert(replace_count(s, from) * d == 0);
    } else if s.take(from.len() as int) == from {
        let rest = s.skip(from.len() as int);
        lemma_replace_len(rest, from, to);
        let c = replace_count(rest, from);
        assert(replace_count(s, from) == 1 + c);
        assert(replace_all(s, from, to) == to + replace_all(rest, from, to));
        assert((1 + c) * d == d + c * d) by (nonlinear_arith);
    } else {
        lemma_replace_len(s.skip(1), from, to);
        assert(replace_count(s, from) == replace_count(s.skip(1), from));
        assert(replace_all(s, from, to) == seq![s[0]] + replace_all(s.skip(1), from, to));
    }
}

proof fn lemma_occurrence_is_replaced(s: Seq<char>, from: Seq<char>, i: int)
    requires
        from.len() > 0,
        occurs_at(s, from, i),
    ensures
        replace_count(s, from) >= 1,
    decreases s.len(),
{
    if s.take(from.len() as int) != from {
        if i == 0 {
            assert(s.take(from.len() as int) =~= s.subrange(0, from.len() as int));
        }
        assert(s.skip(1).subrange(i - 1, i - 1 + from.len()) =~= s.subrange(i, i + from.len()));
        lemma_occurrence_is_replaced(s.skip(1), from, i - 1);
    }
}

proof fn lemma_same_length_replacement_changes(s: Seq<char>, from: Seq<char>, to: Seq<char>)
    requires
        from.len() > 0,
        from.len() == to.len(),
        from != to,
        replace_count(s, from) >= 1,
    ensures
        replace_all(s, from, to) != s,
    decreases s.len(),
{
    let f = from.len() as int;
    if s.take(f) == from {
        let r = replace_all(s, from, to);
        if r == s {
            assert(r.take(f) =~= to);
            assert(false);
        }
    } else {
        lemma_same_length_replacement_changes(s.skip(1), from, to);
        let r = replace_all(s, from, to);
        if r == s {
            assert(r.skip(1) =~= replace_all(s.skip(1), from, to));
            assert(false);
        }
    }
}

/// Replacing changes the text whenever the pattern occurs in it and the replacement is a
/// different string.
pub proof fn lemma_replace_all_changes(s: Seq<char>, from: Seq<char>, to: Seq<char>, i: int)
    requires
        from.len() > 0,
        occurs_at(s, from, i),
        from != to,
    ensures
        replace_all(s, from, to) != s,
{
    lemma_occurrence_is_replaced(s, from, i);
    lemma_replace_len(s, from, to);
    if from.len() == to.len() {
        lemma_same_length_replacement_changes(s, from, to);
    } else {
        let c = replace_count(s, from);
        let d = to.len() - from.len();
        assert(c * d != 0) by (nonlinear_arith)
            requires
                c >= 1,
                d != 0,
        ;
    }
}

fn matches_at(s: &[char], pat: &[char], i: usize) -> (r: bool)
    requires
        i <= s@.len(),
    ensures
        r == occurs_at(s@, pat@, i as int),
{
    if pat.len() > s.len() - i {
        return false;
    }
    let mut k: usize = 0;
    while k < pat.len()
        invariant
            i + pat@.len() <= s@.len() <= usize::MAX,
            k <= pat@.len(),
            forall|m: int| 0 <= m < k ==> s@[i + m] == #[trigger] pat@[m],
        decreases pat@.len() - k,
    {
        if s[i + k] != pat[k] {
            assert(s@.subrange(i as int, i + pat@.len())[k as int] != pat@[k as int]);
            return false;
        }
        k = k + 1;
    }
    assert(s@.subrange(i as int, i + pat@.len()) =~= pat@);
    true
}

/// Literal replacement on character sequences.
pub fn replace_chars(s: &[char], from: &[char], to: &[char]) -> (r: Vec<char>)
    requires
        from@.len() > 0,
    ensures
        r@ == replace_all(s@, from@, to@),
{
    let n = s.len();
    let mut out: Vec<char> = Vec::new();
    let mut i: usize = 0;
    assert(s@.skip(0) =~= s@);
    while i < n
        invariant
            n == s@.len(),
            from@.len() > 0,
            i <= n,
            out@ + replace_all(s@.skip(i as int), from@, to@) == replace_all(s@, from@, to@),
        decreases n - i,
    {
        let ghost rest = s@.skip(i as int);
        if matches_at(s, from, i) {
            assert(rest.take(from@.len() as int) =~= s@.subrange(i as int, i + from@.len()));
            assert(rest.skip(from@.len() as int) =~= s@.skip(i + from@.len()));
            let mut k: usize = 0;
            let ghost before = out@;
            while k < to.len()
                invariant
                    k <= to@.len(),
                    out@ == before + to@.take(k as int),
                decreases to@.len() - k,
            {
                out.push(to[k]);
                assert(to@.take(k + 1) =~= to@.take(k as int).push(to@[k as int]));
                k = k + 1;
            }
            assert(to@.take(to@.len() as int) =~= to@);
            assert(before + (to@ + replace_all(s@.skip(i + from@.len()), from@, to@)) =~= out@
                + replace_all(s@.skip(i + from@.len()), from@, to@));
            i = i + from.len();
        } else {
            proof {
                if rest.len() >= from@.len() {
                    assert(rest.take(from@.len() as int) =~= s@.subrange(i as int, i + from@.len()));
                }
            }
            assert(rest.skip(1) =~= s@.skip(i + 1));
            let ghost before = out@;
            out.push(s[i]);
            assert(before + (seq![s@[i as int]] + replace_all(s@.skip(i + 1), from@, to@))
                =~= out@ + replace_all(s@.skip(i + 1), from@, to@));
            i = i + 1;
        }
    }
    assert(s@.skip(n as int) =~= Seq::<char>::empty());
    assert(out@ + Seq::<char>::empty() =~= out@);
    out
}

/// `s.replace(from, to)` for a non-empty `from`.
pub fn replace_str(s: &str, from: &str, to: &str) -> (r: String)
    requires
        from@.len() > 0,
    ensures
        r@ == replace_all(s@, from@, to@),
{
    let sv = chars_of(s);
    let fv = chars_of(from);
    let tv = chars_of(to);
    let out = replace_chars(sv.as_slice(), fv.as_slice(), tv.as_slice());
    string_from_chars(out.as_slice())
}

/// Appends `t` to `s` (`String::push_str`).
pub fn push_str(s: &mut String, t: &str)
    ensures
        final(s)@ == old(s)@ + t@,
{
    s.append(t);
}

/// `s.ends_with(suffix)`.
pub fn ends_with_str(s: &str, suffix: &str) -> (r: bool)
    ensures
        r == suffix@.is_suffix_of(s@),
{
    let v = chars_of(s);
    let t = chars_of(suffix);
    if v.len() < t.len() {
        return false;
    }
    let off = v.len() - t.len();
    let r = matches_at(v.as_slice(), t.as_slice(), off);
    proof {
        if r {
            assert(s@.subrange(off as int, s@.len() as int) =~= suffix@);
        } else {
            assert(!occurs_at(v@, t@, off as int));
        }
    }
    r
}

/// Whether `needle` occurs anywhere in `hay`.
pub open spec fn contains_seq(hay: Seq<char>, needle: Seq<char>) -> bool {
    exists|i: int| occurs_at(hay, needle, i)
}

/// `hay.contains(needle)`.
pub fn contains_str(hay: &str, needle: &str) -> (r: bool)
    ensures
        r == contains_seq(hay@, needle@),
{
    let v = chars_of(hay);
    let t = chars_of(needle);
    let mut i: usize = 0;
    while i < v.len()
        invariant
            v@ == hay@,
            t@ == needle@,
            i <= v@.len(),
            forall|k: int| 0 <= k < i ==> !occurs_at(hay@, needle@, k),
        decreases v@.len() - i,
    {
        if matches_at(v.as_slice(), t.as_slice(), i) {
            return true;
        }
        i = i + 1;
    }
    if matches_at(v.as_slice(), t.as_slice(), v.len()) {
        return true;
    }
    assert forall|k: int| !occurs_at(hay@, needle@, k) by {
        if k > hay@.len() {
            assert(k + needle@.len() > hay@.len());
        }
    }
    false
}

/// The trimmed text, or none when `raw` is unset or blank.
pub fn non_blank_trimmed(raw: Option<&str>) -> (r: Option<String>)
    ensures
        match raw {
            Some(v) => if trim(v@).len() == 0 {
                r is None
            } else {
                r matches Some(n) && n@ == trim(v@)
            },
            None => r is None,
        },
{
    match raw {
        Some(v) => {
            let t = trim_string(v);
            if t.as_str().is_empty() {
                None
            } else {
                Some(t)
            }
        },
        None => None,
    }
}

} // verus!

