//! Text utilities over `char` sequences: conversion between `String` and
//! `Vec<char>`, equality, lexicographic order and prefix tests.

use vstd::prelude::*;

verus! {

/// Appends one character to a string (std `String::push`).
/// Trusted: the result is the old contents followed by `c`.
#[verifier::external_body]
pub(crate) fn push_char(s: &mut String, c: char)
    ensures
        final(s)@ == old(s)@.push(c),
{
    s.push(c);
}

/// The characters of `s`, in order.
pub fn chars_of(s: &str) -> (v: Vec<char>)
    ensures
        v@ == s@,
{
    let mut v: Vec<char> = Vec::new();
    for c in it: s.chars()
        invariant
            v@ == it.seq().take(it.index() as int),
            it.seq() == s@,
    {
        v.push(c);
    }
    v
}

} // verus!

verus! {

/// The string holding exactly the characters `v`.
pub fn string_of(v: &[char]) -> (s: String)
    ensures
        s@ == v@,
{
    let mut s = String::new();
    let mut i: usize = 0;
    while i < v.len()
        invariant
            i <= v@.len(),
            s@ == v@.take(i as int),
        decreases v@.len() - i,
    {
        push_char(&mut s, v[i]);
        assert(v@.take(i + 1) == v@.take(i as int).push(v@[i as int]));
        i = i + 1;
    }
    assert(v@.take(v@.len() as int) == v@);
    s
}

/// `a` followed by `b`.
pub fn concat(a: &str, b: &str) -> (s: String)
    ensures
        s@ == a@ + b@,
{
    let mut s = a.to_owned();
    s.append(b);
    s
}

/// Whether the two strings hold the same characters.
pub fn text_eq(a: &str, b: &str) -> (r: bool)
    ensures
        r == (a@ == b@),
{
    let x = a.to_owned();
    let y = b.to_owned();
    x == y
}

/// Whether `s` begins with `prefix`.
pub open spec fn has_prefix(s: Seq<char>, prefix: Seq<char>) -> bool {
    prefix.len() <= s.len() && s.take(prefix.len() as int) == prefix
}

/// Whether `s` begins with `prefix`.
pub fn starts_with(s: &str, prefix: &str) -> (r: bool)
    ensures
        r == has_prefix(s@, prefix@),
{
    let sv = chars_of(s);
    let pv = chars_of(prefix);
    if pv.len() > sv.len() {
        return false;
    }
    let mut i: usize = 0;
    while i < pv.len()
        invariant
            pv@ == prefix@,
            sv@ == s@,
            pv@.len() <= sv@.len(),
            i <= pv@.len(),
            forall|j: int| 0 <= j < i ==> sv@[j] == pv@[j],
        decreases pv@.len() - i,
    {
        if sv[i] != pv[i] {
            assert(s@.take(prefix@.len() as int)[i as int] != prefix@[i as int]);
            return false;
        }
        i = i + 1;
    }
    assert(s@.take(prefix@.len() as int) =~= prefix@);
    true
}

/// Lexicographic order on character sequences by code point; a proper prefix
/// comes first. This is the order of `String` keys in an ordered map.
pub open spec fn text_lt(a: Seq<char>, b: Seq<char>) -> bool
    decreases a.len(),
{
    if b.len() == 0 {
        false
    } else if a.len() == 0 {
        true
    } else if a[0] == b[0] {
        text_lt(a.drop_first(), b.drop_first())
    } else {
        (a[0] as int) < (b[0] as int)
    }
}

/// No sequence comes before itself.
pub proof fn lemma_text_lt_irreflexive(a: Seq<char>)
    ensures
        !text_lt(a, a),
    decreases a.len(),
{
    if a.len() > 0 {
        lemma_text_lt_irreflexive(a.drop_first());
    }
}

/// The order is transitive.
pub proof fn lemma_text_lt_transitive(a: Seq<char>, b: Seq<char>, c: Seq<char>)
    requires
        text_lt(a, b),
        text_lt(b, c),
    ensures
        text_lt(a, c),
    decreases a.len(),
{
    if a.len() > 0 && b.len() > 0 && c.len() > 0 {
        if a[0] == b[0] && b[0] == c[0] {
            lemma_text_lt_transitive(a.drop_first(), b.drop_first(), c.drop_first());
        }
    }
}

/// Any two different sequences are ordered one way or the other.
pub proof fn lemma_text_lt_total(a: Seq<char>, b: Seq<char>)
    requires
        a != b,
    ensures
        text_lt(a, b) || text_lt(b, a),
    decreases a.len(),
{
    if a.len() > 0 && b.len() > 0 && a[0] == b[0] {
        if a.drop_first() == b.drop_first() {
            assert(a =~= seq![a[0]] + a.drop_first());
            assert(b =~= seq![b[0]] + b.drop_first());
        }
        lemma_text_lt_total(a.drop_first(), b.drop_first());
    } else if a.len() == 0 && b.len() == 0 {
        assert(a =~= b);
    } else if a.len() > 0 && b.len() > 0 {
        assert(a[0] as int != b[0] as int);
    }
}

/// The order is asymmetric.
pub proof fn lemma_text_lt_asymmetric(a: Seq<char>, b: Seq<char>)
    requires
        text_lt(a, b),
    ensures
        !text_lt(b, a),
{
    if text_lt(b, a) {
        lemma_text_lt_transitive(a, b, a);
        lemma_text_lt_irreflexive(a);
    }
}

proof fn lemma_text_lt_skip(a: Seq<char>, b: Seq<char>, i: int)
    requires
        0 <= i < a.len(),
        i < b.len(),
        a[i] == b[i],
    ensures
        text_lt(a.skip(i), b.skip(i)) == text_lt(a.skip(i + 1), b.skip(i + 1)),
{
    assert(a.skip(i).drop_first() =~= a.skip(i + 1));
    assert(b.skip(i).drop_first() =~= b.skip(i + 1));
}

/// Whether `a` comes strictly before `b` in [`text_lt`] order.
pub fn text_less(a: &str, b: &str) -> (r: bool)
    ensures
        r == text_lt(a@, b@),
{
    let av = chars_of(a);
    let bv = chars_of(b);
    let mut i: usize = 0;
    assert(a@.skip(0) =~= a@);
    assert(b@.skip(0) =~= b@);
    while i < av.len() && i < bv.len()
        invariant
            av@ == a@,
            bv@ == b@,
            i <= av@.len(),
            i <= bv@.len(),
            text_lt(a@, b@) == text_lt(a@.skip(i as int), b@.skip(i as int)),
        decreases av@.len() - i,
    {
        if av[i] != bv[i] {
            let x = av[i];
            let y = bv[i];
            return x < y;
        }
        proof {
            lemma_text_lt_skip(a@, b@, i as int);
        }
        i = i + 1;
    }
    i < bv.len()
}

/// The decimal digit character for `d < 10`.
pub open spec fn digit_char(d: nat) -> char {
    (d + 48) as char
}

/// The decimal representation of `n`, without leading zeros.
pub open spec fn decimal(n: nat) -> Seq<char>
    decreases n,
{
    if n < 10 {
        seq![digit_char(n)]
    } else {
        decimal(n / 10).push(digit_char(n % 10))
    }
}

/// The decimal representation of `n`, as `n.to_string()` writes it.
pub fn decimal_text(n: u64) -> (s: String)
    ensures
        s@ == decimal(n as nat),
    decreases n,
{
    let d: u8 = (n % 10) as u8;
    let c: char = (48u8 + d) as char;
    if n < 10 {
        let mut s = String::new();
        push_char(&mut s, c);
        s
    } else {
        let mut s = decimal_text(n / 10);
        push_char(&mut s, c);
        s
    }
}

} // verus!

verus! {

/// Number of leading copies of `c` in `s`.
pub open spec fn leading_count(s: Seq<char>, c: char) -> nat
    decreases s.len(),
{
    if s.len() > 0 && s[0] == c {
        1 + leading_count(s.drop_first(), c)
    } else {
        0
    }
}

/// Number of trailing copies of `c` in `s`.
pub open spec fn trailing_count(s: Seq<char>, c: char) -> nat
    decreases s.len(),
{
    if s.len() > 0 && s.last() == c {
        1 + trailing_count(s.drop_last(), c)
    } else {
        0
    }
}

/// `s` without its leading copies of `c` (`str::trim_start_matches`).
pub open spec fn trim_start(s: Seq<char>, c: char) -> Seq<char> {
    s.skip(leading_count(s, c) as int)
}

/// `s` without its trailing copies of `c` (`str::trim_end_matches`).
pub open spec fn trim_end(s: Seq<char>, c: char) -> Seq<char> {
    s.take(s.len() - trailing_count(s, c))
}

/// `s` without leading and trailing copies of `c` (`str::trim_matches`).
pub open spec fn trim_both(s: Seq<char>, c: char) -> Seq<char> {
    trim_end(trim_start(s, c), c)
}

/// `leading_count` is the length of the run of `c` at the front.
pub proof fn lemma_leading_count(s: Seq<char>, c: char)
    ensures
        leading_count(s, c) <= s.len(),
        forall|j: int| 0 <= j < leading_count(s, c) ==> s[j] == c,
        leading_count(s, c) < s.len() ==> s[leading_count(s, c) as int] != c,
    decreases s.len(),
{
    if s.len() > 0 && s[0] == c {
        lemma_leading_count(s.drop_first(), c);
        assert forall|j: int| 0 <= j < leading_count(s, c) implies s[j] == c by {
            if j > 0 {
                assert(s[j] == s.drop_first()[j - 1]);
            }
        }
    }
}

/// A run of `n` copies of `c` not followed by `c` is the leading run.
pub proof fn lemma_leading_count_is(s: Seq<char>, c: char, n: nat)
    requires
        n <= s.len(),
        forall|j: int| 0 <= j < n ==> s[j] == c,
        n < s.len() ==> s[n as int] != c,
    ensures
        leading_count(s, c) == n,
    decreases n,
{
    if n > 0 {
        assert forall|j: int| 0 <= j < n - 1 implies s.drop_first()[j] == c by {
            assert(s.drop_first()[j] == s[j + 1]);
        }
        if n < s.len() {
            assert(s.drop_first()[n - 1] == s[n as int]);
        }
        lemma_leading_count_is(s.drop_first(), c, (n - 1) as nat);
    }
}

/// `trailing_count` is the length of the run of `c` at the back.
pub proof fn lemma_trailing_count(s: Seq<char>, c: char)
    ensures
        trailing_count(s, c) <= s.len(),
        forall|j: int| s.len() - trailing_count(s, c) <= j < s.len() ==> s[j] == c,
        trailing_count(s, c) < s.len() ==> s[s.len() - trailing_count(s, c) - 1] != c,
    decreases s.len(),
{
    if s.len() > 0 && s.last() == c {
        lemma_trailing_count(s.drop_last(), c);
        assert forall|j: int| s.len() - trailing_count(s, c) <= j < s.len() implies s[j] == c by {
            if j < s.len() - 1 {
                assert(s[j] == s.drop_last()[j]);
            }
        }
        if trailing_count(s, c) < s.len() {
            assert(s[s.len() - trailing_count(s, c) - 1] == s.drop_last()[s.drop_last().len()
                - trailing_count(s.drop_last(), c) - 1]);
        }
    }
}

/// A run of `n` copies of `c` at the back not preceded by `c` is the trailing run.
pub proof fn lemma_trailing_count_is(s: Seq<char>, c: char, n: nat)
    requires
        n <= s.len(),
        forall|j: int| s.len() - n <= j < s.len() ==> s[j] == c,
        n < s.len() ==> s[s.len() - n - 1] != c,
    ensures
        trailing_count(s, c) == n,
    decreases n,
{
    if n > 0 {
        let t = s.drop_last();
        assert forall|j: int| t.len() - (n - 1) <= j < t.len() implies t[j] == c by {
            assert(t[j] == s[j]);
        }
        if n < s.len() {
            assert(t[t.len() - (n - 1) - 1] == s[s.len() - n - 1]);
        }
        lemma_trailing_count_is(t, c, (n - 1) as nat);
    }
}

/// Number of leading copies of `c` in `v`.
pub fn count_leading(v: &Vec<char>, c: char) -> (n: usize)
    ensures
        n == leading_count(v@, c),
{
    let mut i: usize = 0;
    while i < v.len() && v[i] == c
        invariant
            i <= v@.len(),
            forall|j: int| 0 <= j < i ==> v@[j] == c,
        decreases v@.len() - i,
    {
        i = i + 1;
    }
    proof { lemma_leading_count_is(v@, c, i as nat); }
    i
}

/// Number of trailing copies of `c` in `v`.
pub fn count_trailing(v: &Vec<char>, c: char) -> (n: usize)
    ensures
        n == trailing_count(v@, c),
{
    let mut n: usize = 0;
    while n < v.len() && v[v.len() - 1 - n] == c
        invariant
            n <= v@.len(),
            forall|j: int| v@.len() - n <= j < v@.len() ==> v@[j] == c,
        decreases v@.len() - n,
    {
        n = n + 1;
    }
    proof { lemma_trailing_count_is(v@, c, n as nat); }
    n
}

/// The characters of `v` from `lo` up to `hi`.
pub fn sub_chars(v: &Vec<char>, lo: usize, hi: usize) -> (r: Vec<char>)
    requires
        lo <= hi <= v@.len(),
    ensures
        r@ == v@.subrange(lo as int, hi as int),
{
    let mut r: Vec<char> = Vec::new();
    let mut i: usize = lo;
    while i < hi
        invariant
            lo <= i <= hi,
            hi <= v@.len(),
            r@ == v@.subrange(lo as int, i as int),
        decreases hi - i,
    {
        r.push(v[i]);
        assert(v@.subrange(lo as int, i + 1) == v@.subrange(lo as int, i as int).push(v@[i as int]));
        i = i + 1;
    }
    r
}

/// `v` without leading copies of `c`.
pub fn trimmed_start(v: &Vec<char>, c: char) -> (r: Vec<char>)
    ensures
        r@ == trim_start(v@, c),
{
    let n = count_leading(v, c);
    proof { lemma_leading_count(v@, c); }
    sub_chars(v, n, v.len())
}

/// `v` without trailing copies of `c`.
pub fn trimmed_end(v: &Vec<char>, c: char) -> (r: Vec<char>)
    ensures
        r@ == trim_end(v@, c),
{
    let n = count_trailing(v, c);
    proof { lemma_trailing_count(v@, c); }
    sub_chars(v, 0, v.len() - n)
}

} // verus!

verus! {

/// Unicode white space, as `char::is_whitespace` and `str::trim` know it.
pub open spec fn is_white_space(c: char) -> bool {
    let n = c as int;
    ||| 0x09 <= n <= 0x0D
    ||| n == 0x20
    ||| n == 0x85
    ||| n == 0xA0
    ||| n == 0x1680
    ||| 0x2000 <= n <= 0x200A
    ||| n == 0x2028
    ||| n == 0x2029
    ||| n == 0x202F
    ||| n == 0x205F
    ||| n == 0x3000
}

fn white_space(c: char) -> (r: bool)
    ensures
        r == is_white_space(c),
{
    ('\u{09}' <= c && c <= '\u{0D}') || c == ' ' || c == '\u{85}' || c == '\u{A0}' || c == '\u{1680}'
        || ('\u{2000}' <= c && c <= '\u{200A}') || c == '\u{2028}' || c == '\u{2029}' || c == '\u{202F}'
        || c == '\u{205F}' || c == '\u{3000}'
}

/// Number of leading white-space characters of `s`.
pub open spec fn leading_space(s: Seq<char>) -> nat
    decreases s.len(),
{
    if s.len() > 0 && is_white_space(s[0]) {
        1 + leading_space(s.drop_first())
    } else {
        0
    }
}

/// Number of trailing white-space characters of `s`.
pub open spec fn trailing_space(s: Seq<char>) -> nat
    decreases s.len(),
{
    if s.len() > 0 && is_white_space(s.last()) {
        1 + trailing_space(s.drop_last())
    } else {
        0
    }
}

/// `s` without leading and trailing white space (`str::trim`).
pub open spec fn trimmed_space(s: Seq<char>) -> Seq<char> {
    let t = s.skip(leading_space(s) as int);
    t.take(t.len() - trailing_space(t))
}

proof fn lemma_leading_space_is(s: Seq<char>, n: nat)
    requires
        n <= s.len(),
        forall|j: int| 0 <= j < n ==> is_white_space(s[j]),
        n < s.len() ==> !is_white_space(s[n as int]),
    ensures
        leading_space(s) == n,
    decreases n,
{
    if n > 0 {
        assert forall|j: int| 0 <= j < n - 1 implies is_white_space(s.drop_first()[j]) by {
            assert(s.drop_first()[j] == s[j + 1]);
        }
        if n < s.len() {
            assert(s.drop_first()[n - 1] == s[n as int]);
        }
        lemma_leading_space_is(s.drop_first(), (n - 1) as nat);
    }
}

proof fn lemma_trailing_space_is(s: Seq<char>, n: nat)
    requires
        n <= s.len(),
        forall|j: int| s.len() - n <= j < s.len() ==> is_white_space(s[j]),
        n < s.len() ==> !is_white_space(s[s.len() - n - 1]),
    ensures
        trailing_space(s) == n,
    decreases n,
{
    if n > 0 {
        let t = s.drop_last();
        assert forall|j: int| t.len() - (n - 1) <= j < t.len() implies is_white_space(t[j]) by {
            assert(t[j] == s[j]);
        }
        if n < s.len() {
            assert(t[t.len() - (n - 1) - 1] == s[s.len() - n - 1]);
        }
        lemma_trailing_space_is(t, (n - 1) as nat);
    }
}

/// `s` without leading and trailing white space, as `str::trim` gives it.
pub fn trim_white_space(s: &str) -> (r: String)
    ensures
        r@ == trimmed_space(s@),
{
    let v = chars_of(s);
    let mut i: usize = 0;
    while i < v.len() && white_space(v[i])
        invariant
            v@ == s@,
            i <= v@.len(),
            forall|j: int| 0 <= j < i ==> is_white_space(v@[j]),
        decreases v@.len() - i,
    {
        i = i + 1;
    }
    proof { lemma_leading_space_is(v@, i as nat); }
    let t = sub_chars(&v, i, v.len());
    assert(t@ == s@.skip(leading_space(s@) as int));
    let mut n: usize = 0;
    while n < t.len() && white_space(t[t.len() - 1 - n])
        invariant
            n <= t@.len(),
            forall|j: int| t@.len() - n <= j < t@.len() ==> is_white_space(t@[j]),
        decreases t@.len() - n,
    {
        n = n + 1;
    }
    proof { lemma_trailing_space_is(t@, n as nat); }
    let u = sub_chars(&t, 0, t.len() - n);
    string_of(u.as_slice())
}

} // verus!
