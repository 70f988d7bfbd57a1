//! Branch names as they appear in directory names, log paths and URLs.

use vstd::prelude::*;
use crate::text::{chars_of, string_of, trimmed_start, trimmed_end, leading_count,
    trailing_count, trim_both, trim_start, trim_end, lemma_leading_count, lemma_trailing_count,
    lemma_leading_count_is, lemma_trailing_count_is};

verus! {

/// ASCII letter or digit (`char::is_ascii_alphanumeric`).
pub open spec fn is_ascii_alnum(c: char) -> bool {
    ||| 48 <= c as int <= 57
    ||| 65 <= c as int <= 90
    ||| 97 <= c as int <= 122
}

/// ASCII lower-case letter, digit or `-`: the characters a sanitized branch holds.
pub open spec fn is_slug_char(c: char) -> bool {
    ||| 48 <= c as int <= 57
    ||| 97 <= c as int <= 122
    ||| c == '-'
}

/// ASCII upper-case letters lowered, anything else unchanged (`char::to_ascii_lowercase`).
pub open spec fn ascii_lower(c: char) -> char {
    if 65 <= c as int <= 90 {
        ((c as int) + 32) as char
    } else {
        c
    }
}

/// The character that stands for `c` in a sanitized branch name.
pub open spec fn slug_char(c: char) -> char {
    if is_ascii_alnum(c) || c == '-' {
        ascii_lower(c)
    } else {
        '-'
    }
}

/// Every character mapped to its slug character.
pub open spec fn slug_chars(s: Seq<char>) -> Seq<char> {
    s.map_values(|c: char| slug_char(c))
}

/// The sanitized form of branch name `b`: ASCII letters and digits lowered,
/// `-` kept, every other character turned into `-`, then leading and trailing
/// `-` removed.
pub open spec fn sanitized(b: Seq<char>) -> Seq<char> {
    trim_both(slug_chars(b), '-')
}

fn slug_char_exec(c: char) -> (r: char)
    ensures
        r == slug_char(c),
{
    if ('0' <= c && c <= '9') || ('a' <= c && c <= 'z') || c == '-' {
        c
    } else if 'A' <= c && c <= 'Z' {
        ((c as u8) + 32) as char
    } else {
        '-'
    }
}

/// The sanitized form of a branch name, used for worktree directories, log
/// paths and Portless URLs.
pub fn sanitize_branch(branch: &str) -> (r: String)
    ensures
        r@ == sanitized(branch@),
{
    let v = chars_of(branch);
    let mut m: Vec<char> = Vec::new();
    let mut i: usize = 0;
    while i < v.len()
        invariant
            v@ == branch@,
            i <= v@.len(),
            m@ == slug_chars(v@.take(i as int)),
        decreases v@.len() - i,
    {
        m.push(slug_char_exec(v[i]));
        assert(slug_chars(v@.take(i + 1)) =~= slug_chars(v@.take(i as int)).push(slug_char(v@[i as int])));
        i = i + 1;
    }
    assert(v@.take(v@.len() as int) =~= v@);
    let front = trimmed_start(&m, '-');
    let both = trimmed_end(&front, '-');
    string_of(both.as_slice())
}

/// Every character of a sanitized name is an ASCII lower-case letter, a digit or `-`.
pub proof fn lemma_sanitized_chars(b: Seq<char>)
    ensures
        forall|i: int| 0 <= i < sanitized(b).len() ==> is_slug_char(#[trigger] sanitized(b)[i]),
{
    let m = slug_chars(b);
    lemma_leading_count(m, '-');
    let f = trim_start(m, '-');
    lemma_trailing_count(f, '-');
    assert forall|i: int| 0 <= i < sanitized(b).len() implies is_slug_char(#[trigger] sanitized(b)[i]) by {
        let k = i + leading_count(m, '-');
        assert(sanitized(b)[i] == f[i]);
        assert(f[i] == m[k]);
        assert(m[k] == slug_char(b[k]));
    }
}

/// A sanitized name neither begins nor ends with `-`.
pub proof fn lemma_sanitized_ends(b: Seq<char>)
    ensures
        sanitized(b).len() > 0 ==> sanitized(b)[0] != '-' && sanitized(b).last() != '-',
{
    let m = slug_chars(b);
    lemma_leading_count(m, '-');
    let f = trim_start(m, '-');
    lemma_trailing_count(f, '-');
    let r = sanitized(b);
    if r.len() > 0 {
        assert(r[0] == f[0]);
        assert(f[0] == m[leading_count(m, '-') as int]);
        lemma_leading_count(f, '-');
        assert(r.last() == f[f.len() - trailing_count(f, '-') - 1]);
    }
}

/// Sanitizing is idempotent: a sanitized name is its own sanitized form.
pub proof fn lemma_sanitize_idempotent(b: Seq<char>)
    ensures
        sanitized(sanitized(b)) == sanitized(b),
{
    let r = sanitized(b);
    lemma_sanitized_chars(b);
    lemma_sanitized_ends(b);
    assert forall|i: int| 0 <= i < r.len() implies #[trigger] slug_char(r[i]) == r[i] by {
        assert(is_slug_char(r[i]));
    }
    assert(slug_chars(r) =~= r);
    lemma_leading_count_is(r, '-', 0);
    assert(trim_start(r, '-') =~= r);
    lemma_trailing_count_is(r, '-', 0);
    assert(trim_end(r, '-') =~= r);
}


/// Whether `d` stands for `c` in a sanitized branch name: ASCII digits,
/// lower-case letters and `-` are kept, upper-case letters are lowered, and
/// anything else becomes `-`.
pub open spec fn stands_for(d: char, c: char) -> bool {
    if (48 <= c as int <= 57) || (97 <= c as int <= 122) || c == '-' {
        d == c
    } else if 65 <= c as int <= 90 {
        d as int == c as int + 32
    } else {
        d == '-'
    }
}

/// Whether `r` is the run of `b` starting at `lo`, character for character
/// (`stands_for`), with no ASCII letter or digit of `b` before or after it.
pub open spec fn kept_run_at(b: Seq<char>, r: Seq<char>, lo: int) -> bool {
    &&& 0 <= lo
    &&& lo + r.len() <= b.len()
    &&& forall|i: int| 0 <= i < r.len() ==> #[trigger] stands_for(r[i], b[lo + i])
    &&& forall|j: int| 0 <= j < lo ==> !is_ascii_alnum(#[trigger] b[j])
    &&& forall|j: int| lo + r.len() <= j < b.len() ==> !is_ascii_alnum(#[trigger] b[j])
}

/// What sanitizing keeps: a run of the branch, character for character,
/// starting at some `lo`; everything cut off before or after it is made of
/// characters that are not ASCII letters or digits.
pub proof fn law_sanitized_is_mapped_run(b: Seq<char>)
    ensures
        exists|lo: int| #[trigger] kept_run_at(b, sanitized(b), lo),
{
    let m = slug_chars(b);
    lemma_leading_count(m, '-');
    let f = trim_start(m, '-');
    lemma_trailing_count(f, '-');
    let lo = leading_count(m, '-') as int;
    let r = sanitized(b);
    assert forall|i: int| 0 <= i < r.len() implies #[trigger] stands_for(r[i], b[lo + i]) by {
        assert(r[i] == f[i]);
        assert(f[i] == m[lo + i]);
    }
    assert forall|j: int| 0 <= j < lo implies !is_ascii_alnum(#[trigger] b[j]) by {
        assert(m[j] == '-');
    }
    assert forall|j: int| lo + r.len() <= j < b.len() implies !is_ascii_alnum(#[trigger] b[j]) by {
        assert(f[j - lo] == '-');
        assert(m[j] == f[j - lo]);
    }
    assert(kept_run_at(b, r, lo));
}

/// A branch that begins and ends with an ASCII letter or digit loses no
/// character: its sanitized name has the branch's length, and each character
/// stands for the branch's character at the same place.
pub proof fn law_sanitized_keeps_length(b: Seq<char>)
    requires
        b.len() > 0,
        is_ascii_alnum(b[0]),
        is_ascii_alnum(b.last()),
    ensures
        sanitized(b).len() == b.len(),
        forall|i: int| 0 <= i < b.len() ==> #[trigger] stands_for(sanitized(b)[i], b[i]),
{
    law_sanitized_is_mapped_run(b);
    let r = sanitized(b);
    let lo = choose|lo: int| kept_run_at(b, r, lo);
    if lo > 0 {
        assert(!is_ascii_alnum(b[0]));
    }
    if lo + r.len() < b.len() {
        assert(!is_ascii_alnum(b[b.len() - 1]));
    }
    assert forall|i: int| 0 <= i < b.len() implies #[trigger] stands_for(r[i], b[i]) by {
        assert(stands_for(r[i], b[lo + i]));
    }
}

} // verus!
