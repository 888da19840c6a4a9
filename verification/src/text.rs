//! Characters of a string, and the few questions about text that the rest of
//! the crate asks.
//!
//! Names are compared without regard to the case of ASCII letters: `fold_char`
//! maps `A`..`Z` to `a`..`z` and leaves every other character alone.

use vstd::prelude::*;
use vstd::string::StringExecFns;

verus! {

/// `c`, with an ASCII capital replaced by its small letter.
pub open spec fn fold(c: char) -> char {
    if 'A' <= c && c <= 'Z' {
        ((c as u8) + 32) as char
    } else {
        c
    }
}

/// `s` with every character folded.
pub open spec fn folded(s: Seq<char>) -> Seq<char> {
    Seq::new(s.len(), |i: int| fold(s[i]))
}

/// `s` ends with `suffix`.
pub open spec fn ends_with(s: Seq<char>, suffix: Seq<char>) -> bool {
    suffix.len() <= s.len() && s.subrange(s.len() - suffix.len(), s.len() as int) == suffix
}

/// `s` starts with `prefix`.
pub open spec fn starts_with(s: Seq<char>, prefix: Seq<char>) -> bool {
    prefix.len() <= s.len() && s.subrange(0, prefix.len() as int) == prefix
}

/// `needle` occurs in `s` at offset `at`.
pub open spec fn occurs_at(s: Seq<char>, needle: Seq<char>, at: int) -> bool {
    0 <= at && at + needle.len() <= s.len() && s.subrange(at, at + needle.len()) == needle
}

/// `needle` occurs somewhere in `s`.
pub open spec fn contains(s: Seq<char>, needle: Seq<char>) -> bool {
    exists|at: int| occurs_at(s, needle, at)
}

/// The characters of `s`, in order.
pub(crate) fn chars_of(s: &str) -> (v: Vec<char>)
    ensures
        v@ == s@,
{
    let mut v: Vec<char> = Vec::new();
    for c in it: s.chars()
        invariant
            it.seq() == s@,
            v@ == it.seq().take(it.index()),
    {
        v.push(c);
    }
    v
}

/// Folds one character.
pub(crate) fn fold_char(c: char) -> (r: char)
    ensures
        r == fold(c),
{
    if 'A' <= c && c <= 'Z' {
        ((c as u8) + 32u8) as char
    } else {
        c
    }
}

/// Does `s`, folded, end with `suffix`?
pub(crate) fn ends_with_folded(s: &Vec<char>, suffix: &str) -> (r: bool)
    ensures
        r == ends_with(folded(s@), suffix@),
{
    let suffix_chars = chars_of(suffix);
    let n: usize = s.len();
    let m: usize = suffix_chars.len();
    if m > n {
        return false;
    }
    let start: usize = n - m;
    let mut i: usize = 0;
    while i < m
        invariant
            n == s.len(),
            m == suffix_chars.len(),
            suffix_chars@ == suffix@,
            start == n - m,
            i <= m,
            forall|k: int| 0 <= k < i ==> fold(s[start + k]) == suffix_chars[k],
        decreases m - i,
    {
        if fold_char(s[start + i]) != suffix_chars[i] {
            return false;
        }
        i += 1;
    }
    assert(folded(s@).subrange(n - m, n as int) =~= suffix@);
    true
}

/// Does `needle` stand in `s` at offset `at`?
fn matches_at(s: &Vec<char>, needle: &Vec<char>, at: usize) -> (r: bool)
    requires
        at + needle.len() <= s.len(),
    ensures
        r == occurs_at(s@, needle@, at as int),
{
    let m: usize = needle.len();
    let mut i: usize = 0;
    while i < m
        invariant
            m == needle.len(),
            at + m <= s.len(),
            i <= m,
            forall|k: int| 0 <= k < i ==> s[at + k] == needle[k],
        decreases m - i,
    {
        if s[at + i] != needle[i] {
            return false;
        }
        i += 1;
    }
    assert(s@.subrange(at as int, at + m) =~= needle@);
    true
}

/// Does `needle` occur somewhere in `s`?
pub(crate) fn contains_text(s: &str, needle: &str) -> (r: bool)
    ensures
        r == contains(s@, needle@),
{
    let s_chars = chars_of(s);
    let needle_chars = chars_of(needle);
    let n: usize = s_chars.len();
    let m: usize = needle_chars.len();
    if m > n {
        return false;
    }
    let last: usize = n - m;
    let mut at: usize = 0;
    loop
        invariant
            n == s_chars.len(),
            m == needle_chars.len(),
            s_chars@ == s@,
            needle_chars@ == needle@,
            last == n - m,
            at <= last,
            forall|k: int| 0 <= k < at ==> !occurs_at(s@, needle@, k),
        decreases last - at,
    {
        if matches_at(&s_chars, &needle_chars, at) {
            return true;
        }
        if at == last {
            return false;
        }
        at += 1;
    }
}

/// Do `a` and `b` hold the same characters?
pub(crate) fn same_text(a: &str, b: &str) -> (r: bool)
    ensures
        r == (a@ == b@),
{
    let a_chars = chars_of(a);
    let b_chars = chars_of(b);
    if a_chars.len() != b_chars.len() {
        return false;
    }
    let r = matches_at(&a_chars, &b_chars, 0);
    assert(a@.subrange(0, a@.len() as int) =~= a@);
    r
}

/// `head` followed by `tail`, as one new text.
pub(crate) fn concat(head: &str, tail: &str) -> (s: String)
    ensures
        s@ == head@ + tail@,
{
    let mut s = String::from_str(head);
    s.append(tail);
    s
}

/// Folding a text twice changes nothing more.
pub proof fn lemma_fold_idempotent(s: Seq<char>)
    ensures
        folded(folded(s)) == folded(s),
{
    assert(folded(folded(s)) =~= folded(s));
}

} // verus!
