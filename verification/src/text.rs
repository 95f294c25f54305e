//! Text primitives shared by every extractor: conversion between strings and
//! character vectors, substring search, replacement and the normalisations that
//! std provides (trimming and case folding).

use vstd::prelude::*;

verus! {

/// `String::push` appends one character.
pub assume_specification[ String::push ](s: &mut String, ch: char)
    ensures
        final(s)@ == old(s)@.push(ch),
;

/// What `str::trim` returns for `s`: `s` without its leading and trailing
/// Unicode white space.
pub uninterp spec fn trimmed(s: Seq<char>) -> Seq<char>;

/// What `str::to_lowercase` returns for `s`.
pub uninterp spec fn lowercased(s: Seq<char>) -> Seq<char>;

/// What `str::to_uppercase` returns for `s`.
pub uninterp spec fn uppercased(s: Seq<char>) -> Seq<char>;

/// Calls `str::trim`. The result is named, not described: which characters
/// count as white space is a Unicode table.
#[verifier::external_body]
pub(crate) fn trim(s: &str) -> (r: &str)
    ensures
        r@ == trimmed(s@),
{
    s.trim()
}

/// Calls `str::to_lowercase`. The result is named, not described: the mapping
/// is a Unicode table.
#[verifier::external_body]
pub(crate) fn to_lowercase(s: &str) -> (r: String)
    ensures
        r@ == lowercased(s@),
{
    s.to_lowercase()
}

/// Calls `str::to_uppercase`. The result is named, not described: the mapping
/// is a Unicode table.
#[verifier::external_body]
pub(crate) fn to_uppercase(s: &str) -> (r: String)
    ensures
        r@ == uppercased(s@),
{
    s.to_uppercase()
}

/// The characters of `s`, in order.
pub fn chars_of(s: &str) -> (r: Vec<char>)
    ensures
        r@ == s@,
{
    let mut out: Vec<char> = Vec::new();
    for c in it: s.chars()
        invariant
            it.seq() == s@,
            out@ == it.seq().take(it.index() as int),
    {
        out.push(c);
    }
    out
}

/// The string made of `chars`, in order.
pub fn string_of(chars: &Vec<char>) -> (r: String)
    ensures
        r@ == chars@,
{
    let mut out = String::new();
    let mut i: usize = 0;
    while i < chars.len()
        invariant
            i <= chars.len(),
            out@ == chars@.take(i as int),
        decreases chars.len() - i,
    {
        out.push(chars[i]);
        i += 1;
    }
    out
}

/// A fresh copy of `s`.
pub fn copy_of(s: &str) -> (r: String)
    ensures
        r@ == s@,
{
    let chars = chars_of(s);
    string_of(&chars)
}

/// Whether two strings hold the same characters.
pub fn same_text(a: &str, b: &str) -> (r: bool)
    ensures
        r == (a@ == b@),
{
    let x = chars_of(a);
    let y = chars_of(b);
    same_chars(&x, &y)
}

/// Whether two character vectors are equal.
pub fn same_chars(a: &Vec<char>, b: &Vec<char>) -> (r: bool)
    ensures
        r == (a@ == b@),
{
    if a.len() != b.len() {
        return false;
    }
    let mut i: usize = 0;
    while i < a.len()
        invariant
            i <= a.len(),
            a.len() == b.len(),
            a@.take(i as int) == b@.take(i as int),
        decreases a.len() - i,
    {
        if a[i] != b[i] {
            return false;
        }
        assert(a@.take(i + 1) == a@.take(i as int).push(a@[i as int]));
        assert(b@.take(i + 1) == b@.take(i as int).push(b@[i as int]));
        i += 1;
    }
    assert(a@.take(a.len() as int) == a@);
    assert(b@.take(b.len() as int) == b@);
    true
}

/// `pat` stands in `s` at index `at`.
pub open spec fn occurs_at(s: Seq<char>, at: int, pat: Seq<char>) -> bool {
    0 <= at && at + pat.len() <= s.len() && s.subrange(at, at + pat.len()) == pat
}

/// `pat` stands somewhere in `s`.
pub open spec fn has_occurrence(s: Seq<char>, pat: Seq<char>) -> bool {
    exists|at: int| occurs_at(s, at, pat)
}

/// `at` is the leftmost index at which `pat` stands in `s`.
pub open spec fn is_first_occurrence(s: Seq<char>, at: int, pat: Seq<char>) -> bool {
    occurs_at(s, at, pat) && forall|j: int| 0 <= j < at ==> !occurs_at(s, j, pat)
}

/// `s` with every occurrence of `from` replaced by `to`, scanning from the
/// left and never looking inside a replacement. An empty `from` changes
/// nothing.
pub open spec fn replaced(s: Seq<char>, from: Seq<char>, to: Seq<char>) -> Seq<char>
    decreases s.len(),
{
    if from.len() == 0 || s.len() < from.len() {
        s
    } else if s.take(from.len() as int) == from {
        to + replaced(s.skip(from.len() as int), from, to)
    } else {
        seq![s[0]] + replaced(s.skip(1), from, to)
    }
}

/// Whether `pat` stands in `s` at index `at`.
pub fn matches_at(s: &Vec<char>, at: usize, pat: &Vec<char>) -> (r: bool)
    ensures
        r == occurs_at(s@, at as int, pat@),
{
    if at > s.len() || pat.len() > s.len() - at {
        return false;
    }
    let mut j: usize = 0;
    while j < pat.len()
        invariant
            j <= pat.len(),
            at + pat.len() <= s.len(),
            s@.subrange(at as int, at + j) == pat@.take(j as int),
        decreases pat.len() - j,
    {
        if s[at + j] != pat[j] {
            assert(s@.subrange(at as int, at + pat.len())[j as int] != pat@[j as int]);
            return false;
        }
        assert(s@.subrange(at as int, at + j + 1) == s@.subrange(at as int, at + j).push(
            s@[at + j],
        ));
        assert(pat@.take(j + 1) == pat@.take(j as int).push(pat@[j as int]));
        j += 1;
    }
    assert(pat@.take(pat.len() as int) == pat@);
    true
}

/// The leftmost index at which `pat` stands in `s`, if it stands in `s`.
pub open spec fn first_occurrence(s: Seq<char>, pat: Seq<char>) -> Option<int> {
    if has_occurrence(s, pat) {
        Some(choose|at: int| is_first_occurrence(s, at, pat))
    } else {
        None
    }
}

/// Only one index is the leftmost at which `pat` stands in `s`.
pub proof fn lemma_first_occurrence_unique(s: Seq<char>, pat: Seq<char>, at: int)
    requires
        is_first_occurrence(s, at, pat),
    ensures
        first_occurrence(s, pat) == Some(at),
{
    assert(occurs_at(s, at, pat));
    let other = choose|i: int| is_first_occurrence(s, i, pat);
    if other < at {
        assert(!occurs_at(s, other, pat));
    } else if at < other {
        assert(!occurs_at(s, at, pat));
    }
}

/// The leftmost index at which `pat` stands in `s`, if any.
pub fn find(s: &Vec<char>, pat: &Vec<char>) -> (r: Option<usize>)
    ensures
        match r {
            Some(at) => is_first_occurrence(s@, at as int, pat@) && first_occurrence(s@, pat@)
                == Some(at as int),
            None => !has_occurrence(s@, pat@) && first_occurrence(s@, pat@) is None,
        },
{
    let mut i: usize = 0;
    while i < s.len()
        invariant
            i <= s.len(),
            forall|j: int| 0 <= j < i ==> !occurs_at(s@, j, pat@),
        decreases s.len() - i,
    {
        if matches_at(s, i, pat) {
            proof {
                lemma_first_occurrence_unique(s@, pat@, i as int);
            }
            return Some(i);
        }
        i += 1;
    }
    if matches_at(s, i, pat) {
        proof {
            lemma_first_occurrence_unique(s@, pat@, i as int);
        }
        Some(i)
    } else {
        None
    }
}

/// Whether `pat` stands somewhere in `s`.
pub fn contains(s: &str, pat: &str) -> (r: bool)
    ensures
        r == has_occurrence(s@, pat@),
{
    let text = chars_of(s);
    let needle = chars_of(pat);
    find(&text, &needle).is_some()
}

/// Replaces every occurrence of `from` in `s` by `to`.
pub fn replace_chars(s: &Vec<char>, from: &Vec<char>, to: &Vec<char>) -> (r: Vec<char>)
    ensures
        r@ == replaced(s@, from@, to@),
{
    let mut out: Vec<char> = Vec::new();
    let mut i: usize = 0;
    if from.len() == 0 {
        return s.clone();
    }
    assert(s@.skip(0) == s@);
    assert(out@ + replaced(s@, from@, to@) == replaced(s@, from@, to@));
    while i < s.len()
        invariant
            i <= s.len(),
            from.len() > 0,
            out@ + replaced(s@.skip(i as int), from@, to@) == replaced(s@, from@, to@),
        decreases s.len() - i,
    {
        let ghost rest = s@.skip(i as int);
        let ghost before = out@;
        if matches_at(s, i, from) {
            assert(rest.take(from.len() as int) == s@.subrange(i as int, i + from.len()));
            assert(rest.skip(from.len() as int) == s@.skip(i + from.len()));
            let mut k: usize = 0;
            while k < to.len()
                invariant
                    k <= to.len(),
                    out@ == before + to@.take(k as int),
                decreases to.len() - k,
            {
                out.push(to[k]);
                assert(to@.take(k + 1) == to@.take(k as int).push(to@[k as int]));
                k += 1;
            }
            assert(to@.take(to.len() as int) == to@);
            assert(out@ + replaced(s@.skip(i + from.len()), from@, to@) == before + (to@
                + replaced(rest.skip(from.len() as int), from@, to@)));
            i += from.len();
        } else {
            assert(rest.len() >= from.len() ==> rest.take(from.len() as int) == s@.subrange(
                i as int,
                i + from.len(),
            ));
            if s.len() - i < from.len() {
                // No further occurrence fits: the rest is copied as it stands.
                let mut k: usize = i;
                while k < s.len()
                    invariant
                        i <= k <= s.len(),
                        out@ == before + s@.subrange(i as int, k as int),
                    decreases s.len() - k,
                {
                    out.push(s[k]);
                    assert(s@.subrange(i as int, k + 1) == s@.subrange(i as int, k as int).push(
                        s@[k as int],
                    ));
                    k += 1;
                }
                assert(s@.subrange(i as int, s.len() as int) == rest);
                assert(s@.skip(s.len() as int).len() == 0);
                assert(out@ + replaced(s@.skip(s.len() as int), from@, to@) == before + rest);
                i = s.len();
            } else {
                out.push(s[i]);
                assert(rest.skip(1) == s@.skip(i + 1));
                assert(rest[0] == s@[i as int]);
                assert(out@ + replaced(s@.skip(i + 1), from@, to@) == before + (seq![rest[0]]
                    + replaced(rest.skip(1), from@, to@)));
                i += 1;
            }
        }
    }
    assert(s@.skip(s.len() as int).len() == 0);
    assert(out@ + replaced(s@.skip(s.len() as int), from@, to@) == out@);
    out
}

/// Replaces every occurrence of `from` in `s` by `to`.
pub fn replace(s: &str, from: &str, to: &str) -> (r: String)
    ensures
        r@ == replaced(s@, from@, to@),
{
    let text = chars_of(s);
    let a = chars_of(from);
    let b = chars_of(to);
    let out = replace_chars(&text, &a, &b);
    string_of(&out)
}

/// The characters of `s` from index `from` up to, not including, index `to`.
pub fn slice_of(s: &Vec<char>, from: usize, to: usize) -> (r: String)
    requires
        from <= to <= s.len(),
    ensures
        r@ == s@.subrange(from as int, to as int),
{
    let mut out = String::new();
    let mut i: usize = from;
    while i < to
        invariant
            from <= i <= to,
            to <= s.len(),
            out@ == s@.subrange(from as int, i as int),
        decreases to - i,
    {
        out.push(s[i]);
        assert(s@.subrange(from as int, i + 1) == s@.subrange(from as int, i as int).push(
            s@[i as int],
        ));
        i += 1;
    }
    out
}

/// The first text of `texts` that has anything but white space, trimmed.
pub open spec fn first_nonblank_of(texts: Seq<Seq<char>>) -> Option<Seq<char>>
    decreases texts.len(),
{
    if texts.len() == 0 {
        None
    } else if trimmed(texts[0]).len() > 0 {
        Some(trimmed(texts[0]))
    } else {
        first_nonblank_of(texts.skip(1))
    }
}

/// The texts of `texts` that have anything but white space, each trimmed, in
/// order.
pub open spec fn nonblank_of(texts: Seq<Seq<char>>) -> Seq<Seq<char>>
    decreases texts.len(),
{
    if texts.len() == 0 {
        Seq::empty()
    } else if trimmed(texts.last()).len() > 0 {
        nonblank_of(texts.drop_last()).push(trimmed(texts.last()))
    } else {
        nonblank_of(texts.drop_last())
    }
}

/// The first text of `texts` that has anything but white space, trimmed.
pub fn first_nonblank(texts: &Vec<String>) -> (r: Option<String>)
    ensures
        r.deep_view() == first_nonblank_of(texts.deep_view()),
{
    let mut i: usize = 0;
    assert(texts.deep_view().skip(0) == texts.deep_view());
    while i < texts.len()
        invariant
            i <= texts.len(),
            first_nonblank_of(texts.deep_view().skip(i as int)) == first_nonblank_of(
                texts.deep_view(),
            ),
        decreases texts.len() - i,
    {
        let ghost rest = texts.deep_view().skip(i as int);
        assert(rest[0] == texts[i as int]@);
        assert(rest.skip(1) == texts.deep_view().skip(i + 1));
        let t = trim(texts[i].as_str());
        if !t.is_empty() {
            return Some(copy_of(t));
        }
        i += 1;
    }
    None
}

/// The texts of `texts` that have anything but white space, each trimmed, in
/// order.
pub fn nonblank(texts: &Vec<String>) -> (r: Vec<String>)
    ensures
        r.deep_view() == nonblank_of(texts.deep_view()),
{
    let mut out: Vec<String> = Vec::new();
    let mut i: usize = 0;
    assert(texts.deep_view().take(0) == Seq::<Seq<char>>::empty());
    assert(out.deep_view() == Seq::<Seq<char>>::empty());
    while i < texts.len()
        invariant
            i <= texts.len(),
            out.deep_view() == nonblank_of(texts.deep_view().take(i as int)),
        decreases texts.len() - i,
    {
        let ghost before = texts.deep_view().take(i as int);
        let ghost after = texts.deep_view().take(i + 1);
        let ghost old_out = out.deep_view();
        assert(after.drop_last() == before);
        assert(after.last() == texts[i as int]@);
        let t = trim(texts[i].as_str());
        if !t.is_empty() {
            out.push(copy_of(t));
            assert(out.deep_view() == old_out.push(t@));
        }
        i += 1;
    }
    assert(texts.deep_view().take(texts.len() as int) == texts.deep_view());
    out
}

/// Appends the characters of `more` to `s`.
pub fn push_text(s: &mut String, more: &str)
    ensures
        final(s)@ == old(s)@ + more@,
{
    let ghost before = s@;
    let chars = chars_of(more);
    let mut i: usize = 0;
    assert(before + chars@.take(0) == before);
    while i < chars.len()
        invariant
            i <= chars.len(),
            s@ == before + chars@.take(i as int),
        decreases chars.len() - i,
    {
        s.push(chars[i]);
        assert(before + chars@.take(i + 1) == (before + chars@.take(i as int)).push(chars@[i as int]));
        i += 1;
    }
    assert(chars@.take(chars.len() as int) == chars@);
}

/// The number of characters of `s`.
pub fn char_count(s: &str) -> (r: usize)
    ensures
        r == s@.len(),
{
    chars_of(s).len()
}

/// The part of `s` before the first `sep`, and the part after it; `None`
/// where `sep` does not stand in `s`.
pub open spec fn split_at_first(s: Seq<char>, sep: Seq<char>) -> Option<(Seq<char>, Seq<char>)> {
    match first_occurrence(s, sep) {
        Some(at) => Some((s.take(at), s.skip(at + sep.len()))),
        None => None,
    }
}

/// Splits `s` at the first `sep`.
pub fn split_first(s: &str, sep: &str) -> (r: Option<(String, String)>)
    ensures
        r.deep_view() == split_at_first(s@, sep@),
{
    let text = chars_of(s);
    let mark = chars_of(sep);
    match find(&text, &mark) {
        Some(at) => {
            let head = slice_of(&text, 0, at);
            let tail = slice_of(&text, at + mark.len(), text.len());
            assert(text@.subrange(0, at as int) == text@.take(at as int));
            assert(text@.subrange(at + mark.len(), text.len() as int) == text@.skip(
                at + mark.len(),
            ));
            Some((head, tail))
        },
        None => None,
    }
}

} // verus!
