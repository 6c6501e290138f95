//! Character-level helpers for working with `&str` and `String` values:
//! equality, prefix tests, substring search and whitespace trimming.

use vstd::prelude::*;

verus! {

/// The whitespace characters recognised when trimming a metadata header:
/// the Unicode white-space set.
pub open spec fn is_space(c: char) -> bool {
    c == ' ' || c == '\t' || c == '\n' || c == '\r' || c == '\x0b' || c == '\x0c' || c
        == '\u{85}' || c == '\u{a0}' || c == '\u{1680}' || ('\u{2000}' <= c && c <= '\u{200a}')
        || c == '\u{2028}' || c == '\u{2029}' || c == '\u{202f}' || c == '\u{205f}' || c
        == '\u{3000}'
}

/// The view of an optional owned string.
pub open spec fn view_opt(o: Option<String>) -> Option<Seq<char>> {
    match o {
        Option::Some(s) => Option::Some(s@),
        Option::None => Option::None,
    }
}

/// Character-for-character equality of two string slices.
pub fn str_eq(a: &str, b: &str) -> (r: bool)
    ensures
        r == (a@ == b@),
{
    let alen = a.unicode_len();
    let blen = b.unicode_len();
    if alen != blen {
        assert(a@ != b@) by {
            assert(a@.len() != b@.len());
        }
        return false;
    }
    let mut i: usize = 0;
    while i < alen
        invariant
            alen == a@.len(),
            alen == b@.len(),
            i <= alen,
            forall|j: int| 0 <= j < i ==> a@[j] == b@[j],
        decreases alen - i,
    {
        if a.get_char(i) != b.get_char(i) {
            return false;
        }
        i += 1;
    }
    proof {
        assert(a@ =~= b@);
    }
    true
}

/// Whether `p` occurs in `s` at position `at`.
pub open spec fn matches_at(s: Seq<char>, p: Seq<char>, at: int) -> bool {
    0 <= at && at + p.len() <= s.len() && s.subrange(at, at + p.len()) == p
}

/// The first position `>= from` where `p` occurs in `s`, if any.
pub open spec fn find_sub(s: Seq<char>, p: Seq<char>, from: int) -> Option<int>
    recommends
        0 <= from,
    decreases s.len() + 1 - from,
{
    if from + p.len() > s.len() || from > s.len() {
        Option::None
    } else if matches_at(s, p, from) {
        Option::Some(from)
    } else {
        find_sub(s, p, from + 1)
    }
}

/// Whether `s` starts with `p`.
pub open spec fn starts_with(s: Seq<char>, p: Seq<char>) -> bool {
    matches_at(s, p, 0)
}

/// Tests whether `p` occurs in `s` at position `at`.
pub fn match_at(s: &str, p: &str, at: usize) -> (r: bool)
    ensures
        r == matches_at(s@, p@, at as int),
{
    let slen = s.unicode_len();
    let plen = p.unicode_len();
    if at > slen || plen > slen - at {
        return false;
    }
    let mut i: usize = 0;
    while i < plen
        invariant
            slen == s@.len(),
            plen == p@.len(),
            at + plen <= slen,
            i <= plen,
            forall|j: int| 0 <= j < i ==> s@[at + j] == p@[j],
        decreases plen - i,
    {
        if s.get_char(at + i) != p.get_char(i) {
            assert(s@.subrange(at as int, at + p@.len())[i as int] == s@[at + i]);
            return false;
        }
        i += 1;
    }
    proof {
        assert(s@.subrange(at as int, at + p@.len()) =~= p@);
    }
    true
}

/// Finds the first occurrence of `p` in `s` at a position `>= from`.
pub fn find_sub_from(s: &str, p: &str, from: usize) -> (r: Option<usize>)
    ensures
        match r {
            Option::Some(i) => Option::Some(i as int) == find_sub(s@, p@, from as int),
            Option::None => find_sub(s@, p@, from as int) is None,
        },
{
    let slen = s.unicode_len();
    let plen = p.unicode_len();
    if from > slen {
        return None;
    }
    if plen == 0 {
        assert(s@.subrange(from as int, from as int) =~= p@);
        return Some(from);
    }
    let mut i: usize = from;
    loop
        invariant
            slen == s@.len(),
            plen == p@.len(),
            1 <= plen,
            from <= i <= slen + 1,
            find_sub(s@, p@, from as int) == find_sub(s@, p@, i as int),
        decreases slen + 1 - i,
    {
        if plen > slen || i > slen - plen {
            assert(find_sub(s@, p@, i as int) is None) by {
                lemma_find_sub_none(s@, p@, i as int);
            }
            return None;
        }
        if match_at(s, p, i) {
            return Some(i);
        }
        i += 1;
    }
}

proof fn lemma_find_sub_none(s: Seq<char>, p: Seq<char>, from: int)
    requires
        from + p.len() > s.len() || from > s.len(),
    ensures
        find_sub(s, p, from) is None,
    decreases s.len() - from,
{
    if !(from + p.len() > s.len() || from > s.len()) {
    } else {
    }
}

/// Tests whether `s` starts with `p`.
pub fn has_prefix(s: &str, p: &str) -> (r: bool)
    ensures
        r == starts_with(s@, p@),
{
    match_at(s, p, 0)
}

/// Copies the characters of `s` between positions `from` and `to` into an
/// owned string.
pub fn substring(s: &str, from: usize, to: usize) -> (r: String)
    requires
        from <= to <= s@.len(),
    ensures
        r@ == s@.subrange(from as int, to as int),
{
    let piece = s.substring_char(from, to);
    piece.to_owned()
}

/// The position of the first character of `s` at or after `from` that is not
/// whitespace, or `s.len()` if there is none.
pub open spec fn skip_spaces(s: Seq<char>, from: int) -> int
    recommends
        0 <= from <= s.len(),
    decreases s.len() - from,
{
    if from < 0 || from >= s.len() {
        s.len() as int
    } else if is_space(s[from]) {
        skip_spaces(s, from + 1)
    } else {
        from
    }
}

/// The position one past the last character of `s` before `upto` that is not
/// whitespace, or `0` if there is none.
pub open spec fn rskip_spaces(s: Seq<char>, upto: int) -> int
    recommends
        0 <= upto <= s.len(),
    decreases upto,
{
    if upto <= 0 {
        0
    } else if is_space(s[upto - 1]) {
        rskip_spaces(s, upto - 1)
    } else {
        upto
    }
}

/// `s` with leading and trailing whitespace removed.
pub open spec fn trim_spec(s: Seq<char>) -> Seq<char> {
    let lo = skip_spaces(s, 0);
    let hi = rskip_spaces(s, s.len() as int);
    if lo <= hi {
        s.subrange(lo, hi)
    } else {
        Seq::empty()
    }
}

proof fn lemma_skip_spaces_bounds(s: Seq<char>, from: int)
    requires
        0 <= from <= s.len(),
    ensures
        from <= skip_spaces(s, from) <= s.len(),
    decreases s.len() - from,
{
    if from < s.len() && is_space(s[from]) {
        lemma_skip_spaces_bounds(s, from + 1);
    }
}

proof fn lemma_rskip_spaces_bounds(s: Seq<char>, upto: int)
    requires
        0 <= upto <= s.len(),
    ensures
        0 <= rskip_spaces(s, upto) <= upto,
    decreases upto,
{
    if upto > 0 && is_space(s[upto - 1]) {
        lemma_rskip_spaces_bounds(s, upto - 1);
    }
}

/// Tests whether character `i` of `s` is whitespace.
fn space_at(s: &str, i: usize) -> (r: bool)
    requires
        i < s@.len(),
    ensures
        r == is_space(s@[i as int]),
{
    let c = s.get_char(i);
    c == ' ' || c == '\t' || c == '\n' || c == '\r' || c == '\x0b' || c == '\x0c' || c
        == '\u{85}' || c == '\u{a0}' || c == '\u{1680}' || ('\u{2000}' <= c && c <= '\u{200a}')
        || c == '\u{2028}' || c == '\u{2029}' || c == '\u{202f}' || c == '\u{205f}' || c
        == '\u{3000}'
}

/// Removes leading and trailing whitespace from `s`.
pub fn trim(s: &str) -> (r: String)
    ensures
        r@ == trim_spec(s@),
{
    let len = s.unicode_len();
    let mut lo: usize = 0;
    while lo < len && space_at(s, lo)
        invariant
            len == s@.len(),
            0 <= lo <= len,
            skip_spaces(s@, 0) == skip_spaces(s@, lo as int),
        decreases len - lo,
    {
        lo += 1;
    }
    assert(skip_spaces(s@, lo as int) == lo);
    let mut hi: usize = len;
    while hi > lo && space_at(s, hi - 1)
        invariant
            len == s@.len(),
            lo <= hi <= len,
            skip_spaces(s@, 0) == lo,
            rskip_spaces(s@, len as int) == rskip_spaces(s@, hi as int),
        decreases hi,
    {
        hi -= 1;
    }
    assert(rskip_spaces(s@, hi as int) == hi || rskip_spaces(s@, hi as int) <= lo) by {
        if hi > lo {
        } else {
            lemma_rskip_spaces_bounds(s@, hi as int);
        }
    }
    if hi <= lo {
        proof {
            lemma_rskip_trapped(s@, hi as int, lo as int);
        }
        String::new()
    } else {
        substring(s, lo, hi)
    }
}

proof fn lemma_rskip_trapped(s: Seq<char>, upto: int, lo: int)
    requires
        0 <= upto <= lo <= s.len(),
        skip_spaces(s, 0) == lo,
        rskip_spaces(s, s.len() as int) == rskip_spaces(s, upto),
    ensures
        trim_spec(s) =~= Seq::<char>::empty(),
    decreases upto,
{
    lemma_rskip_spaces_bounds(s, upto);
    let h = rskip_spaces(s, upto);
    if h > 0 {
        lemma_rskip_stops(s, upto);
        lemma_skip_below_all_spaces(s, 0, h - 1, lo);
        assert(false);
    }
}

proof fn lemma_rskip_stops(s: Seq<char>, upto: int)
    requires
        0 <= upto <= s.len(),
        rskip_spaces(s, upto) > 0,
    ensures
        !is_space(s[rskip_spaces(s, upto) - 1]),
    decreases upto,
{
    if upto > 0 && is_space(s[upto - 1]) {
        lemma_rskip_stops(s, upto - 1);
    }
}

proof fn lemma_skip_below_all_spaces(s: Seq<char>, from: int, i: int, lo: int)
    requires
        0 <= from <= i <= lo <= s.len(),
        skip_spaces(s, from) == lo,
    ensures
        i < lo ==> is_space(s[i]),
    decreases i - from,
{
    lemma_skip_spaces_bounds(s, from);
    if from < i && from < s.len() && is_space(s[from]) {
        lemma_skip_below_all_spaces(s, from + 1, i, lo);
    }
}

} // verus!
