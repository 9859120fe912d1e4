//! Character-level text helpers: occurrences of a pattern, and conversion
//! between strings and character vectors.
use vstd::prelude::*;

verus! {

/// `p` occurs in `s` starting at index `i`.
pub open spec fn occurs_at(s: Seq<char>, p: Seq<char>, i: int) -> bool {
    0 <= i && i + p.len() <= s.len() && s.subrange(i, i + p.len()) == p
}

/// The first index at or after `k` where `p` occurs in `s`, or -1 if none.
pub open spec fn find_from(s: Seq<char>, p: Seq<char>, k: int) -> int
    decreases s.len() - k,
{
    if k < 0 || k >= s.len() || k + p.len() > s.len() {
        -1
    } else if occurs_at(s, p, k) {
        k
    } else {
        find_from(s, p, k + 1)
    }
}

/// A match found by `find_from` lies at or after `k` and is an occurrence;
/// when none is found, a non-empty `p` occurs nowhere from `k` on.
pub proof fn lemma_find_from(s: Seq<char>, p: Seq<char>, k: int)
    ensures
        find_from(s, p, k) == -1 || (k <= find_from(s, p, k) && occurs_at(s, p, find_from(s, p, k))),
        0 <= k && p.len() > 0 && find_from(s, p, k) == -1 ==> forall|j: int|
            k <= j ==> !occurs_at(s, p, j),
    decreases s.len() - k,
{
    if !(k < 0 || k >= s.len() || k + p.len() > s.len()) && !occurs_at(s, p, k) {
        lemma_find_from(s, p, k + 1);
    }
}

/// `p` occurs somewhere in `s`.
pub open spec fn contains(s: Seq<char>, p: Seq<char>) -> bool {
    exists|i: int| occurs_at(s, p, i)
}

/// The characters of `text`, in order.
pub fn text_chars(text: &str) -> (r: Vec<char>)
    ensures
        r@ == text@,
{
    let mut out: Vec<char> = Vec::new();
    for c in it: text.chars()
        invariant
            out@ == it.seq().take(it.index() as int),
    {
        out.push(c);
    }
    out
}

/// Whether `p` occurs in `s` at index `i`.
pub fn occurs_at_index(s: &Vec<char>, p: &Vec<char>, i: usize) -> (r: bool)
    ensures
        r == occurs_at(s@, p@, i as int),
{
    if i > s.len() || p.len() > s.len() - i {
        return false;
    }
    let mut j: usize = 0;
    while j < p.len()
        invariant
            i + p.len() <= s.len(),
            j <= p.len(),
            forall|m: int| 0 <= m < j ==> s@[i + m] == p@[m],
        decreases p.len() - j,
    {
        if s[i + j] != p[j] {
            assert(s@.subrange(i as int, i + p.len())[j as int] != p@[j as int]);
            return false;
        }
        j += 1;
    }
    assert(s@.subrange(i as int, i + p.len()) =~= p@);
    true
}

/// The first index at or after `k` where `p` occurs in `s`.
pub fn find_from_index(s: &Vec<char>, p: &Vec<char>, k: usize) -> (r: Option<usize>)
    ensures
        match r {
            Some(j) => find_from(s@, p@, k as int) == j,
            None => find_from(s@, p@, k as int) == -1,
        },
{
    let mut k2: usize = k;
    loop
        invariant
            find_from(s@, p@, k as int) == find_from(s@, p@, k2 as int),
        decreases s.len() - k2,
    {
        if k2 >= s.len() || p.len() > s.len() - k2 {
            return None;
        }
        if occurs_at_index(s, p, k2) {
            return Some(k2);
        }
        k2 += 1;
    }
}

/// Whether `needle` occurs in `text`.
pub fn text_contains(text: &str, needle: &str) -> (r: bool)
    ensures
        r == contains(text@, needle@),
{
    let s = text_chars(text);
    let p = text_chars(needle);
    if p.len() == 0 {
        assert(s@.subrange(0, 0) =~= p@);
        assert(occurs_at(s@, p@, 0));
        return true;
    }
    proof {
        lemma_find_from(s@, p@, 0);
    }
    match find_from_index(&s, &p, 0) {
        Some(j) => {
            assert(occurs_at(s@, p@, j as int));
            true
        },
        None => false,
    }
}

/// Relies on `String: FromIterator<char>`: the string of the given characters, in order.
#[verifier::external_body]
pub(crate) fn chars_to_string(v: &Vec<char>) -> (r: String)
    ensures
        r@ == v@,
{
    v.iter().collect()
}

} // verus!
