//! Removal of the two citation markup forms that a model may emit.
//!
//! A private-use block starts with U+E200 immediately followed by `cite` and
//! runs to the nearest following U+E201; it is deleted whole. An angle block
//! is `<cite|` followed by a payload and the nearest following `|>`; it is
//! replaced by its payload. Private-use blocks go first, then angle blocks.
use std::borrow::Cow;
use crate::text::{
    chars_to_string, find_from, lemma_find_from, occurs_at, text_chars, find_from_index,
    occurs_at_index,
};
use vstd::prelude::*;

verus! {

/// Opening of a private-use citation block.
pub open spec fn pua_open() -> Seq<char> {
    seq!['\u{e200}', 'c', 'i', 't', 'e']
}

/// Closing of a private-use citation block.
pub open spec fn pua_close() -> Seq<char> {
    seq!['\u{e201}']
}

/// Opening of an angle citation block.
pub open spec fn angle_open() -> Seq<char> {
    seq!['<', 'c', 'i', 't', 'e', '|']
}

/// Closing of an angle citation block.
pub open spec fn angle_close() -> Seq<char> {
    seq!['|', '>']
}

/// A private-use block starts at `i`: the opening, then a closing somewhere after it.
pub open spec fn pua_at(s: Seq<char>, i: int) -> bool {
    occurs_at(s, pua_open(), i) && find_from(s, pua_close(), i + 5) >= i + 5
}

/// One past the closing sentinel of the private-use block starting at `i`.
pub open spec fn pua_end(s: Seq<char>, i: int) -> int {
    find_from(s, pua_close(), i + 5) + 1
}

/// An angle block starts at `i`: `<cite|`, then a `|>` somewhere after it.
pub open spec fn angle_at(s: Seq<char>, i: int) -> bool {
    occurs_at(s, angle_open(), i) && find_from(s, angle_close(), i + 6) >= i + 6
}

/// Index of the `|>` that closes the angle block starting at `i`.
pub open spec fn angle_close_at(s: Seq<char>, i: int) -> int {
    find_from(s, angle_close(), i + 6)
}

/// The text contains a private-use block.
pub open spec fn has_pua(s: Seq<char>) -> bool {
    exists|i: int| pua_at(s, i)
}

/// The text contains an angle block.
pub open spec fn has_angle(s: Seq<char>) -> bool {
    exists|i: int| angle_at(s, i)
}

/// The text contains citation markup of either form.
pub open spec fn has_markup(s: Seq<char>) -> bool {
    has_pua(s) || has_angle(s)
}

/// `s` from index `i` on, with every private-use block deleted, scanning
/// left to right and resuming after each deleted block.
pub open spec fn remove_pua_from(s: Seq<char>, i: int) -> Seq<char>
    decreases s.len() - i via remove_pua_from_decreases
{
    if i < 0 || i >= s.len() {
        Seq::empty()
    } else if pua_at(s, i) {
        remove_pua_from(s, pua_end(s, i))
    } else {
        seq![s[i]] + remove_pua_from(s, i + 1)
    }
}

/// `s` from index `i` on, with every angle block replaced by its payload,
/// scanning left to right and resuming after each replaced block.
pub open spec fn unwrap_angle_from(s: Seq<char>, i: int) -> Seq<char>
    decreases s.len() - i via unwrap_angle_from_decreases
{
    if i < 0 || i >= s.len() {
        Seq::empty()
    } else if angle_at(s, i) {
        s.subrange(i + 6, angle_close_at(s, i)) + unwrap_angle_from(s, angle_close_at(s, i) + 2)
    } else {
        seq![s[i]] + unwrap_angle_from(s, i + 1)
    }
}

#[via_fn]
proof fn remove_pua_from_decreases(s: Seq<char>, i: int) {
    lemma_find_from(s, pua_close(), i + 5);
}

#[via_fn]
proof fn unwrap_angle_from_decreases(s: Seq<char>, i: int) {
    lemma_find_from(s, angle_close(), i + 6);
}

/// The text with all private-use blocks deleted.
pub open spec fn remove_pua(s: Seq<char>) -> Seq<char> {
    remove_pua_from(s, 0)
}

/// The text with all angle blocks unwrapped.
pub open spec fn unwrap_angle(s: Seq<char>) -> Seq<char> {
    unwrap_angle_from(s, 0)
}

/// The text with citation markup stripped: private-use blocks deleted,
/// then angle blocks unwrapped.
pub open spec fn stripped(s: Seq<char>) -> Seq<char> {
    unwrap_angle(remove_pua(s))
}

/// Deleting private-use blocks never lengthens the text, shortens it exactly
/// when a block is present, and otherwise leaves it as it was.
pub proof fn lemma_remove_pua_from(s: Seq<char>, i: int)
    requires
        0 <= i <= s.len(),
    ensures
        remove_pua_from(s, i).len() <= s.len() - i,
        (exists|j: int| i <= j && pua_at(s, j)) ==> remove_pua_from(s, i).len() < s.len() - i,
        (forall|j: int| i <= j ==> !pua_at(s, j)) ==> remove_pua_from(s, i) == s.subrange(
            i,
            s.len() as int,
        ),
    decreases s.len() - i,
{
    if i < s.len() {
        if pua_at(s, i) {
            lemma_find_from(s, pua_close(), i + 5);
            lemma_remove_pua_from(s, pua_end(s, i));
        } else {
            lemma_remove_pua_from(s, i + 1);
            if exists|j: int| i <= j && pua_at(s, j) {
                let j = choose|j: int| i <= j && pua_at(s, j);
                assert(i + 1 <= j);
            }
            if forall|j: int| i <= j ==> !pua_at(s, j) {
                assert(forall|j: int| i + 1 <= j ==> !pua_at(s, j));
                assert(seq![s[i]] + s.subrange(i + 1, s.len() as int) =~= s.subrange(
                    i,
                    s.len() as int,
                ));
            }
        }
    } else {
        assert(forall|j: int| i <= j ==> !pua_at(s, j));
        assert(s.subrange(i, s.len() as int) =~= Seq::<char>::empty());
    }
}

/// Unwrapping angle blocks never lengthens the text, shortens it exactly
/// when a block is present, and otherwise leaves it as it was.
pub proof fn lemma_unwrap_angle_from(s: Seq<char>, i: int)
    requires
        0 <= i <= s.len(),
    ensures
        unwrap_angle_from(s, i).len() <= s.len() - i,
        (exists|j: int| i <= j && angle_at(s, j)) ==> unwrap_angle_from(s, i).len() < s.len()
            - i,
        (forall|j: int| i <= j ==> !angle_at(s, j)) ==> unwrap_angle_from(s, i) == s.subrange(
            i,
            s.len() as int,
        ),
    decreases s.len() - i,
{
    if i < s.len() {
        if angle_at(s, i) {
            lemma_find_from(s, angle_close(), i + 6);
            lemma_unwrap_angle_from(s, angle_close_at(s, i) + 2);
        } else {
            lemma_unwrap_angle_from(s, i + 1);
            if exists|j: int| i <= j && angle_at(s, j) {
                let j = choose|j: int| i <= j && angle_at(s, j);
                assert(i + 1 <= j);
            }
            if forall|j: int| i <= j ==> !angle_at(s, j) {
                assert(forall|j: int| i + 1 <= j ==> !angle_at(s, j));
                assert(seq![s[i]] + s.subrange(i + 1, s.len() as int) =~= s.subrange(
                    i,
                    s.len() as int,
                ));
            }
        }
    } else {
        assert(forall|j: int| i <= j ==> !angle_at(s, j));
        assert(s.subrange(i, s.len() as int) =~= Seq::<char>::empty());
    }
}

/// Stripping leaves a text unchanged exactly when it holds no citation markup.
pub proof fn lemma_stripped_unchanged(s: Seq<char>)
    ensures
        stripped(s) == s <==> !has_markup(s),
{
    lemma_remove_pua_from(s, 0);
    let r = remove_pua(s);
    lemma_unwrap_angle_from(r, 0);
    assert(s.subrange(0, s.len() as int) =~= s);
    assert(r.subrange(0, r.len() as int) =~= r);
    if has_pua(s) {
        let j = choose|j: int| pua_at(s, j);
        assert(0 <= j && pua_at(s, j));
        assert(stripped(s).len() < s.len());
    } else if has_angle(s) {
        assert(forall|j: int| 0 <= j ==> !pua_at(s, j));
        let j = choose|j: int| angle_at(s, j);
        assert(0 <= j && angle_at(r, j));
        assert(stripped(s).len() < s.len());
    } else {
        assert(forall|j: int| 0 <= j ==> !pua_at(s, j));
        assert(forall|j: int| 0 <= j ==> !angle_at(r, j));
    }
}

/// Stripping twice gives what stripping once gives exactly when the first
/// pass leaves no citation markup behind. (A block can be pieced together
/// by a pass: deleting the inner block of `\u{e200}\u{e200}cite x\u{e201}cite
/// y\u{e201}` leaves a new one.)
pub proof fn lemma_strip_idempotent(s: Seq<char>)
    ensures
        stripped(stripped(s)) == stripped(s) <==> !has_markup(stripped(s)),
{
    lemma_stripped_unchanged(stripped(s));
}

/// One past the end of the private-use block that starts at `i`, if one does.
fn pua_end_index(s: &Vec<char>, i: usize) -> (r: Option<usize>)
    ensures
        r is Some == pua_at(s@, i as int),
        r is Some ==> r->0 == pua_end(s@, i as int) && i < r->0 <= s.len(),
{
    let open = vec!['\u{e200}', 'c', 'i', 't', 'e'];
    let close = vec!['\u{e201}'];
    assert(open@ =~= pua_open());
    assert(close@ =~= pua_close());
    if !occurs_at_index(s, &open, i) {
        return None;
    }
    assert(i + 5 <= s.len());
    proof {
        lemma_find_from(s@, pua_close(), i + 5);
    }
    match find_from_index(s, &close, i + 5) {
        Some(j) => Some(j + 1),
        None => None,
    }
}

/// Index of the `|>` that closes the angle block that starts at `i`, if one does.
fn angle_close_index(s: &Vec<char>, i: usize) -> (r: Option<usize>)
    ensures
        r is Some == angle_at(s@, i as int),
        r is Some ==> r->0 == angle_close_at(s@, i as int) && i + 6 <= r->0 && r->0 + 2 <= s.len(),
{
    let open = vec!['<', 'c', 'i', 't', 'e', '|'];
    let close = vec!['|', '>'];
    assert(open@ =~= angle_open());
    assert(close@ =~= angle_close());
    if !occurs_at_index(s, &open, i) {
        return None;
    }
    assert(i + 6 <= s.len());
    proof {
        lemma_find_from(s@, angle_close(), i + 6);
    }
    find_from_index(s, &close, i + 6)
}

/// Whether `s` holds a private-use block.
fn contains_pua(s: &Vec<char>) -> (r: bool)
    ensures
        r == has_pua(s@),
{
    let mut i: usize = 0;
    while i < s.len()
        invariant
            i <= s.len(),
            forall|j: int| 0 <= j < i ==> !pua_at(s@, j),
        decreases s.len() - i,
    {
        if pua_end_index(s, i).is_some() {
            assert(pua_at(s@, i as int));
            return true;
        }
        i += 1;
    }
    assert forall|j: int| !pua_at(s@, j) by {
        if 0 <= j < i {
        } else {
            assert(!occurs_at(s@, pua_open(), j));
        }
    }
    false
}

/// Whether `s` holds an angle block.
fn contains_angle(s: &Vec<char>) -> (r: bool)
    ensures
        r == has_angle(s@),
{
    let mut i: usize = 0;
    while i < s.len()
        invariant
            i <= s.len(),
            forall|j: int| 0 <= j < i ==> !angle_at(s@, j),
        decreases s.len() - i,
    {
        if angle_close_index(s, i).is_some() {
            assert(angle_at(s@, i as int));
            return true;
        }
        i += 1;
    }
    assert forall|j: int| !angle_at(s@, j) by {
        if 0 <= j < i {
        } else {
            assert(!occurs_at(s@, angle_open(), j));
        }
    }
    false
}

/// `s` with every private-use block deleted.
fn remove_pua_chars(s: &Vec<char>) -> (r: Vec<char>)
    ensures
        r@ == remove_pua(s@),
{
    let mut out: Vec<char> = Vec::new();
    let mut i: usize = 0;
    while i < s.len()
        invariant
            i <= s.len(),
            out@ + remove_pua_from(s@, i as int) == remove_pua(s@),
        decreases s.len() - i,
    {
        match pua_end_index(s, i) {
            Some(e) => {
                i = e;
            },
            None => {
                let ghost prev = out@;
                out.push(s[i]);
                assert(out@ + remove_pua_from(s@, i + 1) =~= prev + remove_pua_from(s@, i as int));
                i += 1;
            },
        }
    }
    assert(out@ + remove_pua_from(s@, i as int) =~= out@);
    out
}

/// `s` with every angle block replaced by its payload.
fn unwrap_angle_chars(s: &Vec<char>) -> (r: Vec<char>)
    ensures
        r@ == unwrap_angle(s@),
{
    let mut out: Vec<char> = Vec::new();
    let mut i: usize = 0;
    while i < s.len()
        invariant
            i <= s.len(),
            out@ + unwrap_angle_from(s@, i as int) == unwrap_angle(s@),
        decreases s.len() - i,
    {
        match angle_close_index(s, i) {
            Some(c) => {
                let ghost prev = out@;
                let mut m: usize = i + 6;
                while m < c
                    invariant
                        i + 6 <= m <= c,
                        c + 2 <= s.len(),
                        out@ == prev + s@.subrange(i + 6, m as int),
                    decreases c - m,
                {
                    out.push(s[m]);
                    assert(s@.subrange(i + 6, m + 1) =~= s@.subrange(i + 6, m as int).push(s@[m as int]));
                    m += 1;
                }
                assert(out@ + unwrap_angle_from(s@, c + 2) =~= prev + unwrap_angle_from(s@, i as int));
                i = c + 2;
            },
            None => {
                let ghost prev = out@;
                out.push(s[i]);
                assert(out@ + unwrap_angle_from(s@, i + 1) =~= prev + unwrap_angle_from(s@, i as int));
                i += 1;
            },
        }
    }
    assert(out@ + unwrap_angle_from(s@, i as int) =~= out@);
    out
}

/// Strips citation markup so that it does not reach user-visible text.
///
/// Private-use blocks are deleted, then angle blocks are replaced by their
/// payload. When the text holds neither, it is handed back borrowed, with
/// nothing allocated.
pub fn strip_citation_markup(text: &str) -> (r: Cow<'_, str>)
    ensures
        r@ == stripped(text@),
        r is Borrowed <==> !has_markup(text@),
        r matches Cow::Borrowed(t) ==> t == text,
{
    let chars = text_chars(text);
    if contains_pua(&chars) {
        let removed = remove_pua_chars(&chars);
        if contains_angle(&removed) {
            Cow::Owned(chars_to_string(&unwrap_angle_chars(&removed)))
        } else {
            proof {
                lemma_unwrap_angle_from(removed@, 0);
                assert(removed@.subrange(0, removed@.len() as int) =~= removed@);
            }
            Cow::Owned(chars_to_string(&removed))
        }
    } else if contains_angle(&chars) {
        proof {
            lemma_remove_pua_from(chars@, 0);
            assert(chars@.subrange(0, chars@.len() as int) =~= chars@);
        }
        Cow::Owned(chars_to_string(&unwrap_angle_chars(&chars)))
    } else {
        proof {
            lemma_stripped_unchanged(text@);
        }
        Cow::Borrowed(text)
    }
}

} // verus!
