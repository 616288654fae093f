//! Lexicographic order on state names.
//!
//! The catalog keeps the names of a family sorted in strictly ascending
//! lexicographic order (by character, which for Rust strings coincides with
//! code-point order).  This module defines that order on `Seq<char>`, proves
//! the order facts the catalog needs, and gives executable comparisons.

use vstd::prelude::*;
use vstd::string::StrSliceExecFns;

verus! {

/// Strict lexicographic order on character sequences: `a` comes before `b`
/// when, at the first position where they differ, `a` has the smaller
/// character, or when `a` is a proper prefix of `b`.
pub open spec fn lex_lt(a: Seq<char>, b: Seq<char>) -> bool
    decreases a.len(),
{
    if b.len() == 0 {
        false
    } else if a.len() == 0 {
        true
    } else if a[0] != b[0] {
        (a[0] as u32) < (b[0] as u32)
    } else {
        lex_lt(a.skip(1), b.skip(1))
    }
}

/// The order is transitive.
pub proof fn lemma_lex_lt_transitive(a: Seq<char>, b: Seq<char>, c: Seq<char>)
    requires
        lex_lt(a, b),
        lex_lt(b, c),
    ensures
        lex_lt(a, c),
    decreases a.len(),
{
    if a.len() > 0 && b.len() > 0 && c.len() > 0 && a[0] == b[0] && b[0] == c[0] {
        lemma_lex_lt_transitive(a.skip(1), b.skip(1), c.skip(1));
    }
}

/// Two distinct sequences are ordered one way or the other.
pub proof fn lemma_lex_lt_connected(a: Seq<char>, b: Seq<char>)
    requires
        a != b,
    ensures
        lex_lt(a, b) || lex_lt(b, a),
    decreases a.len(),
{
    if a.len() == 0 && b.len() == 0 {
        assert(a =~= b);
    }
    if a.len() > 0 && b.len() > 0 && a[0] == b[0] {
        if a.skip(1) == b.skip(1) {
            assert(a.skip(1).len() == b.skip(1).len());
            assert(a.len() == b.len());
            assert forall|i: int| 0 <= i < a.len() implies a[i] == b[i] by {
                if i >= 1 {
                    assert(a[i] == a.skip(1)[i - 1]);
                    assert(b[i] == b.skip(1)[i - 1]);
                }
            }
            assert(a =~= b);
        }
        lemma_lex_lt_connected(a.skip(1), b.skip(1));
    } else if a.len() > 0 && b.len() > 0 {
        assert((a[0] as u32) != (b[0] as u32)) by {
            vstd::utf8::char_u32_cast(a[0], a[0] as u32);
            vstd::utf8::char_u32_cast(b[0], b[0] as u32);
        }
    }
}

/// Executable equality of two string slices, by characters.
pub fn str_eq(a: &str, b: &str) -> (r: bool)
    ensures
        r == (a@ == b@),
{
    let a_len = a.unicode_len();
    let b_len = b.unicode_len();
    if a_len != b_len {
        return false;
    }
    let mut i: usize = 0;
    while i < a_len
        invariant
            i <= a_len,
            a_len == a@.len(),
            a_len == b@.len(),
            forall|j: int| 0 <= j < i ==> a@[j] == b@[j],
        decreases a_len - i,
    {
        if a.get_char(i) != b.get_char(i) {
            return false;
        }
        i = i + 1;
    }
    assert(a@ =~= b@);
    true
}

/// Executable strict lexicographic comparison of two string slices.
pub fn str_lt(a: &str, b: &str) -> (r: bool)
    ensures
        r == lex_lt(a@, b@),
{
    let a_len = a.unicode_len();
    let b_len = b.unicode_len();
    let stop: usize = if a_len < b_len { a_len } else { b_len };
    let mut i: usize = 0;
    proof {
        assert(a@.skip(0) =~= a@);
        assert(b@.skip(0) =~= b@);
    }
    while i < stop
        invariant
            i <= stop,
            stop == if a@.len() < b@.len() { a@.len() } else { b@.len() },
            a_len == a@.len(),
            b_len == b@.len(),
            lex_lt(a@, b@) == lex_lt(a@.skip(i as int), b@.skip(i as int)),
        decreases stop - i,
    {
        let ca = a.get_char(i);
        let cb = b.get_char(i);
        if ca != cb {
            assert(a@.skip(i as int)[0] == ca && b@.skip(i as int)[0] == cb);
            return (ca as u32) < (cb as u32);
        }
        proof {
            assert(a@.skip(i as int).skip(1) =~= a@.skip(i + 1));
            assert(b@.skip(i as int).skip(1) =~= b@.skip(i + 1));
        }
        i = i + 1;
    }
    assert(lex_lt(a@, b@) == lex_lt(a@.skip(i as int), b@.skip(i as int)));
    a_len < b_len
}

} // verus!
