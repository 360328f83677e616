//! Byte-level substring search: the primitive that tag extraction and
//! entry segmentation are built on.

use vstd::prelude::*;

verus! {

/// `pat` occurs in `s` starting exactly at index `i`.
pub open spec fn match_at(s: Seq<u8>, pat: Seq<u8>, i: int) -> bool {
    &&& 0 <= i
    &&& i + pat.len() <= s.len()
    &&& forall|k: int| 0 <= k < pat.len() ==> s[i + k] == pat[k]
}

/// The index of the first occurrence of `pat` in `s` at or after `from`,
/// or `None` when there is none.
pub open spec fn first_match_from(s: Seq<u8>, pat: Seq<u8>, from: int) -> Option<int>
    decreases s.len() - from,
{
    if from + pat.len() > s.len() {
        None
    } else if match_at(s, pat, from) {
        Some(from)
    } else {
        first_match_from(s, pat, from + 1)
    }
}

/// What `first_match_from` returns is a match, is the earliest one at or
/// after `from`, and when it returns `None` there is no match there at all.
pub proof fn lemma_first_match_from(s: Seq<u8>, pat: Seq<u8>, from: int)
    ensures
        match first_match_from(s, pat, from) {
            Some(i) => from <= i && match_at(s, pat, i) && forall|j: int|
                from <= j < i ==> !match_at(s, pat, j),
            None => forall|j: int| from <= j ==> !match_at(s, pat, j),
        },
    decreases s.len() - from,
{
    if from + pat.len() > s.len() {
        assert forall|j: int| from <= j implies !match_at(s, pat, j) by {
            assert(j + pat.len() > s.len());
        }
    } else if match_at(s, pat, from) {
    } else {
        lemma_first_match_from(s, pat, from + 1);
    }
}

/// A match at a known position, with no match before it at or after `from`,
/// is exactly what `first_match_from` returns.
pub proof fn lemma_first_match_from_is(s: Seq<u8>, pat: Seq<u8>, from: int, i: int)
    requires
        match_at(s, pat, i),
        from <= i,
        forall|j: int| from <= j < i ==> !match_at(s, pat, j),
    ensures
        first_match_from(s, pat, from) == Some(i),
    decreases s.len() - from,
{
    if from == i {
    } else {
        lemma_first_match_from_is(s, pat, from + 1, i);
    }
}

/// Compares `pat` against the bytes of `s` starting at `i`.
pub fn bytes_match_at(s: &[u8], pat: &[u8], i: usize) -> (r: bool)
    requires
        i + pat@.len() <= s@.len(),
    ensures
        r == match_at(s@, pat@, i as int),
{
    let n: usize = s.len();
    let mut j: usize = 0;
    while j < pat.len()
        invariant
            n == s@.len(),
            i + pat@.len() <= n,
            j <= pat@.len(),
            forall|k: int| 0 <= k < j ==> s@[i + k] == pat@[k],
        decreases pat@.len() - j,
    {
        if s[i + j] != pat[j] {
            assert(!match_at(s@, pat@, i as int)) by {
                assert(s@[i + j as int] != pat@[j as int]);
            }
            return false;
        }
        j += 1;
    }
    true
}

/// Finds the first occurrence of `pat` in `s` at or after `from`, as
/// `str::find` on a suffix would.
pub fn find_sub(s: &[u8], pat: &[u8], from: usize) -> (r: Option<usize>)
    ensures
        match r {
            Some(i) => first_match_from(s@, pat@, from as int) == Some(i as int),
            None => first_match_from(s@, pat@, from as int) is None,
        },
{
    if pat.len() > s.len() || from > s.len() - pat.len() {
        assert(first_match_from(s@, pat@, from as int) is None);
        return None;
    }
    let mut i = from;
    while i <= s.len() - pat.len()
        invariant
            pat@.len() <= s@.len(),
            from <= i,
            i <= s@.len() - pat@.len() + 1,
            first_match_from(s@, pat@, from as int) == first_match_from(s@, pat@, i as int),
        decreases s@.len() - pat@.len() + 1 - i,
    {
        if bytes_match_at(s, pat, i) {
            assert(first_match_from(s@, pat@, i as int) == Some(i as int));
            return Some(i);
        }
        assert(first_match_from(s@, pat@, i as int) == first_match_from(s@, pat@, i + 1));
        i += 1;
    }
    assert(first_match_from(s@, pat@, i as int) is None);
    None
}

/// `pat` occurs somewhere in `s`.
pub open spec fn contains_sub(s: Seq<u8>, pat: Seq<u8>) -> bool {
    exists|i: int| match_at(s, pat, i)
}

/// Decides whether `pat` occurs anywhere in `s`, as `str::contains` would.
pub fn contains_bytes(s: &[u8], pat: &[u8]) -> (r: bool)
    ensures
        r == contains_sub(s@, pat@),
{
    let r = find_sub(s, pat, 0);
    proof {
        lemma_first_match_from(s@, pat@, 0);
        if r is Some {
            assert(match_at(s@, pat@, first_match_from(s@, pat@, 0)->Some_0));
        } else {
            assert forall|i: int| !match_at(s@, pat@, i) by {
                if i < 0 {
                } else {
                    assert(0 <= i);
                }
            }
        }
    }
    r.is_some()
}

} // verus!
