//! The tag extractor: pulls the substring strictly between the first
//! occurrence of a start tag and the first occurrence of an end tag after
//! it, and strips CDATA markers from field values.

use vstd::prelude::*;

use crate::search::{
    bytes_match_at, find_sub, first_match_from, lemma_first_match_from, lemma_first_match_from_is,
    match_at,
};
use crate::tags::{cdata_close, cdata_open, spec_cdata_close, spec_cdata_open};

verus! {

/// The text strictly between the first occurrence of `start_tag` and the
/// first occurrence of `end_tag` after it, or `None` when either tag is
/// absent.
pub open spec fn spec_extract(content: Seq<u8>, start_tag: Seq<u8>, end_tag: Seq<u8>) -> Option<
    Seq<u8>,
> {
    match first_match_from(content, start_tag, 0) {
        None => None,
        Some(s) => {
            let sp = s + start_tag.len();
            match first_match_from(content, end_tag, sp) {
                None => None,
                Some(e) => Some(content.subrange(sp, e)),
            }
        },
    }
}

/// Finds the first `start_tag` in `content`; from immediately after it,
/// finds the first `end_tag`; returns the bytes strictly between the two,
/// untrimmed. `None` when either search fails, even if the start tag was
/// found.
pub fn extract(content: &[u8], start_tag: &[u8], end_tag: &[u8]) -> (r: Option<Vec<u8>>)
    ensures
        match r {
            Some(v) => spec_extract(content@, start_tag@, end_tag@) == Some(v@),
            None => spec_extract(content@, start_tag@, end_tag@) is None,
        },
{
    let clen = content.len();
    match find_sub(content, start_tag, 0) {
        None => None,
        Some(s) => {
            proof {
                lemma_first_match_from(content@, start_tag@, 0);
                assert(s + start_tag@.len() <= clen);
            }
            let sp = s + start_tag.len();
            match find_sub(content, end_tag, sp) {
                None => None,
                Some(e) => {
                    proof {
                        lemma_first_match_from(content@, end_tag@, sp as int);
                    }
                    let mut v: Vec<u8> = Vec::new();
                    let mut k = sp;
                    while k < e
                        invariant
                            sp <= k <= e,
                            e <= content@.len(),
                            v@.len() == k - sp,
                            forall|t: int| 0 <= t < v@.len() ==> v@[t] == content@[sp + t],
                        decreases e - k,
                    {
                        v.push(content[k]);
                        k += 1;
                    }
                    assert(v@ =~= content@.subrange(sp as int, e as int));
                    Some(v)
                },
            }
        },
    }
}

/// `s` with every occurrence of `pat` removed, scanning left to right and
/// never rescanning removed text, as `str::replace(pat, "")` does.
pub open spec fn remove_all(s: Seq<u8>, pat: Seq<u8>) -> Seq<u8>
    decreases s.len(),
{
    if pat.len() == 0 || s.len() == 0 {
        s
    } else if match_at(s, pat, 0) {
        remove_all(s.subrange(pat.len() as int, s.len() as int), pat)
    } else {
        seq![s[0]] + remove_all(s.subrange(1, s.len() as int), pat)
    }
}

/// A match of `pat` inside the suffix of `s` that starts at `c` is a match
/// of `pat` in `s` at the shifted position.
proof fn lemma_match_at_suffix(s: Seq<u8>, pat: Seq<u8>, c: int)
    requires
        0 <= c <= s.len(),
    ensures
        match_at(s.subrange(c, s.len() as int), pat, 0) == match_at(s, pat, c),
{
    let t = s.subrange(c, s.len() as int);
    if match_at(t, pat, 0) {
        assert forall|k: int| 0 <= k < pat.len() implies s[c + k] == pat[k] by {
            assert(t[k] == pat[k]);
        }
    }
    if match_at(s, pat, c) {
        assert forall|k: int| 0 <= k < pat.len() implies t[0 + k] == pat[k] by {
            assert(t[k] == s[c + k]);
        }
    }
}

/// Removes every occurrence of `pat` from `s`, scanning left to right.
pub fn remove_occurrences(s: &[u8], pat: &[u8]) -> (r: Vec<u8>)
    ensures
        r@ == remove_all(s@, pat@),
{
    let n = s.len();
    let mut out: Vec<u8> = Vec::new();
    let mut c: usize = 0;
    proof {
        assert(s@.subrange(0, s@.len() as int) =~= s@);
        assert(Seq::<u8>::empty() + remove_all(s@, pat@) =~= remove_all(s@, pat@));
    }
    while c < n
        invariant
            c <= n,
            n == s@.len(),
            remove_all(s@, pat@) == out@ + remove_all(
                s@.subrange(c as int, s@.len() as int),
                pat@,
            ),
        decreases n - c,
    {
        let ghost t = s@.subrange(c as int, s@.len() as int);
        proof {
            lemma_match_at_suffix(s@, pat@, c as int);
        }
        if pat.len() >= 1 && pat.len() <= n - c && bytes_match_at(s, pat, c) {
            proof {
                assert(remove_all(t, pat@) == remove_all(
                    t.subrange(pat@.len() as int, t.len() as int),
                    pat@,
                ));
                assert(t.subrange(pat@.len() as int, t.len() as int) =~= s@.subrange(
                    c + pat@.len(),
                    s@.len() as int,
                ));
            }
            c += pat.len();
        } else {
            proof {
                if pat@.len() == 0 || !match_at(s@, pat@, c as int) {
                } else {
                    assert(c + pat@.len() > s@.len());
                    assert(!match_at(s@, pat@, c as int));
                }
                assert(remove_all(t, pat@) == seq![t[0]] + remove_all(
                    t.subrange(1, t.len() as int),
                    pat@,
                ));
                assert(t.subrange(1, t.len() as int) =~= s@.subrange(
                    c + 1,
                    s@.len() as int,
                ));
                assert(t[0] == s@[c as int]);
                assert(out@ + (seq![s@[c as int]] + remove_all(
                    s@.subrange(c + 1, s@.len() as int),
                    pat@,
                )) =~= out@.push(s@[c as int]) + remove_all(
                    s@.subrange(c + 1, s@.len() as int),
                    pat@,
                ));
            }
            out.push(s[c]);
            c += 1;
        }
    }
    proof {
        assert(s@.subrange(c as int, s@.len() as int) =~= Seq::<u8>::empty());
        assert(remove_all(Seq::<u8>::empty(), pat@) == Seq::<u8>::empty());
        assert(out@ + Seq::<u8>::empty() =~= out@);
    }
    out
}

/// A field value with both CDATA markers removed: first every `<![CDATA[`,
/// then every `]]>`.
pub open spec fn spec_strip_cdata(s: Seq<u8>) -> Seq<u8> {
    remove_all(remove_all(s, spec_cdata_open()), spec_cdata_close())
}

/// Removes the literal `<![CDATA[` and `]]>` marker substrings wherever they
/// occur in `s`, not merely when they wrap it.
pub fn strip_cdata(s: &[u8]) -> (r: Vec<u8>)
    ensures
        r@ == spec_strip_cdata(s@),
{
    let open = cdata_open();
    let close = cdata_close();
    let once = remove_occurrences(s, open.as_slice());
    remove_occurrences(once.as_slice(), close.as_slice())
}

/// `extract`, post-processed for field values: CDATA markers are stripped
/// from the extracted text.
pub open spec fn spec_extract_field(content: Seq<u8>, start_tag: Seq<u8>, end_tag: Seq<u8>) -> Option<
    Seq<u8>,
> {
    match spec_extract(content, start_tag, end_tag) {
        None => None,
        Some(v) => Some(spec_strip_cdata(v)),
    }
}

/// The field-value variant of `extract`: the returned text additionally has
/// CDATA markers stripped.
pub fn extract_field(content: &[u8], start_tag: &[u8], end_tag: &[u8]) -> (r: Option<Vec<u8>>)
    ensures
        match r {
            Some(v) => spec_extract_field(content@, start_tag@, end_tag@) == Some(v@),
            None => spec_extract_field(content@, start_tag@, end_tag@) is None,
        },
{
    match extract(content, start_tag, end_tag) {
        None => None,
        Some(v) => Some(strip_cdata(v.as_slice())),
    }
}

/// Extraction correctness: wherever `content` is `pre + start_tag + x +
/// end_tag + post` with no earlier occurrence of the start tag and no
/// occurrence of the end tag inside `x` or overlapping its edges, `extract`
/// returns exactly `x`.
pub proof fn lemma_extract_exact(
    content: Seq<u8>,
    start_tag: Seq<u8>,
    end_tag: Seq<u8>,
    pre: Seq<u8>,
    x: Seq<u8>,
    post: Seq<u8>,
)
    requires
        content == pre + start_tag + x + end_tag + post,
        forall|j: int| 0 <= j < pre.len() ==> !match_at(content, start_tag, j),
        forall|j: int|
            pre.len() + start_tag.len() <= j < pre.len() + start_tag.len() + x.len()
                ==> !match_at(content, end_tag, j),
    ensures
        spec_extract(content, start_tag, end_tag) == Some(x),
{
    let sp = pre.len() as int + start_tag.len() as int;
    assert(match_at(content, start_tag, pre.len() as int)) by {
        assert forall|k: int| 0 <= k < start_tag.len() implies content[pre.len() + k]
            == start_tag[k] by {
            assert(content[pre.len() + k] == ((pre + start_tag) + x)[pre.len() + k]);
        }
    }
    lemma_first_match_from_is(content, start_tag, 0, pre.len() as int);
    assert(match_at(content, end_tag, sp + x.len() as int)) by {
        assert forall|k: int| 0 <= k < end_tag.len() implies content[sp + x.len() as int + k]
            == end_tag[k] by {
            assert(content[sp + x.len() as int + k] == (((pre + start_tag) + x) + end_tag)[sp + x.len() as int
                + k]);
        }
    }
    lemma_first_match_from_is(content, end_tag, sp as int, sp + x.len() as int);
    assert(content.subrange(sp as int, sp + x.len() as int) =~= x);
}

} // verus!
