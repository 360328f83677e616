//! The entry segmenter: scans a document for successive non-overlapping
//! wrapper tag pairs and yields the enclosed blocks in document order.

use vstd::prelude::*;

use crate::search::{
    contains_sub, find_sub, first_match_from, lemma_first_match_from, match_at,
};

verus! {

/// The byte sequences held by a vector of byte vectors.
pub open spec fn views_of(vs: Seq<Vec<u8>>) -> Seq<Seq<u8>> {
    vs.map_values(|v: Vec<u8>| v@)
}

/// The spans `(start, end)` of successive entry blocks found at or after
/// `from`: each span starts at the first wrapper start tag at or after the
/// cursor, ends just after the first wrapper end tag following that start
/// tag's end, and the cursor then moves to the span's end. A start tag with
/// no matching end tag ends the scan.
pub open spec fn spec_spans_from(doc: Seq<u8>, st: Seq<u8>, et: Seq<u8>, from: int) -> Seq<
    (int, int),
>
    decreases doc.len() - from,
    via spec_spans_from_decreases
{
    if st.len() == 0 || et.len() == 0 {
        Seq::empty()
    } else {
        match first_match_from(doc, st, from) {
            None => Seq::empty(),
            Some(s) => match first_match_from(doc, et, s + st.len()) {
                None => Seq::empty(),
                Some(e) => seq![(s, e + et.len() as int)] + spec_spans_from(
                    doc,
                    st,
                    et,
                    e + et.len(),
                ),
            },
        }
    }
}

#[via_fn]
proof fn spec_spans_from_decreases(doc: Seq<u8>, st: Seq<u8>, et: Seq<u8>, from: int) {
    if st.len() >= 1 && et.len() >= 1 {
        lemma_first_match_from(doc, st, from);
        match first_match_from(doc, st, from) {
            None => {},
            Some(s) => {
                lemma_first_match_from(doc, et, s + st.len());
            },
        }
    }
}

/// The entry blocks of `doc` for the wrapper tag pair `st`/`et`, scanning
/// from `from`: each is the contiguous text from the start tag's first
/// character through the end tag's last character.
pub open spec fn spec_segment_from(doc: Seq<u8>, st: Seq<u8>, et: Seq<u8>, from: int) -> Seq<
    Seq<u8>,
> {
    spec_spans_from(doc, st, et, from).map_values(|span: (int, int)| doc.subrange(span.0, span.1))
}

/// The entry blocks of a whole document, scanned from its start.
pub open spec fn spec_segment(doc: Seq<u8>, st: Seq<u8>, et: Seq<u8>) -> Seq<Seq<u8>> {
    spec_segment_from(doc, st, et, 0)
}

/// The spans are in document order and pairwise non-overlapping: each begins
/// at or after the scan start, is long enough to hold both tags, stays
/// within the document, begins on a start tag and ends just after an end
/// tag, and no span begins before the previous one ends.
pub open spec fn spans_ordered(
    doc: Seq<u8>,
    st: Seq<u8>,
    et: Seq<u8>,
    from: int,
    spans: Seq<(int, int)>,
) -> bool {
    &&& forall|k: int| 0 <= k < spans.len() ==> from <= (#[trigger] spans[k]).0
    &&& forall|k: int|
        0 <= k < spans.len() ==> (#[trigger] spans[k]).0 + st.len() + et.len() <= spans[k].1
            <= doc.len()
    &&& forall|k: int|
        0 <= k < spans.len() ==> match_at(doc, st, (#[trigger] spans[k]).0) && match_at(
            doc,
            et,
            spans[k].1 - et.len(),
        )
    &&& forall|k: int| 0 <= k < spans.len() - 1 ==> (#[trigger] spans[k]).1 <= spans[k + 1].0
}

/// Segmentation non-overlap and ordering: the spans that segmentation
/// yields are successive and never re-cover consumed text.
pub proof fn lemma_spans_ordered(doc: Seq<u8>, st: Seq<u8>, et: Seq<u8>, from: int)
    ensures
        spans_ordered(doc, st, et, from, spec_spans_from(doc, st, et, from)),
    decreases doc.len() - from,
{
    let spans = spec_spans_from(doc, st, et, from);
    if st.len() >= 1 && et.len() >= 1 {
        lemma_first_match_from(doc, st, from);
        match first_match_from(doc, st, from) {
            None => {},
            Some(s) => {
                lemma_first_match_from(doc, et, s + st.len());
                match first_match_from(doc, et, s + st.len()) {
                    None => {},
                    Some(e) => {
                        let from2 = e + et.len() as int;
                        lemma_spans_ordered(doc, st, et, from2);
                        let tail = spec_spans_from(doc, st, et, from2);
                        assert(spans == seq![(s, from2)] + tail);
                        assert(spans[0] == (s, from2));
                        assert forall|k: int| 1 <= k < spans.len() implies spans[k] == tail[k
                            - 1] by {
                            assert(spans[k] == (seq![(s, from2)] + tail)[k]);
                        }
                    },
                }
            },
        }
    }
}

/// A document in which the wrapper start tag never occurs yields no blocks.
pub proof fn lemma_segment_absent(doc: Seq<u8>, st: Seq<u8>, et: Seq<u8>, from: int)
    requires
        !contains_sub(doc, st),
    ensures
        spec_segment_from(doc, st, et, from) =~= Seq::<Seq<u8>>::empty(),
{
    lemma_first_match_from(doc, st, from);
    if first_match_from(doc, st, from) is Some {
        let i = first_match_from(doc, st, from)->Some_0;
        assert(match_at(doc, st, i));
    }
}

/// Copies `doc[a..b]` into a fresh vector.
pub(crate) fn copy_range(doc: &[u8], a: usize, b: usize) -> (r: Vec<u8>)
    requires
        a <= b <= doc@.len(),
    ensures
        r@ == doc@.subrange(a as int, b as int),
{
    let mut v: Vec<u8> = Vec::new();
    let mut k = a;
    while k < b
        invariant
            a <= k <= b <= doc@.len(),
            v@.len() == k - a,
            forall|t: int| 0 <= t < v@.len() ==> v@[t] == doc@[a + t],
        decreases b - k,
    {
        v.push(doc[k]);
        k += 1;
    }
    assert(v@ =~= doc@.subrange(a as int, b as int));
    v
}

/// Scans `doc` for successive `start_tag`…`end_tag` blocks from position 0,
/// yielding the non-overlapping blocks in document order. A dangling start
/// tag with no later end tag ends the scan silently.
pub fn segment(doc: &[u8], start_tag: &[u8], end_tag: &[u8]) -> (r: Vec<Vec<u8>>)
    requires
        start_tag@.len() >= 1,
        end_tag@.len() >= 1,
    ensures
        views_of(r@) == spec_segment(doc@, start_tag@, end_tag@),
{
    let n = doc.len();
    let mut r: Vec<Vec<u8>> = Vec::new();
    let mut pos: usize = 0;
    proof {
        assert(views_of(r@) + spec_segment_from(doc@, start_tag@, end_tag@, 0)
            =~= spec_segment_from(doc@, start_tag@, end_tag@, 0));
    }
    loop
        invariant
            pos <= n,
            n == doc@.len(),
            1 <= start_tag@.len(),
            1 <= end_tag@.len(),
            spec_segment(doc@, start_tag@, end_tag@) == views_of(r@) + spec_segment_from(
                doc@,
                start_tag@,
                end_tag@,
                pos as int,
            ),
        ensures
            spec_segment_from(doc@, start_tag@, end_tag@, pos as int).len() == 0,
        decreases n - pos,
    {
        let found_start = find_sub(doc, start_tag, pos);
        proof {
            lemma_first_match_from(doc@, start_tag@, pos as int);
        }
        match found_start {
            None => {
                break;
            },
            Some(s) => {
                let sp = s + start_tag.len();
                let found_end = find_sub(doc, end_tag, sp);
                proof {
                    lemma_first_match_from(doc@, end_tag@, sp as int);
                }
                match found_end {
                    None => {
                        break;
                    },
                    Some(e) => {
                        let stop = e + end_tag.len();
                        let block = copy_range(doc, s, stop);
                        proof {
                            let spans = spec_spans_from(doc@, start_tag@, end_tag@, pos as int);
                            let tail = spec_spans_from(doc@, start_tag@, end_tag@, stop as int);
                            assert(spans == seq![(s as int, stop as int)] + tail);
                            assert(spec_segment_from(doc@, start_tag@, end_tag@, pos as int)
                                =~= seq![block@] + spec_segment_from(
                                doc@,
                                start_tag@,
                                end_tag@,
                                stop as int,
                            ));
                            assert(views_of(r@).push(block@) + spec_segment_from(
                                doc@,
                                start_tag@,
                                end_tag@,
                                stop as int,
                            ) =~= views_of(r@) + (seq![block@] + spec_segment_from(
                                doc@,
                                start_tag@,
                                end_tag@,
                                stop as int,
                            )));
                        }
                        let ghost prev = views_of(r@);
                        r.push(block);
                        proof {
                            assert(views_of(r@) =~= prev.push(block@));
                        }
                        pos = stop;
                    },
                }
            },
        }
    }
    proof {
        assert(views_of(r@) + spec_segment_from(doc@, start_tag@, end_tag@, pos as int)
            =~= views_of(r@));
    }
    r
}

} // verus!
