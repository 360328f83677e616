//! The feed processor: segments a document for each schema family present,
//! decodes every block, discards invalid entries, applies the recency
//! filter unless every entry is accepted outright, and returns the accepted
//! entries with their count.

use vstd::prelude::*;

use crate::entry::{decode, spec_decode, Entry, EntryView, Schema};
use crate::recency::{is_today_on, spec_is_on_day, today_utc, UtcDate};
use crate::search::{contains_bytes, contains_sub};
use crate::segment::{lemma_segment_absent, segment, spec_segment, views_of};
use crate::tags::{
    entry_end, entry_start, item_end, item_start, spec_entry_end, spec_entry_start, spec_item_end,
    spec_item_start,
};

verus! {

/// The schema families present in a document, detected once before any
/// segmentation: RSS when the literal `<item>` occurs anywhere, Atom when
/// the literal `<entry>` does, both, or neither.
#[derive(Clone, Copy, PartialEq, Eq, Structural, Debug)]
pub enum DocumentSchema {
    Rss,
    Atom,
    Mixed,
    Unknown,
}

/// The schema detection rule over a document's bytes.
pub open spec fn spec_detect_schema(doc: Seq<u8>) -> DocumentSchema {
    let rss = contains_sub(doc, spec_item_start());
    let atom = contains_sub(doc, spec_entry_start());
    if rss && atom {
        DocumentSchema::Mixed
    } else if rss {
        DocumentSchema::Rss
    } else if atom {
        DocumentSchema::Atom
    } else {
        DocumentSchema::Unknown
    }
}

/// Detects which schema families a document holds, by substring sniffing.
pub fn detect_schema(doc: &[u8]) -> (r: DocumentSchema)
    ensures
        r == spec_detect_schema(doc@),
{
    let ist = item_start();
    let est = entry_start();
    let rss = contains_bytes(doc, ist.as_slice());
    let atom = contains_bytes(doc, est.as_slice());
    if rss && atom {
        DocumentSchema::Mixed
    } else if rss {
        DocumentSchema::Rss
    } else if atom {
        DocumentSchema::Atom
    } else {
        DocumentSchema::Unknown
    }
}

/// An entry passes the processor: it is valid, and either every entry is
/// accepted outright or its timestamp falls on the given day.
pub open spec fn spec_accepts(
    e: EntryView,
    schema: Schema,
    accept_all: bool,
    today: UtcDate,
) -> bool {
    e.is_valid() && (accept_all || spec_is_on_day(schema, e.timestamp, today))
}

/// The entries accepted from a sequence of blocks, decoded under one
/// schema, in block order.
pub open spec fn spec_accepted_from_blocks(
    blocks: Seq<Seq<u8>>,
    schema: Schema,
    accept_all: bool,
    today: UtcDate,
) -> Seq<EntryView>
    decreases blocks.len(),
{
    if blocks.len() == 0 {
        Seq::empty()
    } else {
        let rest = spec_accepted_from_blocks(blocks.drop_last(), schema, accept_all, today);
        let e = spec_decode(blocks.last(), schema);
        if spec_accepts(e, schema, accept_all, today) {
            rest.push(e)
        } else {
            rest
        }
    }
}

/// The entries accepted from a whole document: its RSS blocks first, then
/// its Atom blocks, each family in document order.
pub open spec fn spec_accepted(doc: Seq<u8>, accept_all: bool, today: UtcDate) -> Seq<EntryView> {
    spec_accepted_from_blocks(
        spec_segment(doc, spec_item_start(), spec_item_end()),
        Schema::Rss,
        accept_all,
        today,
    ) + spec_accepted_from_blocks(
        spec_segment(doc, spec_entry_start(), spec_entry_end()),
        Schema::Atom,
        accept_all,
        today,
    )
}

/// The entry models held by a vector of entries.
pub open spec fn entry_views(es: Seq<Entry>) -> Seq<EntryView> {
    es.map_values(|e: Entry| e@)
}

/// The outcome for one document: the accepted entries in document order and
/// the count of them. A document yielding nothing gives a well-formed empty
/// result, never an error.
pub struct FeedResult {
    pub count: usize,
    pub entries: Vec<Entry>,
}

/// Decodes each block under `schema` and keeps the ones the processor
/// accepts, in block order.
fn accept_blocks(blocks: &Vec<Vec<u8>>, schema: Schema, accept_all: bool, today: UtcDate) -> (r:
    Vec<Entry>)
    ensures
        entry_views(r@) == spec_accepted_from_blocks(views_of(blocks@), schema, accept_all, today),
{
    let mut r: Vec<Entry> = Vec::new();
    let mut i: usize = 0;
    proof {
        assert(views_of(blocks@).subrange(0, 0) =~= Seq::<Seq<u8>>::empty());
        assert(entry_views(r@) =~= Seq::<EntryView>::empty());
    }
    while i < blocks.len()
        invariant
            i <= blocks@.len(),
            entry_views(r@) == spec_accepted_from_blocks(
                views_of(blocks@).subrange(0, i as int),
                schema,
                accept_all,
                today,
            ),
        decreases blocks@.len() - i,
    {
        let e = decode(blocks[i].as_slice(), schema);
        let ghost pre = views_of(blocks@).subrange(0, i as int);
        let ghost cur = views_of(blocks@).subrange(0, i + 1);
        proof {
            assert(cur.drop_last() =~= pre);
            assert(cur.last() == blocks@[i as int]@);
        }
        let keep = e.is_valid() && (accept_all || is_today_on(
            e.timestamp.as_slice(),
            schema,
            today,
        ));
        if keep {
            let ghost prev = entry_views(r@);
            r.push(e);
            proof {
                assert(entry_views(r@) =~= prev.push(e@));
            }
        }
        i += 1;
    }
    proof {
        assert(views_of(blocks@).subrange(0, blocks@.len() as int) =~= views_of(blocks@));
    }
    r
}

/// Processes one document against the UTC calendar day `today`: segments
/// it for each schema family present, decodes and filters the blocks, and
/// returns the accepted entries (RSS before Atom when mixed) with their
/// count.
pub fn process_document(doc: &[u8], accept_all: bool, today: UtcDate) -> (r: FeedResult)
    ensures
        entry_views(r.entries@) == spec_accepted(doc@, accept_all, today),
        r.count == spec_accepted(doc@, accept_all, today).len(),
{
    let ist = item_start();
    let ien = item_end();
    let est = entry_start();
    let een = entry_end();
    let has_rss = contains_bytes(doc, ist.as_slice());
    let mut entries: Vec<Entry> = if has_rss {
        let blocks = segment(doc, ist.as_slice(), ien.as_slice());
        accept_blocks(&blocks, Schema::Rss, accept_all, today)
    } else {
        proof {
            lemma_segment_absent(doc@, spec_item_start(), spec_item_end(), 0);
        }
        Vec::new()
    };
    let has_atom = contains_bytes(doc, est.as_slice());
    let mut atom_entries: Vec<Entry> = if has_atom {
        let blocks = segment(doc, est.as_slice(), een.as_slice());
        accept_blocks(&blocks, Schema::Atom, accept_all, today)
    } else {
        proof {
            lemma_segment_absent(doc@, spec_entry_start(), spec_entry_end(), 0);
        }
        Vec::new()
    };
    let ghost ev_rss = entry_views(entries@);
    let ghost ev_atom = entry_views(atom_entries@);
    entries.append(&mut atom_entries);
    proof {
        assert(entry_views(entries@) =~= ev_rss + ev_atom);
    }
    let count = entries.len();
    FeedResult { count, entries }
}

/// Processes one document against the current UTC calendar day, read fresh
/// from the wall clock at call time.
pub fn process_feed(doc: &[u8], accept_all: bool) -> (r: FeedResult)
    ensures
        exists|d: UtcDate|
            entry_views(r.entries@) == #[trigger] spec_accepted(doc@, accept_all, d) && r.count
                == spec_accepted(doc@, accept_all, d).len(),
{
    let today = today_utc();
    let r = process_document(doc, accept_all, today);
    proof {
        assert(entry_views(r.entries@) == spec_accepted(doc@, accept_all, today));
    }
    r
}

/// Every entry the processor accepts passes its acceptance predicate; in
/// particular, invalid entries never contribute to the result.
pub proof fn lemma_accepted_from_blocks_accepts(
    blocks: Seq<Seq<u8>>,
    schema: Schema,
    accept_all: bool,
    today: UtcDate,
)
    ensures
        forall|k: int|
            0 <= k < spec_accepted_from_blocks(blocks, schema, accept_all, today).len()
                ==> spec_accepts(
                #[trigger] spec_accepted_from_blocks(blocks, schema, accept_all, today)[k],
                schema,
                accept_all,
                today,
            ),
    decreases blocks.len(),
{
    if blocks.len() == 0 {
    } else {
        lemma_accepted_from_blocks_accepts(blocks.drop_last(), schema, accept_all, today);
        let rest = spec_accepted_from_blocks(blocks.drop_last(), schema, accept_all, today);
        let r = spec_accepted_from_blocks(blocks, schema, accept_all, today);
        let e = spec_decode(blocks.last(), schema);
        assert forall|k: int| 0 <= k < r.len() implies spec_accepts(
            r[k],
            schema,
            accept_all,
            today,
        ) by {
            if spec_accepts(e, schema, accept_all, today) {
                if k < rest.len() {
                    assert(r[k] == rest[k]);
                } else {
                    assert(r[k] == e);
                }
            } else {
                assert(r[k] == rest[k]);
            }
        }
    }
}

/// Invalid entries are discarded: every entry in an accepted sequence is
/// valid, whichever schema it came from and whether or not the recency
/// filter was bypassed.
pub proof fn lemma_accepted_entries_valid(doc: Seq<u8>, accept_all: bool, today: UtcDate)
    ensures
        forall|k: int|
            0 <= k < spec_accepted(doc, accept_all, today).len() ==> (#[trigger] spec_accepted(
                doc,
                accept_all,
                today,
            )[k]).is_valid(),
{
    let rss = spec_accepted_from_blocks(
        spec_segment(doc, spec_item_start(), spec_item_end()),
        Schema::Rss,
        accept_all,
        today,
    );
    let atom = spec_accepted_from_blocks(
        spec_segment(doc, spec_entry_start(), spec_entry_end()),
        Schema::Atom,
        accept_all,
        today,
    );
    lemma_accepted_from_blocks_accepts(
        spec_segment(doc, spec_item_start(), spec_item_end()),
        Schema::Rss,
        accept_all,
        today,
    );
    lemma_accepted_from_blocks_accepts(
        spec_segment(doc, spec_entry_start(), spec_entry_end()),
        Schema::Atom,
        accept_all,
        today,
    );
    assert forall|k: int| 0 <= k < spec_accepted(doc, accept_all, today).len() implies (
    #[trigger] spec_accepted(doc, accept_all, today)[k]).is_valid() by {
        if k < rss.len() {
            assert(spec_accepted(doc, accept_all, today)[k] == rss[k]);
        } else {
            assert(spec_accepted(doc, accept_all, today)[k] == atom[k - rss.len()]);
        }
    }
}

/// With every entry accepted outright, the current date plays no part: the
/// accepted entries from a block sequence are the same on any two days.
pub proof fn lemma_all_mode_ignores_date_blocks(
    blocks: Seq<Seq<u8>>,
    schema: Schema,
    d1: UtcDate,
    d2: UtcDate,
)
    ensures
        spec_accepted_from_blocks(blocks, schema, true, d1) == spec_accepted_from_blocks(
            blocks,
            schema,
            true,
            d2,
        ),
    decreases blocks.len(),
{
    if blocks.len() == 0 {
    } else {
        lemma_all_mode_ignores_date_blocks(blocks.drop_last(), schema, d1, d2);
    }
}

/// Accept-all mode bypasses the recency filter: the accepted entries of a
/// document are the same whatever the current date is.
pub proof fn lemma_all_mode_ignores_date(doc: Seq<u8>, d1: UtcDate, d2: UtcDate)
    ensures
        spec_accepted(doc, true, d1) == spec_accepted(doc, true, d2),
{
    lemma_all_mode_ignores_date_blocks(
        spec_segment(doc, spec_item_start(), spec_item_end()),
        Schema::Rss,
        d1,
        d2,
    );
    lemma_all_mode_ignores_date_blocks(
        spec_segment(doc, spec_entry_start(), spec_entry_end()),
        Schema::Atom,
        d1,
        d2,
    );
}

/// With every entry accepted outright, validity alone decides: a block
/// whose decoded entry is valid contributes that entry, however stale its
/// timestamp.
pub proof fn lemma_all_mode_accepts_valid(
    blocks: Seq<Seq<u8>>,
    schema: Schema,
    today: UtcDate,
    k: int,
)
    requires
        0 <= k < blocks.len(),
        spec_decode(blocks[k], schema).is_valid(),
    ensures
        spec_accepted_from_blocks(blocks, schema, true, today).contains(
            spec_decode(blocks[k], schema),
        ),
    decreases blocks.len(),
{
    let r = spec_accepted_from_blocks(blocks, schema, true, today);
    if k == blocks.len() - 1 {
        assert(r.last() == spec_decode(blocks[k], schema));
        assert(r.contains(spec_decode(blocks[k], schema)));
    } else {
        lemma_all_mode_accepts_valid(blocks.drop_last(), schema, today, k);
        let rest = spec_accepted_from_blocks(blocks.drop_last(), schema, true, today);
        assert(blocks.drop_last()[k] == blocks[k]);
        let j = choose|j: int| 0 <= j < rest.len() && rest[j] == spec_decode(blocks[k], schema);
        if spec_accepts(spec_decode(blocks.last(), schema), schema, true, today) {
            assert(r[j] == rest[j]);
        } else {
            assert(r[j] == rest[j]);
        }
        assert(r.contains(spec_decode(blocks[k], schema)));
    }
}

/// A document containing neither wrapper tag yields no accepted entries:
/// the result is well-formed and empty, not an error.
pub proof fn lemma_no_wrappers_no_entries(doc: Seq<u8>, accept_all: bool, today: UtcDate)
    requires
        !contains_sub(doc, spec_item_start()),
        !contains_sub(doc, spec_entry_start()),
    ensures
        spec_accepted(doc, accept_all, today) =~= Seq::<EntryView>::empty(),
{
    lemma_segment_absent(doc, spec_item_start(), spec_item_end(), 0);
    lemma_segment_absent(doc, spec_entry_start(), spec_entry_end(), 0);
}

} // verus!
