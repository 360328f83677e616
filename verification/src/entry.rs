//! The entry decoder: pulls the three recognized fields out of a segmented
//! block, using the field tag names of the block's schema, and strips CDATA
//! wrapping from every extracted value.

use vstd::prelude::*;

use crate::extract::{extract_field, spec_extract_field};
use crate::tags::{
    link_end, link_start, pub_date_end, pub_date_start, spec_link_end, spec_link_start,
    spec_pub_date_end, spec_pub_date_start, spec_title_end, spec_title_start, spec_updated_end,
    spec_updated_start, title_end, title_start, updated_end, updated_start,
};

verus! {

/// The schema family of an entry block, which fixes the timestamp field's
/// tag name and its date convention.
#[derive(Clone, Copy, PartialEq, Eq, Structural, Debug)]
pub enum Schema {
    Rss,
    Atom,
}

/// One decoded entry: a headline, a link and a raw timestamp string, each
/// either populated or empty.
#[derive(Debug)]
pub struct Entry {
    pub title: Vec<u8>,
    pub link: Vec<u8>,
    pub timestamp: Vec<u8>,
}

/// The mathematical model of an `Entry`: its three fields as byte
/// sequences.
pub struct EntryView {
    pub title: Seq<u8>,
    pub link: Seq<u8>,
    pub timestamp: Seq<u8>,
}

impl View for Entry {
    type V = EntryView;

    open spec fn view(&self) -> EntryView {
        EntryView { title: self.title@, link: self.link@, timestamp: self.timestamp@ }
    }
}

impl EntryView {
    /// An entry is valid only when all three fields are non-empty; invalid
    /// entries are silently discarded, never reported as errors.
    pub open spec fn is_valid(self) -> bool {
        self.title.len() > 0 && self.link.len() > 0 && self.timestamp.len() > 0
    }
}

/// A missing field defaults to empty text.
pub open spec fn field_or_empty(field: Option<Seq<u8>>) -> Seq<u8> {
    match field {
        Some(v) => v,
        None => Seq::empty(),
    }
}

/// The entry decoded from `block`: title and link under the tag names both
/// schemas share, the timestamp under `<pubDate>` for RSS and `<updated>`
/// for Atom, every field CDATA-stripped and defaulting to empty.
pub open spec fn spec_decode(block: Seq<u8>, schema: Schema) -> EntryView {
    EntryView {
        title: field_or_empty(spec_extract_field(block, spec_title_start(), spec_title_end())),
        link: field_or_empty(spec_extract_field(block, spec_link_start(), spec_link_end())),
        timestamp: match schema {
            Schema::Rss => field_or_empty(
                spec_extract_field(block, spec_pub_date_start(), spec_pub_date_end()),
            ),
            Schema::Atom => field_or_empty(
                spec_extract_field(block, spec_updated_start(), spec_updated_end()),
            ),
        },
    }
}

/// Extracts one field and defaults it to empty when the tags are absent.
fn decode_field(block: &[u8], start_tag: Vec<u8>, end_tag: Vec<u8>) -> (r: Vec<u8>)
    ensures
        r@ == field_or_empty(spec_extract_field(block@, start_tag@, end_tag@)),
{
    match extract_field(block, start_tag.as_slice(), end_tag.as_slice()) {
        Some(v) => v,
        None => Vec::new(),
    }
}

/// Decodes a segmented block into an `Entry` under the given schema's field
/// tag names. A missing field never propagates an error: it leaves the
/// field empty.
pub fn decode(block: &[u8], schema: Schema) -> (e: Entry)
    ensures
        e@ == spec_decode(block@, schema),
{
    let title = decode_field(block, title_start(), title_end());
    let link = decode_field(block, link_start(), link_end());
    let timestamp = match schema {
        Schema::Rss => decode_field(block, pub_date_start(), pub_date_end()),
        Schema::Atom => decode_field(block, updated_start(), updated_end()),
    };
    Entry { title, link, timestamp }
}

impl Entry {
    /// All three fields are non-empty.
    pub fn is_valid(&self) -> (r: bool)
        ensures
            r == self@.is_valid(),
    {
        self.title.len() > 0 && self.link.len() > 0 && self.timestamp.len() > 0
    }
}

} // verus!
