//! The literal tag and marker byte strings of the two feed schemas.
//!
//! Every tag exists twice: a `spec` function giving its bytes as a sequence,
//! for contracts, and an executable constructor returning the same bytes as a
//! vector, proved against the former.

use vstd::prelude::*;

verus! {

pub open spec fn spec_item_start() -> Seq<u8> {
    seq!['<' as u8, 'i' as u8, 't' as u8, 'e' as u8, 'm' as u8, '>' as u8]
}

pub open spec fn spec_item_end() -> Seq<u8> {
    seq!['<' as u8, '/' as u8, 'i' as u8, 't' as u8, 'e' as u8, 'm' as u8, '>' as u8]
}

pub open spec fn spec_entry_start() -> Seq<u8> {
    seq!['<' as u8, 'e' as u8, 'n' as u8, 't' as u8, 'r' as u8, 'y' as u8, '>' as u8]
}

pub open spec fn spec_entry_end() -> Seq<u8> {
    seq![
        '<' as u8, '/' as u8, 'e' as u8, 'n' as u8, 't' as u8, 'r' as u8, 'y' as u8,
        '>' as u8,
    ]
}

pub open spec fn spec_title_start() -> Seq<u8> {
    seq!['<' as u8, 't' as u8, 'i' as u8, 't' as u8, 'l' as u8, 'e' as u8, '>' as u8]
}

pub open spec fn spec_title_end() -> Seq<u8> {
    seq![
        '<' as u8, '/' as u8, 't' as u8, 'i' as u8, 't' as u8, 'l' as u8, 'e' as u8,
        '>' as u8,
    ]
}

pub open spec fn spec_link_start() -> Seq<u8> {
    seq!['<' as u8, 'l' as u8, 'i' as u8, 'n' as u8, 'k' as u8, '>' as u8]
}

pub open spec fn spec_link_end() -> Seq<u8> {
    seq!['<' as u8, '/' as u8, 'l' as u8, 'i' as u8, 'n' as u8, 'k' as u8, '>' as u8]
}

pub open spec fn spec_pub_date_start() -> Seq<u8> {
    seq![
        '<' as u8, 'p' as u8, 'u' as u8, 'b' as u8, 'D' as u8, 'a' as u8, 't' as u8,
        'e' as u8, '>' as u8,
    ]
}

pub open spec fn spec_pub_date_end() -> Seq<u8> {
    seq![
        '<' as u8, '/' as u8, 'p' as u8, 'u' as u8, 'b' as u8, 'D' as u8, 'a' as u8,
        't' as u8, 'e' as u8, '>' as u8,
    ]
}

pub open spec fn spec_updated_start() -> Seq<u8> {
    seq![
        '<' as u8, 'u' as u8, 'p' as u8, 'd' as u8, 'a' as u8, 't' as u8, 'e' as u8,
        'd' as u8, '>' as u8,
    ]
}

pub open spec fn spec_updated_end() -> Seq<u8> {
    seq![
        '<' as u8, '/' as u8, 'u' as u8, 'p' as u8, 'd' as u8, 'a' as u8, 't' as u8,
        'e' as u8, 'd' as u8, '>' as u8,
    ]
}

pub open spec fn spec_cdata_open() -> Seq<u8> {
    seq![
        '<' as u8, '!' as u8, '[' as u8, 'C' as u8, 'D' as u8, 'A' as u8, 'T' as u8,
        'A' as u8, '[' as u8,
    ]
}

pub open spec fn spec_cdata_close() -> Seq<u8> {
    seq![']' as u8, ']' as u8, '>' as u8]
}

pub fn item_start() -> (r: Vec<u8>)
    ensures
        r@ == spec_item_start(),
{
    let r: Vec<u8> = vec!['<' as u8, 'i' as u8, 't' as u8, 'e' as u8, 'm' as u8, '>' as u8];
    assert(r@ =~= spec_item_start());
    r
}

pub fn item_end() -> (r: Vec<u8>)
    ensures
        r@ == spec_item_end(),
{
    let r: Vec<u8> = vec![
        '<' as u8, '/' as u8, 'i' as u8, 't' as u8, 'e' as u8, 'm' as u8, '>' as u8,
    ];
    assert(r@ =~= spec_item_end());
    r
}

pub fn entry_start() -> (r: Vec<u8>)
    ensures
        r@ == spec_entry_start(),
{
    let r: Vec<u8> = vec![
        '<' as u8, 'e' as u8, 'n' as u8, 't' as u8, 'r' as u8, 'y' as u8, '>' as u8,
    ];
    assert(r@ =~= spec_entry_start());
    r
}

pub fn entry_end() -> (r: Vec<u8>)
    ensures
        r@ == spec_entry_end(),
{
    let r: Vec<u8> = vec![
        '<' as u8, '/' as u8, 'e' as u8, 'n' as u8, 't' as u8, 'r' as u8, 'y' as u8,
        '>' as u8,
    ];
    assert(r@ =~= spec_entry_end());
    r
}

pub fn title_start() -> (r: Vec<u8>)
    ensures
        r@ == spec_title_start(),
{
    let r: Vec<u8> = vec![
        '<' as u8, 't' as u8, 'i' as u8, 't' as u8, 'l' as u8, 'e' as u8, '>' as u8,
    ];
    assert(r@ =~= spec_title_start());
    r
}

pub fn title_end() -> (r: Vec<u8>)
    ensures
        r@ == spec_title_end(),
{
    let r: Vec<u8> = vec![
        '<' as u8, '/' as u8, 't' as u8, 'i' as u8, 't' as u8, 'l' as u8, 'e' as u8,
        '>' as u8,
    ];
    assert(r@ =~= spec_title_end());
    r
}

pub fn link_start() -> (r: Vec<u8>)
    ensures
        r@ == spec_link_start(),
{
    let r: Vec<u8> = vec!['<' as u8, 'l' as u8, 'i' as u8, 'n' as u8, 'k' as u8, '>' as u8];
    assert(r@ =~= spec_link_start());
    r
}

pub fn link_end() -> (r: Vec<u8>)
    ensures
        r@ == spec_link_end(),
{
    let r: Vec<u8> = vec![
        '<' as u8, '/' as u8, 'l' as u8, 'i' as u8, 'n' as u8, 'k' as u8, '>' as u8,
    ];
    assert(r@ =~= spec_link_end());
    r
}

pub fn pub_date_start() -> (r: Vec<u8>)
    ensures
        r@ == spec_pub_date_start(),
{
    let r: Vec<u8> = vec![
        '<' as u8, 'p' as u8, 'u' as u8, 'b' as u8, 'D' as u8, 'a' as u8, 't' as u8,
        'e' as u8, '>' as u8,
    ];
    assert(r@ =~= spec_pub_date_start());
    r
}

pub fn pub_date_end() -> (r: Vec<u8>)
    ensures
        r@ == spec_pub_date_end(),
{
    let r: Vec<u8> = vec![
        '<' as u8, '/' as u8, 'p' as u8, 'u' as u8, 'b' as u8, 'D' as u8, 'a' as u8,
        't' as u8, 'e' as u8, '>' as u8,
    ];
    assert(r@ =~= spec_pub_date_end());
    r
}

pub fn updated_start() -> (r: Vec<u8>)
    ensures
        r@ == spec_updated_start(),
{
    let r: Vec<u8> = vec![
        '<' as u8, 'u' as u8, 'p' as u8, 'd' as u8, 'a' as u8, 't' as u8, 'e' as u8,
        'd' as u8, '>' as u8,
    ];
    assert(r@ =~= spec_updated_start());
    r
}

pub fn updated_end() -> (r: Vec<u8>)
    ensures
        r@ == spec_updated_end(),
{
    let r: Vec<u8> = vec![
        '<' as u8, '/' as u8, 'u' as u8, 'p' as u8, 'd' as u8, 'a' as u8, 't' as u8,
        'e' as u8, 'd' as u8, '>' as u8,
    ];
    assert(r@ =~= spec_updated_end());
    r
}

pub fn cdata_open() -> (r: Vec<u8>)
    ensures
        r@ == spec_cdata_open(),
{
    let r: Vec<u8> = vec![
        '<' as u8, '!' as u8, '[' as u8, 'C' as u8, 'D' as u8, 'A' as u8, 'T' as u8,
        'A' as u8, '[' as u8,
    ];
    assert(r@ =~= spec_cdata_open());
    r
}

pub fn cdata_close() -> (r: Vec<u8>)
    ensures
        r@ == spec_cdata_close(),
{
    let r: Vec<u8> = vec![']' as u8, ']' as u8, '>' as u8];
    assert(r@ =~= spec_cdata_close());
    r
}

} // verus!
