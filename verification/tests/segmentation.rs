//! Tests for entry-block segmentation.

use feedscan::segment::segment;

#[test]
fn three_sequential_blocks_in_order() {
    let doc = b"head<item>one</item> noise <title>decoy</title> <item>two</item><item>three</item>tail";
    let blocks = segment(doc, b"<item>", b"</item>");
    assert_eq!(blocks.len(), 3);
    assert_eq!(blocks[0], b"<item>one</item>".to_vec());
    assert_eq!(blocks[1], b"<item>two</item>".to_vec());
    assert_eq!(blocks[2], b"<item>three</item>".to_vec());
}

#[test]
fn dangling_wrapper_halts_segmentation() {
    let doc = b"<item>complete</item><item>never closed";
    let blocks = segment(doc, b"<item>", b"</item>");
    assert_eq!(blocks.len(), 1);
    assert_eq!(blocks[0], b"<item>complete</item>".to_vec());
}

#[test]
fn no_wrapper_yields_no_blocks() {
    let blocks = segment(b"<html>nothing fed here</html>", b"<item>", b"</item>");
    assert_eq!(blocks.len(), 0);
}

#[test]
fn block_spans_start_through_end_tag() {
    let doc = b"<entry><title>t</title></entry>";
    let blocks = segment(doc, b"<entry>", b"</entry>");
    assert_eq!(blocks.len(), 1);
    assert_eq!(blocks[0], doc.to_vec());
}
