//! Tests for byte search, tag extraction and CDATA stripping.

use feedscan::extract::{extract, extract_field, remove_occurrences, strip_cdata};
use feedscan::search::{contains_bytes, find_sub};

#[test]
fn find_sub_first_occurrence() {
    let doc = b"abcabc";
    assert_eq!(find_sub(doc, b"abc", 0), Some(0));
    assert_eq!(find_sub(doc, b"abc", 1), Some(3));
    assert_eq!(find_sub(doc, b"abc", 4), None);
    assert_eq!(find_sub(doc, b"zzz", 0), None);
}

#[test]
fn contains_bytes_reports_presence() {
    assert!(contains_bytes(b"a<item>b", b"<item>"));
    assert!(!contains_bytes(b"a<itemb", b"<item>"));
}

#[test]
fn extract_returns_exact_inner_text() {
    let content = b"stuff before <title>X</title> stuff after";
    let got = extract(content, b"<title>", b"</title>");
    assert_eq!(got, Some(b"X".to_vec()));
}

#[test]
fn extract_keeps_whitespace_untrimmed() {
    let content = b"<title>  spaced out  </title>";
    let got = extract(content, b"<title>", b"</title>");
    assert_eq!(got, Some(b"  spaced out  ".to_vec()));
}

#[test]
fn extract_missing_tag_yields_nothing() {
    let got = extract(b"<title>X</title>", b"<link>", b"</link>");
    assert_eq!(got, None);
}

#[test]
fn extract_start_without_end_yields_nothing() {
    let got = extract(b"pre <title>X and no close", b"<title>", b"</title>");
    assert_eq!(got, None);
}

#[test]
fn extract_uses_first_pair_only() {
    let content = b"<title>first</title><title>second</title>";
    let got = extract(content, b"<title>", b"</title>");
    assert_eq!(got, Some(b"first".to_vec()));
}

#[test]
fn cdata_markers_are_stripped() {
    let got = strip_cdata(b"<![CDATA[Hello & Goodbye]]>");
    assert_eq!(got, b"Hello & Goodbye".to_vec());
}

#[test]
fn cdata_markers_stripped_anywhere() {
    let got = strip_cdata(b"a<![CDATA[b]]>c<![CDATA[d");
    assert_eq!(got, b"abcd".to_vec());
}

#[test]
fn extract_field_strips_cdata() {
    let content = b"<item><title><![CDATA[Hello & Goodbye]]></title></item>";
    let got = extract_field(content, b"<title>", b"</title>");
    assert_eq!(got, Some(b"Hello & Goodbye".to_vec()));
}

#[test]
fn remove_occurrences_scans_left_to_right() {
    assert_eq!(remove_occurrences(b"xayaxa", b"xa"), b"ya".to_vec());
    // Removal never rescans: deleting "ab" from "aabb" leaves a fresh "ab".
    assert_eq!(remove_occurrences(b"aabb", b"ab"), b"ab".to_vec());
    assert_eq!(remove_occurrences(b"abc", b""), b"abc".to_vec());
}
