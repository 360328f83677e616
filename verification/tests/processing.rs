//! Tests for entry decoding, the recency filter, feed processing and
//! configuration flattening.

use feedscan::config::{flatten_feeds, CategoryOptions, FeedConfig};
use feedscan::entry::{decode, Schema};
use feedscan::process::{detect_schema, process_document, process_feed, DocumentSchema};
use feedscan::recency::{is_today, is_today_on, UtcDate};

fn june_15() -> UtcDate {
    UtcDate { year: 2024, month: 6, day: 15 }
}

fn rss_item(title: &str, link: &str, date: &str) -> Vec<u8> {
    let mut doc = String::new();
    doc.push_str("<item><title>");
    doc.push_str(title);
    doc.push_str("</title><link>");
    doc.push_str(link);
    doc.push_str("</link><pubDate>");
    doc.push_str(date);
    doc.push_str("</pubDate></item>");
    doc.into_bytes()
}

fn atom_entry(title: &str, link: &str, date: &str) -> Vec<u8> {
    let mut doc = String::new();
    doc.push_str("<entry><title>");
    doc.push_str(title);
    doc.push_str("</title><link>");
    doc.push_str(link);
    doc.push_str("</link><updated>");
    doc.push_str(date);
    doc.push_str("</updated></entry>");
    doc.into_bytes()
}

#[test]
fn decode_rss_block_fields() {
    let block = rss_item("Headline", "http://example.com/a", "Sat, 15 Jun 2024 08:00:00 +0000");
    let e = decode(&block, Schema::Rss);
    assert_eq!(e.title, b"Headline".to_vec());
    assert_eq!(e.link, b"http://example.com/a".to_vec());
    assert_eq!(e.timestamp, b"Sat, 15 Jun 2024 08:00:00 +0000".to_vec());
    assert!(e.is_valid());
}

#[test]
fn decode_atom_block_uses_updated() {
    let block = atom_entry("Atom headline", "http://example.com/b", "2024-06-15T08:00:00Z");
    let e = decode(&block, Schema::Atom);
    assert_eq!(e.title, b"Atom headline".to_vec());
    assert_eq!(e.timestamp, b"2024-06-15T08:00:00Z".to_vec());
    assert!(e.is_valid());
}

#[test]
fn decode_missing_field_is_empty_and_invalid() {
    let block = b"<item><title>only a title</title></item>";
    let e = decode(block, Schema::Rss);
    assert_eq!(e.link, Vec::<u8>::new());
    assert!(!e.is_valid());
}

#[test]
fn decode_strips_cdata_from_fields() {
    let block = b"<item><title><![CDATA[Hello & Goodbye]]></title></item>";
    let e = decode(block, Schema::Rss);
    assert_eq!(e.title, b"Hello & Goodbye".to_vec());
}

#[test]
fn same_day_timestamp_is_today() {
    let ok = is_today_on(b"Sat, 15 Jun 2024 08:00:00 +0000", Schema::Rss, june_15());
    assert!(ok);
}

#[test]
fn previous_day_timestamp_is_not_today() {
    let ok = is_today_on(b"Fri, 14 Jun 2024 23:59:00 +0000", Schema::Rss, june_15());
    assert!(!ok);
}

#[test]
fn zone_offset_converts_to_utc_before_comparing() {
    // 23:30 on the 14th at -0300 is 02:30 on the 15th in UTC.
    let ok = is_today_on(b"Fri, 14 Jun 2024 23:30:00 -0300", Schema::Rss, june_15());
    assert!(ok);
}

#[test]
fn atom_timestamp_parses_iso_style() {
    assert!(is_today_on(b"2024-06-15T08:00:00Z", Schema::Atom, june_15()));
    assert!(!is_today_on(b"2024-06-14T23:59:00Z", Schema::Atom, june_15()));
}

#[test]
fn unparseable_timestamp_is_never_today() {
    assert!(!is_today_on(b"not a date at all", Schema::Rss, june_15()));
    assert!(!is_today_on(b"not a date at all", Schema::Atom, june_15()));
    assert!(!is_today(b"not a date at all", Schema::Rss));
}

#[test]
fn recency_filter_keeps_only_same_day_entries() {
    let mut doc = rss_item("Fresh", "http://example.com/f", "Sat, 15 Jun 2024 08:00:00 +0000");
    doc.extend_from_slice(&rss_item(
        "Stale",
        "http://example.com/s",
        "Fri, 14 Jun 2024 23:59:00 +0000",
    ));
    let r = process_document(&doc, false, june_15());
    assert_eq!(r.count, 1);
    assert_eq!(r.entries.len(), 1);
    assert_eq!(r.entries[0].title, b"Fresh".to_vec());
}

#[test]
fn all_mode_accepts_stale_entry() {
    let doc = rss_item("Stale", "http://example.com/s", "Fri, 14 Jun 2024 23:59:00 +0000");
    let filtered = process_document(&doc, false, june_15());
    assert_eq!(filtered.count, 0);
    let all = process_document(&doc, true, june_15());
    assert_eq!(all.count, 1);
    assert_eq!(all.entries[0].title, b"Stale".to_vec());
}

#[test]
fn invalid_entry_contributes_zero() {
    let doc = b"<item><title>t</title><pubDate>Sat, 15 Jun 2024 08:00:00 +0000</pubDate></item>";
    let r = process_document(doc, true, june_15());
    assert_eq!(r.count, 0);
    assert!(r.entries.is_empty());
}

#[test]
fn mixed_schema_document_rss_first() {
    let mut doc = atom_entry("From Atom", "http://example.com/a", "2024-06-15T08:00:00Z");
    doc.extend_from_slice(&rss_item(
        "From RSS",
        "http://example.com/r",
        "Sat, 15 Jun 2024 08:00:00 +0000",
    ));
    let r = process_document(&doc, true, june_15());
    assert_eq!(r.count, 2);
    assert_eq!(r.entries[0].title, b"From RSS".to_vec());
    assert_eq!(r.entries[1].title, b"From Atom".to_vec());
}

#[test]
fn zero_entry_document_gives_empty_result() {
    let r = process_document(b"<html>no feed markers here</html>", false, june_15());
    assert_eq!(r.count, 0);
    assert!(r.entries.is_empty());
}

#[test]
fn process_feed_accepts_valid_entry_in_all_mode() {
    // In all mode the wall-clock date plays no part in the outcome.
    let doc = rss_item("Old news", "http://example.com/o", "Wed, 01 Jan 2020 00:00:00 +0000");
    let r = process_feed(&doc, true);
    assert_eq!(r.count, 1);
    assert_eq!(r.entries[0].title, b"Old news".to_vec());
}

#[test]
fn detect_schema_families() {
    assert_eq!(detect_schema(b"<rss><item>x</item></rss>"), DocumentSchema::Rss);
    assert_eq!(detect_schema(b"<feed><entry>x</entry></feed>"), DocumentSchema::Atom);
    assert_eq!(detect_schema(b"<item></item><entry></entry>"), DocumentSchema::Mixed);
    assert_eq!(detect_schema(b"<html></html>"), DocumentSchema::Unknown);
}

fn cfg_sample() -> FeedConfig {
    FeedConfig {
        main_feeds: vec!["http://example.com/main".to_string()],
        cybersecurity: vec![
            "http://example.com/sec1".to_string(),
            "http://example.com/sec2".to_string(),
        ],
        science: vec!["http://example.com/sci".to_string()],
        favorites: vec!["http://example.com/fav".to_string()],
    }
}

#[test]
fn flatten_keeps_category_order() {
    let opts = CategoryOptions {
        include_main: true,
        include_cybersecurity: true,
        include_science: true,
        include_favorites: true,
    };
    let urls = flatten_feeds(cfg_sample(), opts);
    assert_eq!(
        urls,
        vec![
            "http://example.com/main".to_string(),
            "http://example.com/sec1".to_string(),
            "http://example.com/sec2".to_string(),
            "http://example.com/sci".to_string(),
            "http://example.com/fav".to_string(),
        ]
    );
}

#[test]
fn flatten_skips_excluded_categories() {
    let opts = CategoryOptions {
        include_main: false,
        include_cybersecurity: true,
        include_science: false,
        include_favorites: true,
    };
    let urls = flatten_feeds(cfg_sample(), opts);
    assert_eq!(
        urls,
        vec![
            "http://example.com/sec1".to_string(),
            "http://example.com/sec2".to_string(),
            "http://example.com/fav".to_string(),
        ]
    );
}
