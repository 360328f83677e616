//! A tolerant feed-entry extraction engine for RSS and Atom documents.
//!
//! The library scans loosely structured markup as raw bytes: it locates
//! repeated entry blocks (`<item>…</item>` or `<entry>…</entry>`), pulls the
//! title, link and timestamp fields out of each block, strips CDATA markers,
//! and filters the decoded entries by whether their timestamp falls on a
//! given UTC calendar day.

pub mod config;
pub mod entry;
pub mod extract;
pub mod process;
pub mod recency;
pub mod search;
pub mod segment;
pub mod tags;
