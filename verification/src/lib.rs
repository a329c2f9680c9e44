//! Static audit of one HTML document: structure, accessibility, search and
//! loading signals, gathered into a flat record.
//!
//! [`scan_html`] parses a document, runs a fixed set of selector queries
//! on it and applies the rules of [`rules`] to what they find. The parser
//! and the selectors are those of `scraper`; everything after the queries
//! works on plain values and is verified.

pub mod color;
pub mod element;
pub mod query;
pub mod rules;
pub mod scan;
pub mod style;
pub mod text;

pub use crate::scan::{scan_html, ScanResult, Scanner, Selections};
