//! A minimal line-oriented text search library.
//!
//! The crate has two components: a configuration resolver that builds a
//! search request from positional arguments and an ambient case-sensitivity
//! flag, and a search engine that scans text line by line and returns the
//! lines containing the query, either exactly or ignoring ASCII case.

pub mod casing;
pub mod config;
pub mod laws;
pub mod lines;
pub mod matching;
pub mod search;
