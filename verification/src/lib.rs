//! A small podcast-downloading library: it parses an RSS feed into a list of
//! episodes, builds the strings shown by an interactive selector, computes a
//! safe local file name for an episode, and tracks download progress.
//!
//! Network and file system access live outside this crate; the functions here
//! work on plain values (bytes, strings, chunk sizes) and carry contracts.

pub mod chars;
pub mod download;
pub mod extension;
pub mod feed;
pub mod sanitize;
pub mod select;
