//! A word store: vocabulary words with their translations, kept as one JSON
//! document, with every superseded word set recorded in an append-only archive.
//!
//! The library never touches a file. It turns file contents into word sets and
//! word sets into file contents, and it decides in which order a save writes
//! the two files; the caller reads and writes.

pub mod archive;
pub mod config;
pub mod document;
pub mod entry;
pub mod input;
pub mod json;
pub mod repository;
pub mod save;
pub mod store;
