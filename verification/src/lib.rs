//! A content-addressed cache for prebuilt native binaries.
//!
//! The crate derives the key under which one build configuration is stored,
//! expands the URL an archive is fetched from, chooses how the fetch is
//! routed, and lays out the files of an export.

pub mod archive;
pub mod export;
pub mod features;
pub mod fetch;
pub mod key;
pub mod order;
pub mod url;
