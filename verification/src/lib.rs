//! A verified core for an audio-file catalog: path classification, a
//! work-stack directory crawl, tag-metadata record construction, and
//! reconciliation of scan results against a persistent catalog.

pub mod catalog;
pub mod classify;
pub mod clock;
pub mod crawl;
pub mod metadata;
pub mod song;
pub mod strutil;

use vstd::prelude::*;

verus! {

/// Scan configuration: the file extensions that count as audio tracks.
pub struct Settings {
    pub allowed_extensions: Vec<String>,
}

} // verus!
