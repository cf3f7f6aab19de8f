//! Metadata records: what tag extraction yields for one file, and the
//! persistent record built from it. Extraction itself happens outside; this
//! module fixes exactly what record each extraction outcome produces, so
//! that a failed read still yields a well-formed, all-null record.

use vstd::prelude::*;

verus! {

/// The tag fields read from one audio file, reduced to plain values.
/// A field absent from the file's tags is `None`.
pub struct TagData {
    pub title: Option<String>,
    pub artist: Option<String>,
    pub album: Option<String>,
    pub genre: Option<String>,
    pub composer: Option<String>,
    pub year: Option<i32>,
    pub track_number: Option<u16>,
    pub duration_secs: Option<u32>,
}

/// The persistent metadata record attached to one catalog entry, keyed by
/// the entry's surrogate id. Every content field is nullable: extraction
/// may partially or fully fail.
pub struct TrackMetadata {
    pub file_artifact_id: i64,
    pub title: Option<String>,
    pub album: Option<String>,
    pub artist: Option<String>,
    pub year: Option<u16>,
    pub duration: Option<u32>,
    pub genre: Option<String>,
    pub composer: Option<String>,
    pub track_number: Option<u16>,
}

/// The year as stored: the tag's year narrowed to sixteen bits, as the
/// storing cast does.
pub open spec fn stored_year(y: Option<i32>) -> Option<u16> {
    match y {
        Some(v) => Some(v as u16),
        None => None,
    }
}

/// The record persisted for entry `id` given the outcome of tag
/// extraction: a copy of the tag fields on success, an all-null record on
/// failure — never an error.
pub open spec fn spec_record(id: i64, tags: Option<TagData>) -> TrackMetadata {
    match tags {
        Some(t) => TrackMetadata {
            file_artifact_id: id,
            title: t.title,
            album: t.album,
            artist: t.artist,
            year: stored_year(t.year),
            duration: t.duration_secs,
            genre: t.genre,
            composer: t.composer,
            track_number: t.track_number,
        },
        None => TrackMetadata {
            file_artifact_id: id,
            title: None,
            album: None,
            artist: None,
            year: None,
            duration: None,
            genre: None,
            composer: None,
            track_number: None,
        },
    }
}

/// Build the metadata record for entry `id` from an extraction outcome.
pub fn metadata_from_tags(id: i64, tags: Option<TagData>) -> (m: TrackMetadata)
    ensures
        m == spec_record(id, tags),
{
    match tags {
        Some(t) => TrackMetadata {
            file_artifact_id: id,
            title: t.title,
            album: t.album,
            artist: t.artist,
            year: match t.year {
                Some(v) => Some(#[verifier::truncate] (v as u16)),
                None => None,
            },
            duration: t.duration_secs,
            genre: t.genre,
            composer: t.composer,
            track_number: t.track_number,
        },
        None => TrackMetadata {
            file_artifact_id: id,
            title: None,
            album: None,
            artist: None,
            year: None,
            duration: None,
            genre: None,
            composer: None,
            track_number: None,
        },
    }
}

} // verus!
