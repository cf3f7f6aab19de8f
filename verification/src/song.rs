//! The data carried through the scan pipeline: track descriptors produced by
//! classification, and the metadata records persisted for catalog entries.

use vstd::prelude::*;

verus! {

/// Ephemeral descriptor of one candidate audio file, produced by
/// classification of a scan-root-relative path. Not persisted as-is.
pub struct PartialSong {
    /// File name with every occurrence of `.<extension>` removed.
    pub filename: String,
    /// The scan-root-relative path: the stable identity key.
    pub filepath: String,
    /// The extension that matched the allowed set.
    pub extension: String,
    /// First path segment when the path has exactly three, else "Unknown".
    pub artist: String,
    /// Second path segment when the path has exactly three, else "Unknown".
    pub album: String,
    /// Equal to `filepath`; kept for later absolute resolution.
    pub full_path: String,
}

/// Mathematical image of a `PartialSong`: every field as a character sequence.
pub ghost struct PartialSongView {
    pub filename: Seq<char>,
    pub filepath: Seq<char>,
    pub extension: Seq<char>,
    pub artist: Seq<char>,
    pub album: Seq<char>,
    pub full_path: Seq<char>,
}

impl View for PartialSong {
    type V = PartialSongView;

    open spec fn view(&self) -> PartialSongView {
        PartialSongView {
            filename: self.filename@,
            filepath: self.filepath@,
            extension: self.extension@,
            artist: self.artist@,
            album: self.album@,
            full_path: self.full_path@,
        }
    }
}

/// A descriptor with the ordinal it received after the scan's sort.
pub struct Song {
    pub id: u64,
    pub file_name: String,
    pub file_path: String,
    pub file_extension: String,
    pub artist: String,
    pub album: String,
    pub full_path: String,
}

/// Mathematical image of a `Song`.
pub ghost struct SongView {
    pub id: u64,
    pub file_name: Seq<char>,
    pub file_path: Seq<char>,
    pub file_extension: Seq<char>,
    pub artist: Seq<char>,
    pub album: Seq<char>,
    pub full_path: Seq<char>,
}

impl View for Song {
    type V = SongView;

    open spec fn view(&self) -> SongView {
        SongView {
            id: self.id,
            file_name: self.file_name@,
            file_path: self.file_path@,
            file_extension: self.file_extension@,
            artist: self.artist@,
            album: self.album@,
            full_path: self.full_path@,
        }
    }
}

impl PartialSong {
    /// Attach an ordinal, turning a descriptor into a `Song`.
    pub fn with_id(&self, id: u64) -> (s: Song)
        ensures
            s@.id == id,
            s@.file_name == self@.filename,
            s@.file_path == self@.filepath,
            s@.file_extension == self@.extension,
            s@.artist == self@.artist,
            s@.album == self@.album,
            s@.full_path == self@.full_path,
    {
        Song {
            id,
            file_name: self.filename.clone(),
            file_path: self.filepath.clone(),
            file_extension: self.extension.clone(),
            artist: self.artist.clone(),
            album: self.album.clone(),
            full_path: self.full_path.clone(),
        }
    }
}

} // verus!
