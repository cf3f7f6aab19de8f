use music_catalog::catalog::Catalog;
use music_catalog::metadata::{TagData, TrackMetadata, metadata_from_tags};
use music_catalog::song::Song;

fn song(id: u64, path: &str, name: &str, ext: &str, artist: &str, album: &str) -> Song {
    Song {
        id,
        file_name: String::from(name),
        file_path: String::from(path),
        file_extension: String::from(ext),
        artist: String::from(artist),
        album: String::from(album),
        full_path: String::from(path),
    }
}

fn sample_tags() -> TagData {
    TagData {
        title: Some(String::from("Title")),
        artist: Some(String::from("Artist")),
        album: Some(String::from("Album")),
        genre: Some(String::from("Genre")),
        composer: None,
        year: Some(2001),
        track_number: Some(4),
        duration_secs: Some(181),
    }
}

#[test]
fn scan_creates_entry_and_metadata() {
    let mut cat = Catalog::new();
    let songs = vec![song(0, "A/B/song.mp3", "song", "mp3", "A", "B")];
    cat.startup_scan(&songs, vec![Some(sample_tags())], 100);
    assert_eq!(cat.entries.len(), 1);
    assert_eq!(cat.metadata.len(), 1);
    let e = &cat.entries[0];
    assert_eq!(e.id, 1);
    assert_eq!(e.relative_path, "A/B/song.mp3");
    assert_eq!(e.file_name, "song");
    assert_eq!(e.file_extension, "mp3");
    assert!(e.is_present);
    assert_eq!(e.first_path_segment, "A");
    assert_eq!(e.second_path_segment, "B");
    assert_eq!(e.created_at, 100);
    assert!(e.updated_at.is_none());
    let m = &cat.metadata[0];
    assert_eq!(m.file_artifact_id, 1);
    assert_eq!(m.title.as_deref(), Some("Title"));
    assert_eq!(m.artist.as_deref(), Some("Artist"));
    assert_eq!(m.album.as_deref(), Some("Album"));
    assert_eq!(m.genre.as_deref(), Some("Genre"));
    assert!(m.composer.is_none());
    assert_eq!(m.year, Some(2001));
    assert_eq!(m.track_number, Some(4));
    assert_eq!(m.duration, Some(181));
}

#[test]
fn rescan_of_unchanged_list_adds_nothing() {
    let mut cat = Catalog::new();
    let songs = vec![
        song(0, "A/B/one.mp3", "one", "mp3", "A", "B"),
        song(1, "A/B/two.mp3", "two", "mp3", "A", "B"),
    ];
    cat.startup_scan(&songs, vec![Some(sample_tags()), None], 100);
    assert_eq!(cat.entries.len(), 2);
    assert_eq!(cat.metadata.len(), 2);
    cat.startup_scan(&songs, vec![None, Some(sample_tags())], 999);
    assert_eq!(cat.entries.len(), 2);
    assert_eq!(cat.metadata.len(), 2);
    // The second pass refreshed nothing either.
    assert_eq!(cat.entries[0].created_at, 100);
    assert_eq!(cat.metadata[1].title, None);
}

#[test]
fn unreadable_tags_still_yield_one_null_record() {
    let mut cat = Catalog::new();
    let songs = vec![song(0, "A/B/bad.mp3", "bad", "mp3", "A", "B")];
    cat.startup_scan(&songs, vec![None], 50);
    assert_eq!(cat.metadata.len(), 1);
    let m = &cat.metadata[0];
    assert_eq!(m.file_artifact_id, 1);
    assert!(m.title.is_none());
    assert!(m.album.is_none());
    assert!(m.artist.is_none());
    assert!(m.year.is_none());
    assert!(m.duration.is_none());
    assert!(m.genre.is_none());
    assert!(m.composer.is_none());
    assert!(m.track_number.is_none());
}

#[test]
fn existing_triple_resolves_to_existing_id_without_new_entry() {
    let mut cat = Catalog::new();
    let s = song(0, "A/B/song.mp3", "song", "mp3", "A", "B");
    let first = cat.find_or_create_song(&s, 10);
    assert_eq!(first, 1);
    assert_eq!(cat.entries.len(), 1);
    let again = cat.find_or_create_song(&s, 20);
    assert_eq!(again, first);
    assert_eq!(cat.entries.len(), 1);
    // The entry kept its creation time: the lookup touched nothing.
    assert_eq!(cat.entries[0].created_at, 10);
}

#[test]
fn different_triples_get_distinct_ids() {
    let mut cat = Catalog::new();
    let a = cat.find_or_create_song(&song(0, "A/B/x.mp3", "x", "mp3", "A", "B"), 10);
    let b = cat.find_or_create_song(&song(1, "A/B/y.mp3", "y", "mp3", "A", "B"), 10);
    assert_ne!(a, b);
    assert_eq!(cat.entries.len(), 2);
}

#[test]
fn same_name_different_extension_is_a_new_entry() {
    let mut cat = Catalog::new();
    let a = cat.find_or_create_song(&song(0, "A/B/x.mp3", "x", "mp3", "A", "B"), 10);
    let b = cat.find_or_create_song(&song(1, "A/B/x.flac", "x", "flac", "A", "B"), 10);
    assert_ne!(a, b);
    assert_eq!(cat.entries.len(), 2);
}

#[test]
fn metadata_record_is_created_at_most_once() {
    let mut cat = Catalog::new();
    let s = song(0, "A/B/song.mp3", "song", "mp3", "A", "B");
    let id = cat.find_or_create_song(&s, 10);
    assert!(!cat.has_metadata(id));
    cat.save_metadata(id, None);
    assert!(cat.has_metadata(id));
    // A rescan sees the record and extracts nothing new.
    let songs = vec![s];
    cat.startup_scan(&songs, vec![Some(sample_tags())], 99);
    assert_eq!(cat.metadata.len(), 1);
    assert!(cat.metadata[0].title.is_none());
}

#[test]
fn record_builder_copies_fields_and_keys_by_entry() {
    let m: TrackMetadata = metadata_from_tags(42, Some(sample_tags()));
    assert_eq!(m.file_artifact_id, 42);
    assert_eq!(m.title.as_deref(), Some("Title"));
    assert_eq!(m.year, Some(2001));
    assert_eq!(m.duration, Some(181));
    let empty = metadata_from_tags(7, None);
    assert_eq!(empty.file_artifact_id, 7);
    assert!(empty.title.is_none());
    assert!(empty.year.is_none());
}

#[test]
fn timestamp_is_readable() {
    // Nothing is promised of the clock; the call must simply return.
    let t = music_catalog::clock::unix_timestamp();
    let _ = t;
}

#[test]
fn entries_missing_from_scan_are_marked_not_present() {
    let mut cat = Catalog::new();
    let kept = song(0, "A/B/kept.mp3", "kept", "mp3", "A", "B");
    let gone = song(1, "A/B/gone.mp3", "gone", "mp3", "A", "B");
    cat.startup_scan(&vec![kept, gone], vec![None, None], 10);
    cat.mark_absent_entries(&vec![song(0, "A/B/kept.mp3", "kept", "mp3", "A", "B")], 77);
    assert_eq!(cat.entries.len(), 2);
    assert!(cat.entries[0].is_present);
    assert!(cat.entries[0].updated_at.is_none());
    assert!(!cat.entries[1].is_present);
    assert_eq!(cat.entries[1].updated_at, Some(77));
}

#[test]
fn marked_entry_reappearing_resolves_to_its_old_id() {
    let mut cat = Catalog::new();
    let s = song(0, "A/B/song.mp3", "song", "mp3", "A", "B");
    let id = cat.find_or_create_song(&s, 10);
    cat.mark_absent_entries(&vec![], 20);
    assert!(!cat.entries[0].is_present);
    // Lookup checks existence only, not the flag: no duplicate entry.
    let again = cat.find_or_create_song(&s, 30);
    assert_eq!(again, id);
    assert_eq!(cat.entries.len(), 1);
}
