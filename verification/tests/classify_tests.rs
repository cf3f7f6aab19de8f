use music_catalog::classify::parse_path;

fn allowed(exts: &[&str]) -> Vec<String> {
    exts.iter().map(|e| String::from(*e)).collect()
}

#[test]
fn three_segment_path_yields_full_descriptor() {
    let ps = parse_path(&allowed(&["mp3"]), "A/B/song.mp3").unwrap();
    assert_eq!(ps.filename, "song");
    assert_eq!(ps.extension, "mp3");
    assert_eq!(ps.artist, "A");
    assert_eq!(ps.album, "B");
    assert_eq!(ps.filepath, "A/B/song.mp3");
    assert_eq!(ps.full_path, "A/B/song.mp3");
}

#[test]
fn four_segment_path_falls_back_to_unknown() {
    let ps = parse_path(&allowed(&["flac"]), "weird/deep/nested/song.flac").unwrap();
    assert_eq!(ps.artist, "Unknown");
    assert_eq!(ps.album, "Unknown");
    assert_eq!(ps.filename, "song");
    assert_eq!(ps.extension, "flac");
}

#[test]
fn two_segment_path_falls_back_to_unknown() {
    let ps = parse_path(&allowed(&["ogg"]), "B/song.ogg").unwrap();
    assert_eq!(ps.artist, "Unknown");
    assert_eq!(ps.album, "Unknown");
}

#[test]
fn single_segment_path_falls_back_to_unknown() {
    let ps = parse_path(&allowed(&["wav"]), "song.wav").unwrap();
    assert_eq!(ps.artist, "Unknown");
    assert_eq!(ps.album, "Unknown");
    assert_eq!(ps.filename, "song");
}

#[test]
fn disallowed_extension_yields_nothing() {
    assert!(parse_path(&allowed(&["mp3"]), "A/B/song.txt").is_none());
}

#[test]
fn extension_match_is_case_sensitive() {
    assert!(parse_path(&allowed(&["mp3"]), "A/B/song.MP3").is_none());
}

#[test]
fn path_without_extension_yields_nothing() {
    assert!(parse_path(&allowed(&["mp3"]), "A/B/song").is_none());
}

#[test]
fn hidden_file_without_other_dot_yields_nothing() {
    assert!(parse_path(&allowed(&["flac"]), "A/B/.flac").is_none());
}

#[test]
fn empty_allowed_set_yields_nothing() {
    assert!(parse_path(&allowed(&[]), "A/B/song.mp3").is_none());
}

#[test]
fn filename_strip_is_textual_replace_not_suffix_trim() {
    // The extension substring is removed wherever it occurs in the name.
    let ps = parse_path(&allowed(&["mp3"]), "A/B/tune.mp3.mp3").unwrap();
    assert_eq!(ps.filename, "tune");
    let ps2 = parse_path(&allowed(&["mp3"]), "A/B/mp3-remix.mp3").unwrap();
    assert_eq!(ps2.filename, "mp3-remix");
}

#[test]
fn extension_is_taken_after_last_dot() {
    let ps = parse_path(&allowed(&["flac"]), "A/B/x.mp3.flac").unwrap();
    assert_eq!(ps.extension, "flac");
    assert_eq!(ps.filename, "x.mp3");
}

#[test]
fn dot_in_directory_name_is_not_an_extension() {
    assert!(parse_path(&allowed(&["mp3"]), "A.mp3/B/song").is_none());
}

#[test]
fn with_id_carries_descriptor_fields() {
    let ps = parse_path(&allowed(&["mp3"]), "A/B/song.mp3").unwrap();
    let s = ps.with_id(7);
    assert_eq!(s.id, 7);
    assert_eq!(s.file_name, "song");
    assert_eq!(s.file_path, "A/B/song.mp3");
    assert_eq!(s.file_extension, "mp3");
    assert_eq!(s.artist, "A");
    assert_eq!(s.album, "B");
    assert_eq!(s.full_path, "A/B/song.mp3");
}
