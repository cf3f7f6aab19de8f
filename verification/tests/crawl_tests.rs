use music_catalog::crawl::{CrawlState, FsEntry, crawl_step};

fn allowed() -> Vec<String> {
    vec![String::from("mp3"), String::from("flac")]
}

fn file(path: &str) -> FsEntry {
    FsEntry { path: String::from(path), is_dir: false }
}

fn dir(path: &str) -> FsEntry {
    FsEntry { path: String::from(path), is_dir: true }
}

#[test]
fn read_error_aborts_the_whole_crawl() {
    let state = CrawlState::new(String::from("root"));
    let r = crawl_step(
        &allowed(),
        "root",
        state,
        Err(String::from("permission denied")),
    );
    match r {
        Ok(_) => panic!("an unreadable directory must fail the scan"),
        Err(e) => assert_eq!(e, "permission denied"),
    }
}

#[test]
fn listing_splits_into_subdirs_and_classified_files() {
    let mut state = CrawlState::new(String::from("root"));
    let d = state.next_dir().unwrap();
    assert_eq!(d, "root");
    let listing = vec![
        dir("root/A"),
        file("root/A/B/song.mp3"),
        file("root/notes.txt"),
        dir("root/C"),
    ];
    state = crawl_step(&allowed(), "root", state, Ok::<_, String>(listing)).unwrap();
    assert_eq!(state.pending, vec![String::from("root/A"), String::from("root/C")]);
    let songs = state.into_songs();
    assert_eq!(songs.len(), 1);
    assert_eq!(songs[0].filepath, "A/B/song.mp3");
    assert_eq!(songs[0].artist, "A");
    assert_eq!(songs[0].album, "B");
    assert_eq!(songs[0].filename, "song");
}

#[test]
fn work_stack_drains_depth_first() {
    let mut state = CrawlState::new(String::from("root"));
    let top = state.next_dir().unwrap();
    state = crawl_step(&allowed(), "root", state, Ok::<_, String>(vec![dir("root/A"), dir("root/B")]))
        .unwrap();
    assert_eq!(top, "root");
    // The stack hands back the most recently pushed directory first.
    assert_eq!(state.next_dir().unwrap(), "root/B");
    state = crawl_step(&allowed(), "root", state, Ok::<_, String>(vec![file("root/B/x.flac")])).unwrap();
    assert_eq!(state.next_dir().unwrap(), "root/A");
    state = crawl_step(&allowed(), "root", state, Ok::<_, String>(vec![])).unwrap();
    assert!(state.next_dir().is_none());
    let songs = state.into_songs();
    assert_eq!(songs.len(), 1);
    assert_eq!(songs[0].filepath, "B/x.flac");
    assert_eq!(songs[0].artist, "Unknown");
    assert_eq!(songs[0].album, "Unknown");
}
