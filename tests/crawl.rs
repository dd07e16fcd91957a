use musicsyncd::metadata::{extract_track_name, TagRead};
use musicsyncd::plan::plan_library;
use musicsyncd::scan::{
    artwork_name, extract_artwork, is_artwork, AlbumListing, ArtistListing, EntryKind, FsEntry,
    ARTWORK_COUNT,
};

fn entry(dir: &str, name: &str, kind: EntryKind) -> FsEntry {
    FsEntry { name: name.to_string(), path: format!("{}/{}", dir, name), kind }
}

fn file(dir: &str, name: &str) -> FsEntry {
    entry(dir, name, EntryKind::File)
}

#[test]
fn artwork_names_in_priority_order() {
    let names: Vec<&str> = (0..ARTWORK_COUNT).map(artwork_name).collect();
    assert_eq!(names, vec!["cover.jpg", "cover.png", "artwork.jpg", "cover.jpeg"]);
}

#[test]
fn is_artwork_is_exact_and_case_sensitive() {
    assert!(is_artwork(&"cover.jpg".to_string()));
    assert!(is_artwork(&"cover.jpeg".to_string()));
    assert!(is_artwork(&"artwork.jpg".to_string()));
    assert!(!is_artwork(&"Cover.jpg".to_string()));
    assert!(!is_artwork(&"cover.jpg.bak".to_string()));
    assert!(!is_artwork(&"song1.mp3".to_string()));
    assert!(!is_artwork(&"".to_string()));
}

#[test]
fn artwork_takes_highest_priority_name() {
    let files = vec![
        file("/m/A/B", "artwork.jpg"),
        file("/m/A/B", "cover.png"),
        file("/m/A/B", "cover.jpg"),
    ];
    assert_eq!(extract_artwork(&files), Some("/m/A/B/cover.jpg".to_string()));
}

#[test]
fn artwork_falls_back_down_the_list() {
    let files = vec![
        file("/m/A/B", "song.mp3"),
        file("/m/A/B", "cover.jpeg"),
        file("/m/A/B", "artwork.jpg"),
    ];
    assert_eq!(extract_artwork(&files), Some("/m/A/B/artwork.jpg".to_string()));
}

#[test]
fn artwork_none_without_candidates() {
    let files = vec![file("/m/A/B", "song.mp3"), file("/m/A/B", "Cover.JPG")];
    assert_eq!(extract_artwork(&files), None);
    assert_eq!(extract_artwork(&vec![]), None);
}

#[test]
fn title_first_non_empty_wins() {
    let attempts = vec![
        TagRead::Failed,
        TagRead::Titled(String::new()),
        TagRead::Untitled,
        TagRead::Titled("Second".to_string()),
        TagRead::Titled("Third".to_string()),
    ];
    assert_eq!(extract_track_name(&attempts), Some("Second".to_string()));
}

#[test]
fn title_from_first_strategy() {
    let attempts = vec![TagRead::Titled("First".to_string()), TagRead::Titled("Other".to_string())];
    assert_eq!(extract_track_name(&attempts), Some("First".to_string()));
}

#[test]
fn title_none_when_all_fail() {
    assert_eq!(extract_track_name(&vec![TagRead::Failed, TagRead::Failed]), None);
    assert_eq!(extract_track_name(&vec![TagRead::Untitled]), None);
    assert_eq!(extract_track_name(&vec![]), None);
}

#[test]
fn plan_skips_non_directories_and_artwork() {
    let album = AlbumListing {
        entry: entry("/m/A", "B", EntryKind::Directory),
        files: vec![
            file("/m/A/B", "song1.mp3"),
            file("/m/A/B", "cover.jpg"),
            entry("/m/A/B", "extras", EntryKind::Directory),
            entry("/m/A/B", "fifo", EntryKind::Other),
            file("/m/A/B", "song2.flac"),
        ],
    };
    let stray = AlbumListing { entry: file("/m/A", "notes.txt"), files: vec![] };
    let root = vec![
        ArtistListing { entry: entry("/m", "A", EntryKind::Directory), albums: vec![stray, album] },
        ArtistListing { entry: file("/m", "readme.txt"), albums: vec![] },
        ArtistListing { entry: entry("/m", "C", EntryKind::Directory), albums: vec![] },
    ];
    let plan = plan_library(&root);
    assert_eq!(plan.len(), 2);
    assert_eq!(plan[0].name, "A");
    assert_eq!(plan[1].name, "C");
    assert_eq!(plan[0].albums.len(), 1);
    assert_eq!(plan[1].albums.len(), 0);
    let b = &plan[0].albums[0];
    assert_eq!(b.title, "B");
    assert_eq!(b.artwork, Some("/m/A/B/cover.jpg".to_string()));
    let paths: Vec<&str> = b.tracks.iter().map(|t| t.path.as_str()).collect();
    assert_eq!(paths, vec!["/m/A/B/song1.mp3", "/m/A/B/song2.flac"]);
    assert!(b.tracks.iter().all(|t| t.title.is_none()));
}

#[test]
fn plan_of_empty_root_is_empty() {
    assert!(plan_library(&vec![]).is_empty());
}
