use musicsyncd::data_type::{AlbumId, ArtistId, PathBlob, TrackId};
use musicsyncd::error::{ErrorKind, MSError, EntityNotFoundError};
use musicsyncd::plan::{plan_library, AlbumPlan, ArtistPlan, TrackPlan};
use musicsyncd::query::{
    find_album_artwork, find_album_track, find_album_tracks, find_albums, find_artist_full_albums,
    find_artists,
};
use musicsyncd::rebuild::reload_db;
use musicsyncd::scan::{AlbumListing, ArtistListing, EntryKind, FsEntry};
use musicsyncd::store::{clean_db, AlbumRow, ArtistRow, LibraryStore, TrackRow};

fn entry(dir: &str, name: &str, kind: EntryKind) -> FsEntry {
    FsEntry { name: name.to_string(), path: format!("{}/{}", dir, name), kind }
}

fn album_dir(parent: &str, name: &str, files: &[&str]) -> AlbumListing {
    let dir = format!("{}/{}", parent, name);
    AlbumListing {
        entry: entry(parent, name, EntryKind::Directory),
        files: files.iter().map(|f| entry(&dir, f, EntryKind::File)).collect(),
    }
}

fn artist_dir(root: &str, name: &str, albums: Vec<AlbumListing>) -> ArtistListing {
    ArtistListing { entry: entry(root, name, EntryKind::Directory), albums }
}

fn single_album_library() -> Vec<ArtistListing> {
    vec![artist_dir(
        "/music",
        "A",
        vec![album_dir("/music/A", "B", &["song1.mp3", "song2.mp3", "cover.jpg"])],
    )]
}

fn resynced(root: &Vec<ArtistListing>) -> LibraryStore {
    let plan = plan_library(root);
    let mut store = LibraryStore::new();
    reload_db(&plan, &mut store).unwrap();
    store
}

fn two_artist_store() -> LibraryStore {
    let root = vec![
        artist_dir(
            "/m",
            "X",
            vec![
                album_dir("/m/X", "One", &["a.mp3", "b.mp3"]),
                album_dir("/m/X", "Two", &["c.mp3", "cover.png"]),
            ],
        ),
        artist_dir("/m", "Y", vec![album_dir("/m/Y", "Three", &["d.ogg"])]),
    ];
    resynced(&root)
}

#[test]
fn resync_single_artist_album() {
    let store = resynced(&single_album_library());
    let artists = find_artists(&store);
    assert_eq!(artists.len(), 1);
    assert_eq!(artists[0].name, "A");
    let albums = find_albums(&store, None);
    assert_eq!(albums.len(), 1);
    assert_eq!(albums[0].title, "B");
    assert_eq!(albums[0].artist.id, artists[0].id);
    assert_eq!(albums[0].artist.name, "A");
    let art = find_album_artwork(&store, albums[0].id).unwrap();
    assert_eq!(art.path.0, "/music/A/B/cover.jpg");
    assert_eq!(art.album_id, albums[0].id);
    let tracks = find_album_tracks(&store, albums[0].id);
    assert_eq!(tracks.len(), 2);
    let names: Vec<&str> = tracks.iter().map(|t| t.filename.as_str()).collect();
    assert_eq!(names, vec!["song1.mp3", "song2.mp3"]);
    assert_eq!(tracks[0].path, "/music/A/B/song1.mp3");
    assert!(tracks.iter().all(|t| t.filename != "cover.jpg"));
    assert_eq!(store.tracks.len(), 2);
    assert!(store.tracks.iter().all(|t| t.album_id == albums[0].id));
}

#[test]
fn resync_counts_only_directories_as_artists() {
    let root = vec![
        artist_dir("/m", "X", vec![]),
        ArtistListing { entry: entry("/m", "loose.mp3", EntryKind::File), albums: vec![] },
        artist_dir("/m", "Y", vec![]),
        ArtistListing { entry: entry("/m", "dev", EntryKind::Other), albums: vec![] },
    ];
    let store = resynced(&root);
    assert_eq!(find_artists(&store).len(), 2);
    assert!(find_albums(&store, None).is_empty());
}

#[test]
fn resync_ids_are_sequential_and_refer_to_parents() {
    let store = two_artist_store();
    let ids: Vec<i64> = store.artists.iter().map(|a| a.id.0).collect();
    assert_eq!(ids, vec![1, 2]);
    let albums: Vec<(i64, i64)> = store.albums.iter().map(|a| (a.id.0, a.artist_id.0)).collect();
    assert_eq!(albums, vec![(1, 1), (2, 1), (3, 2)]);
    let tracks: Vec<(i64, i64)> = store.tracks.iter().map(|t| (t.id.0, t.album_id.0)).collect();
    assert_eq!(tracks, vec![(1, 1), (2, 1), (3, 2), (4, 3)]);
    assert_eq!((store.next_artist_id, store.next_album_id, store.next_track_id), (3, 4, 5));
}

#[test]
fn resync_again_never_reuses_ids() {
    let root = single_album_library();
    let plan = plan_library(&root);
    let mut store = LibraryStore::new();
    reload_db(&plan, &mut store).unwrap();
    reload_db(&plan, &mut store).unwrap();
    assert_eq!(store.artists.len(), 1);
    assert_eq!(store.artists[0].id, ArtistId(2));
    assert_eq!(store.albums[0].id, AlbumId(2));
    assert_eq!(store.albums[0].artist_id, ArtistId(2));
    let tracks: Vec<i64> = store.tracks.iter().map(|t| t.id.0).collect();
    assert_eq!(tracks, vec![3, 4]);
    assert!(find_album_tracks(&store, AlbumId(1)).is_empty());
}

#[test]
fn resync_keeps_titles_from_plan() {
    let plan = vec![ArtistPlan {
        name: "A".to_string(),
        albums: vec![AlbumPlan {
            title: "B".to_string(),
            artwork: None,
            tracks: vec![
                TrackPlan { path: "/m/A/B/1.mp3".to_string(), title: Some("One".to_string()) },
                TrackPlan { path: "/m/A/B/2.mp3".to_string(), title: None },
            ],
        }],
    }];
    let mut store = LibraryStore::new();
    reload_db(&plan, &mut store).unwrap();
    let tracks = find_album_tracks(&store, AlbumId(1));
    assert_eq!(tracks[0].title, Some("One".to_string()));
    assert_eq!(tracks[1].title, None);
    assert_eq!(tracks[1].filename, "2.mp3");
    assert_eq!(find_album_artwork(&store, AlbumId(1)).unwrap_err().msg, "album has no artwork");
}

#[test]
fn resync_out_of_ids_leaves_store_unchanged() {
    let plan = plan_library(&single_album_library());
    let mut store = LibraryStore::new();
    reload_db(&plan, &mut store).unwrap();
    store.next_track_id = i64::MAX - 1;
    let err = reload_db(&plan, &mut store).unwrap_err();
    assert_eq!(err.kind, ErrorKind::Internal);
    assert_eq!(err.status_code(), 500);
    assert_eq!(store.artists.len(), 1);
    assert_eq!(store.artists[0].id, ArtistId(1));
    assert_eq!(store.tracks.len(), 2);
    assert_eq!(store.next_artist_id, 2);
    assert_eq!(store.next_track_id, i64::MAX - 1);
}

#[test]
fn resync_exact_fit_of_ids_succeeds() {
    let plan = plan_library(&single_album_library());
    let mut store = LibraryStore::new();
    store.next_track_id = i64::MAX - 2;
    reload_db(&plan, &mut store).unwrap();
    assert_eq!(store.next_track_id, i64::MAX);
    assert_eq!(store.tracks[1].id, TrackId(i64::MAX - 1));
}

#[test]
fn clean_db_keeps_counters() {
    let mut store = two_artist_store();
    clean_db(&mut store);
    assert!(store.artists.is_empty() && store.albums.is_empty() && store.tracks.is_empty());
    assert_eq!((store.next_artist_id, store.next_album_id, store.next_track_id), (3, 4, 5));
}

#[test]
fn full_albums_match_album_tracks() {
    let store = two_artist_store();
    let full = find_artist_full_albums(&store, ArtistId(1));
    assert_eq!(full.len(), 2);
    assert_eq!(full[0].album.title, "One");
    assert_eq!(full[1].album.title, "Two");
    for fa in &full {
        let tracks = find_album_tracks(&store, fa.album.id);
        let a: Vec<(TrackId, &str)> = fa.tracks.iter().map(|t| (t.id, t.path.as_str())).collect();
        let b: Vec<(TrackId, &str)> = tracks.iter().map(|t| (t.id, t.path.as_str())).collect();
        assert_eq!(a, b);
    }
    assert_eq!(full[0].tracks.len(), 2);
    assert_eq!(full[1].tracks.len(), 1);
    assert!(find_artist_full_albums(&store, ArtistId(99)).is_empty());
}

#[test]
fn albums_filtered_by_artist() {
    let store = two_artist_store();
    let titles: Vec<String> = find_albums(&store, Some(ArtistId(2))).into_iter().map(|a| a.title).collect();
    assert_eq!(titles, vec!["Three".to_string()]);
    assert_eq!(find_albums(&store, None).len(), 3);
    assert!(find_albums(&store, Some(ArtistId(7))).is_empty());
}

#[test]
fn missing_album_lists_no_tracks() {
    let store = two_artist_store();
    assert!(find_album_tracks(&store, AlbumId(42)).is_empty());
}

#[test]
fn artwork_not_found_cases() {
    let store = two_artist_store();
    let missing = find_album_artwork(&store, AlbumId(1)).unwrap_err();
    assert_eq!(missing.status_code(), 404);
    assert!(find_album_artwork(&store, AlbumId(42)).is_err());
    let found = find_album_artwork(&store, AlbumId(2)).unwrap();
    assert_eq!(found.path.0, "/m/X/Two/cover.png");
}

#[test]
fn track_under_wrong_album_not_found() {
    let store = two_artist_store();
    let t = find_album_track(&store, AlbumId(1), TrackId(2)).unwrap();
    assert_eq!(t.filename, "b.mp3");
    assert!(find_album_track(&store, AlbumId(2), TrackId(2)).is_err());
    assert!(find_album_track(&store, AlbumId(1), TrackId(4)).is_err());
    let err = find_album_track(&store, AlbumId(1), TrackId(40)).unwrap_err();
    let ms = MSError::from(err);
    assert!(ms.is_not_found());
    assert_eq!(ms.status_code(), 404);
}

#[test]
fn error_messages_and_codes() {
    let e = EntityNotFoundError::new("no such album");
    assert_eq!(e.message(), "no such album");
    assert_eq!(e.status_code(), 404);
    let ms = MSError::from(e);
    assert_eq!(ms.kind, ErrorKind::NotFound);
    assert_eq!(ms.message(), "no such album");
    let internal = MSError::internal("pool exhausted");
    assert!(!internal.is_not_found());
    assert_eq!(internal.status_code(), 500);
}

fn artist(id: i64, name: &str) -> ArtistRow {
    ArtistRow { id: ArtistId(id), name: name.to_string() }
}

fn album(id: i64, artist_id: i64, art: Option<&str>) -> AlbumRow {
    AlbumRow {
        id: AlbumId(id),
        title: format!("album{}", id),
        artist_id: ArtistId(artist_id),
        artwork_path: art.map(|p| PathBlob(p.to_string())),
    }
}

fn track(id: i64, album_id: i64, path: &str) -> TrackRow {
    TrackRow { id: TrackId(id), title: None, album_id: AlbumId(album_id), file_path: PathBlob(path.to_string()) }
}

#[test]
fn from_rows_accepts_consistent_rows() {
    let store = LibraryStore::from_rows(
        vec![artist(3, "X"), artist(9, "Y")],
        vec![album(4, 9, Some("/c.jpg")), album(5, 3, None)],
        vec![track(10, 5, "/x/a.mp3"), track(12, 4, "/y/b.mp3")],
    )
    .unwrap();
    assert_eq!((store.next_artist_id, store.next_album_id, store.next_track_id), (10, 6, 13));
    assert_eq!(find_albums(&store, Some(ArtistId(9)))[0].artist.name, "Y");
    assert_eq!(find_album_tracks(&store, AlbumId(4))[0].filename, "b.mp3");
    let empty = LibraryStore::from_rows(vec![], vec![], vec![]).unwrap();
    assert_eq!((empty.next_artist_id, empty.next_album_id, empty.next_track_id), (1, 1, 1));
}

#[test]
fn from_rows_rejects_inconsistent_rows() {
    let unordered = LibraryStore::from_rows(vec![artist(2, "X"), artist(1, "Y")], vec![], vec![]);
    assert_eq!(unordered.unwrap_err().kind, ErrorKind::Internal);
    let duplicate = LibraryStore::from_rows(vec![artist(1, "X"), artist(1, "Y")], vec![], vec![]);
    assert!(duplicate.is_err());
    let zero = LibraryStore::from_rows(vec![artist(0, "X")], vec![], vec![]);
    assert!(zero.is_err());
    let orphan_album = LibraryStore::from_rows(vec![artist(1, "X")], vec![album(1, 2, None)], vec![]);
    assert!(orphan_album.is_err());
    let orphan_track =
        LibraryStore::from_rows(vec![artist(1, "X")], vec![album(1, 1, None)], vec![track(1, 3, "/t.mp3")]);
    assert!(orphan_track.is_err());
    let last = LibraryStore::from_rows(vec![artist(i64::MAX, "X")], vec![], vec![]);
    assert!(last.is_err());
}

#[test]
fn response_wraps_values_in_order() {
    let store = two_artist_store();
    let r = musicsyncd::data_type::Response::new(find_artists(&store));
    let names: Vec<&str> = r.values.iter().map(|a| a.name.as_str()).collect();
    assert_eq!(names, vec!["X", "Y"]);
}
