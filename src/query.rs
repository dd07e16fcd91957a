use vstd::prelude::*;
use crate::data_type::{
    opt_view, track_views, Album, AlbumArtwork, AlbumId, AlbumView, Artist, ArtistId, ArtistView, FullAlbum,
    FullAlbumView, PathBlob, Track, TrackId, TrackView,
};
use crate::error::EntityNotFoundError;
use crate::store::{has_album, has_artist, AlbumRow, ArtistRow, LibraryStore, TrackRow};

verus! {

broadcast use Seq::lemma_filter_push;

/// What `std::path::Path::file_name` gives for a path: its last component,
/// or none when the path ends in `..` or is a root.
pub uninterp spec fn path_file_name(path: Seq<char>) -> Option<Seq<char>>;

/// Relies on `std::path::Path::file_name` for the last component of a path,
/// read back with `to_string_lossy`, which is exact on a path made from a
/// `String`.
#[verifier::external_body]
fn file_name_of(path: &String) -> (r: Option<String>)
    ensures
        opt_view(r) == path_file_name(path@),
{
    match std::path::Path::new(path.as_str()).file_name() {
        Some(n) => Some(n.to_string_lossy().into_owned()),
        None => None,
    }
}

/// The file name shown for a track: the last component of its path, or
/// empty when the path has none.
pub open spec fn filename_of(path: Seq<char>) -> Seq<char> {
    match path_file_name(path) {
        Some(n) => n,
        None => Seq::empty(),
    }
}

pub open spec fn track_view_of(row: TrackRow) -> TrackView {
    TrackView {
        id: row.id,
        title: opt_view(row.title),
        filename: filename_of(row.file_path.0@),
        path: row.file_path.0@,
    }
}

pub open spec fn artist_view_of(row: ArtistRow) -> ArtistView {
    ArtistView { id: row.id, name: row.name@ }
}

/// The rows of `tracks` that refer to album `album_id`, in store order.
pub open spec fn tracks_of_album(tracks: Seq<TrackRow>, album_id: AlbumId) -> Seq<TrackRow> {
    tracks.filter(|t: TrackRow| t.album_id == album_id)
}

/// What listing the tracks of album `album_id` returns.
pub open spec fn album_tracks_view(store: LibraryStore, album_id: AlbumId) -> Seq<TrackView> {
    track_row_views(tracks_of_album(store.tracks@, album_id))
}

/// The name of the artist with id `id` (ids are unique in a well-formed store).
pub open spec fn artist_name_of(artists: Seq<ArtistRow>, id: ArtistId) -> Seq<char> {
    let i = choose|i: int| 0 <= i < artists.len() && artists[i].id == id;
    artists[i].name@
}

pub open spec fn album_view_of(store: LibraryStore, row: AlbumRow) -> AlbumView {
    AlbumView {
        id: row.id,
        title: row.title@,
        artist: ArtistView { id: row.artist_id, name: artist_name_of(store.artists@, row.artist_id) },
    }
}

pub open spec fn album_matches(row: AlbumRow, artist: Option<ArtistId>) -> bool {
    match artist {
        Some(a) => row.artist_id == a,
        None => true,
    }
}

pub open spec fn albums_of_artist(albums: Seq<AlbumRow>, artist: Option<ArtistId>) -> Seq<AlbumRow> {
    albums.filter(|r: AlbumRow| album_matches(r, artist))
}

pub open spec fn album_row_views(store: LibraryStore, rows: Seq<AlbumRow>) -> Seq<AlbumView> {
    rows.map_values(|r: AlbumRow| album_view_of(store, r))
}

/// What listing the albums, of one artist or of all, returns.
pub open spec fn albums_view(store: LibraryStore, artist: Option<ArtistId>) -> Seq<AlbumView> {
    album_row_views(store, albums_of_artist(store.albums@, artist))
}

pub open spec fn album_views(albums: Seq<Album>) -> Seq<AlbumView> {
    albums.map_values(|a: Album| a@)
}

/// An album with the tracks that listing that album's tracks returns.
pub open spec fn full_view_of(store: LibraryStore, a: AlbumView) -> FullAlbumView {
    FullAlbumView { album: a, tracks: album_tracks_view(store, a.id) }
}

/// What listing the full albums of an artist returns: each of its albums
/// with the tracks that listing that album's tracks returns.
pub open spec fn full_albums_view(store: LibraryStore, artist_id: ArtistId) -> Seq<FullAlbumView> {
    albums_view(store, Some(artist_id)).map_values(|a: AlbumView| full_view_of(store, a))
}

pub open spec fn full_album_views(fs: Seq<FullAlbum>) -> Seq<FullAlbumView> {
    fs.map_values(|f: FullAlbum| f@)
}

/// The index of the row with id `id` (ids are unique in a well-formed store).
pub open spec fn album_index(albums: Seq<AlbumRow>, id: AlbumId) -> int {
    choose|i: int| 0 <= i < albums.len() && albums[i].id == id
}

/// The artwork path of album `album_id`, when that album exists and has one.
pub open spec fn artwork_of_album(store: LibraryStore, album_id: AlbumId) -> Option<Seq<char>> {
    if has_album(store.albums@, album_id) {
        match store.albums@[album_index(store.albums@, album_id)].artwork_path {
            Some(p) => Some(p.0@),
            None => None,
        }
    } else {
        None
    }
}

/// Some track of the store has id `track_id` and belongs to album `album_id`.
pub open spec fn track_in_album(store: LibraryStore, album_id: AlbumId, track_id: TrackId) -> bool {
    exists|i: int|
        0 <= i < store.tracks@.len() && (#[trigger] store.tracks@[i]).id == track_id
            && store.tracks@[i].album_id == album_id
}

/// The index of the track row with id `id` (ids are unique in a well-formed store).
pub open spec fn track_index(tracks: Seq<TrackRow>, id: TrackId) -> int {
    choose|i: int| 0 <= i < tracks.len() && tracks[i].id == id
}

pub open spec fn track_row_views(rows: Seq<TrackRow>) -> Seq<TrackView> {
    rows.map_values(|t: TrackRow| track_view_of(t))
}

pub open spec fn artist_views(artists: Seq<Artist>) -> Seq<ArtistView> {
    artists.map_values(|a: Artist| a@)
}

pub open spec fn artist_row_views(rows: Seq<ArtistRow>) -> Seq<ArtistView> {
    rows.map_values(|a: ArtistRow| artist_view_of(a))
}

fn clone_title(t: &Option<String>) -> (r: Option<String>)
    ensures
        r == *t,
{
    match t {
        Some(s) => Some(s.clone()),
        None => None,
    }
}

fn track_of_row(row: &TrackRow) -> (r: Track)
    ensures
        r@ == track_view_of(*row),
{
    let filename = match file_name_of(&row.file_path.0) {
        Some(n) => n,
        None => String::new(),
    };
    Track {
        id: row.id,
        title: clone_title(&row.title),
        filename,
        path: row.file_path.0.clone(),
    }
}

/// Every artist of the store, in id order.
pub fn find_artists(store: &LibraryStore) -> (r: Vec<Artist>)
    ensures
        artist_views(r@) == artist_row_views(store.artists@),
{
    let mut out: Vec<Artist> = Vec::new();
    let mut k: usize = 0;
    while k < store.artists.len()
        invariant
            k <= store.artists@.len(),
            artist_views(out@) == artist_row_views(store.artists@.take(k as int)),
        decreases store.artists.len() - k,
    {
        let row = &store.artists[k];
        let ghost prev = out@;
        let a = Artist { id: row.id, name: row.name.clone() };
        assert(a@ == artist_view_of(*row));
        out.push(a);
        proof {
            assert(store.artists@.take(k + 1) =~= store.artists@.take(k as int).push(*row));
            assert(artist_views(out@) =~= artist_views(prev).push(artist_view_of(*row)));
            assert(artist_row_views(store.artists@.take(k + 1)) =~= artist_row_views(
                store.artists@.take(k as int),
            ).push(artist_view_of(*row)));
            assert(artist_views(out@) =~= artist_row_views(store.artists@.take(k + 1)));
        }
        k = k + 1;
    }
    assert(store.artists@.take(k as int) =~= store.artists@);
    out
}

/// The tracks of album `album_id`, in store order; none when no album has
/// that id.
pub fn find_album_tracks(store: &LibraryStore, album_id: AlbumId) -> (r: Vec<Track>)
    ensures
        track_views(r@) == album_tracks_view(*store, album_id),
{
    let mut out: Vec<Track> = Vec::new();
    let mut k: usize = 0;
    while k < store.tracks.len()
        invariant
            k <= store.tracks@.len(),
            track_views(out@) == track_row_views(
                tracks_of_album(store.tracks@.take(k as int), album_id),
            ),
        decreases store.tracks.len() - k,
    {
        let row = &store.tracks[k];
        proof {
            assert(store.tracks@.take(k + 1) =~= store.tracks@.take(k as int).push(*row));
        }
        if row.album_id == album_id {
            let t = track_of_row(row);
            let ghost prev = out@;
            out.push(t);
            proof {
                let rows = tracks_of_album(store.tracks@.take(k as int), album_id);
                assert(tracks_of_album(store.tracks@.take(k + 1), album_id) == rows.push(*row));
                assert(track_views(out@) =~= track_views(prev).push(track_view_of(*row)));
                assert(track_row_views(rows.push(*row)) =~= track_row_views(rows).push(
                    track_view_of(*row),
                ));
                assert(track_views(out@) =~= track_row_views(
                    tracks_of_album(store.tracks@.take(k + 1), album_id),
                ));
            }
        }
        k = k + 1;
    }
    assert(store.tracks@.take(k as int) =~= store.tracks@);
    out
}

fn artist_name(store: &LibraryStore, id: ArtistId) -> (r: String)
    requires
        store.wf(),
        has_artist(store.artists@, id),
    ensures
        r@ == artist_name_of(store.artists@, id),
{
    let mut q: usize = 0;
    while q < store.artists.len()
        invariant
            store.wf(),
            has_artist(store.artists@, id),
            q <= store.artists@.len(),
            forall|p: int| 0 <= p < q ==> (#[trigger] store.artists@[p]).id != id,
        decreases store.artists.len() - q,
    {
        if store.artists[q].id == id {
            proof {
                let c = choose|i: int| 0 <= i < store.artists@.len() && store.artists@[i].id == id;
                if c > q {
                    assert(store.artists@[q as int].id.0 < store.artists@[c].id.0);
                }
            }
            return store.artists[q].name.clone();
        }
        q = q + 1;
    }
    String::new()
}

fn clone_album(a: &Album) -> (r: Album)
    ensures
        r@ == a@,
{
    Album {
        id: a.id,
        title: a.title.clone(),
        artist: Artist { id: a.artist.id, name: a.artist.name.clone() },
    }
}

/// The albums of the store, of artist `artist_id` when one is given, each
/// with its artist, in store order.
pub fn find_albums(store: &LibraryStore, artist_id: Option<ArtistId>) -> (r: Vec<Album>)
    requires
        store.wf(),
    ensures
        album_views(r@) == albums_view(*store, artist_id),
{
    let mut out: Vec<Album> = Vec::new();
    let mut k: usize = 0;
    while k < store.albums.len()
        invariant
            store.wf(),
            k <= store.albums@.len(),
            album_views(out@) == album_row_views(
                *store,
                albums_of_artist(store.albums@.take(k as int), artist_id),
            ),
        decreases store.albums.len() - k,
    {
        let row = &store.albums[k];
        proof {
            assert(store.albums@.take(k + 1) =~= store.albums@.take(k as int).push(*row));
        }
        let wanted = match artist_id {
            Some(a) => row.artist_id == a,
            None => true,
        };
        if wanted {
            let name = artist_name(store, row.artist_id);
            let album = Album {
                id: row.id,
                title: row.title.clone(),
                artist: Artist { id: row.artist_id, name },
            };
            let ghost prev = out@;
            out.push(album);
            proof {
                let rows = albums_of_artist(store.albums@.take(k as int), artist_id);
                assert(albums_of_artist(store.albums@.take(k + 1), artist_id) == rows.push(*row));
                assert(album_views(out@) =~= album_views(prev).push(album_view_of(*store, *row)));
                assert(album_row_views(*store, rows.push(*row)) =~= album_row_views(
                    *store,
                    rows,
                ).push(album_view_of(*store, *row)));
            }
        }
        k = k + 1;
    }
    assert(store.albums@.take(k as int) =~= store.albums@);
    out
}

/// Each album of artist `artist_id`, in store order, together with exactly
/// the tracks that listing that album's tracks returns.
pub fn find_artist_full_albums(store: &LibraryStore, artist_id: ArtistId) -> (r: Vec<FullAlbum>)
    requires
        store.wf(),
    ensures
        full_album_views(r@) == full_albums_view(*store, artist_id),
{
    let albums = find_albums(store, Some(artist_id));
    let ghost want = full_albums_view(*store, artist_id);
    let mut out: Vec<FullAlbum> = Vec::new();
    let mut k: usize = 0;
    while k < albums.len()
        invariant
            k <= albums@.len(),
            album_views(albums@) == albums_view(*store, Some(artist_id)),
            want == full_albums_view(*store, artist_id),
            full_album_views(out@) == want.take(k as int),
        decreases albums.len() - k,
    {
        let album = clone_album(&albums[k]);
        let tracks = find_album_tracks(store, album.id);
        let ghost prev = out@;
        proof {
            assert(album_views(albums@)[k as int] == albums@[k as int]@);
        }
        let fa = FullAlbum { album, tracks };
        assert(fa@ == full_view_of(*store, albums@[k as int]@));
        out.push(fa);
        proof {
            assert(full_album_views(out@) =~= full_album_views(prev).push(fa@));
            assert(want.take(k + 1) =~= want.take(k as int).push(want[k as int]));
        }
        k = k + 1;
    }
    assert(want.take(k as int) =~= want);
    out
}

/// The artwork of album `album_id`; not found when no album has that id or
/// the album has no artwork.
pub fn find_album_artwork(store: &LibraryStore, album_id: AlbumId) -> (r: Result<
    AlbumArtwork,
    EntityNotFoundError,
>)
    requires
        store.wf(),
    ensures
        match r {
            Ok(a) => a.album_id == album_id && artwork_of_album(*store, album_id) == Some(a.path.0@),
            Err(_) => artwork_of_album(*store, album_id) is None,
        },
{
    let mut q: usize = 0;
    while q < store.albums.len()
        invariant
            store.wf(),
            q <= store.albums@.len(),
            forall|p: int| 0 <= p < q ==> (#[trigger] store.albums@[p]).id != album_id,
        decreases store.albums.len() - q,
    {
        let row = &store.albums[q];
        if row.id == album_id {
            proof {
                let c = album_index(store.albums@, album_id);
                assert(store.albums@[q as int].id == album_id);
                if c > q {
                    assert(store.albums@[q as int].id.0 < store.albums@[c].id.0);
                }
            }
            return match &row.artwork_path {
                Some(p) => Ok(AlbumArtwork { album_id, path: PathBlob(p.0.clone()) }),
                None => Err(EntityNotFoundError::new("album has no artwork")),
            };
        }
        q = q + 1;
    }
    Err(EntityNotFoundError::new("album not found"))
}

/// Track `track_id` of album `album_id`; not found when no track has that
/// id or it belongs to another album.
pub fn find_album_track(store: &LibraryStore, album_id: AlbumId, track_id: TrackId) -> (r: Result<
    Track,
    EntityNotFoundError,
>)
    requires
        store.wf(),
    ensures
        r is Ok <==> track_in_album(*store, album_id, track_id),
        r is Ok ==> r->Ok_0@ == track_view_of(store.tracks@[track_index(store.tracks@, track_id)]),
{
    let mut q: usize = 0;
    while q < store.tracks.len()
        invariant
            store.wf(),
            q <= store.tracks@.len(),
            forall|p: int| 0 <= p < q ==> (#[trigger] store.tracks@[p]).id != track_id,
        decreases store.tracks.len() - q,
    {
        let row = &store.tracks[q];
        if row.id == track_id {
            proof {
                let c = track_index(store.tracks@, track_id);
                assert(store.tracks@[q as int].id == track_id);
                if c > q {
                    assert(store.tracks@[q as int].id.0 < store.tracks@[c].id.0);
                }
                if track_in_album(*store, album_id, track_id) {
                    let w = choose|i: int|
                        0 <= i < store.tracks@.len() && (#[trigger] store.tracks@[i]).id == track_id
                            && store.tracks@[i].album_id == album_id;
                    if w > q {
                        assert(store.tracks@[q as int].id.0 < store.tracks@[w].id.0);
                    }
                }
            }
            if row.album_id == album_id {
                return Ok(track_of_row(row));
            } else {
                return Err(EntityNotFoundError::new("track not found in album"));
            }
        }
        q = q + 1;
    }
    Err(EntityNotFoundError::new("track not found"))
}

} // verus!
