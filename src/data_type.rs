use vstd::prelude::*;

verus! {

#[derive(Clone, Copy, Debug, PartialEq, Eq, Structural)]
pub struct ArtistId(pub i64);

#[derive(Clone, Copy, Debug, PartialEq, Eq, Structural)]
pub struct AlbumId(pub i64);

#[derive(Clone, Copy, Debug, PartialEq, Eq, Structural)]
pub struct TrackId(pub i64);

/// A filesystem path as it is kept in a path column of the store.
#[derive(Debug)]
pub struct PathBlob(pub String);

#[derive(Debug)]
pub struct Artist {
    pub id: ArtistId,
    pub name: String,
}

pub struct ArtistView {
    pub id: ArtistId,
    pub name: Seq<char>,
}

impl View for Artist {
    type V = ArtistView;

    open spec fn view(&self) -> ArtistView {
        ArtistView { id: self.id, name: self.name@ }
    }
}

#[derive(Debug)]
pub struct Album {
    pub id: AlbumId,
    pub title: String,
    pub artist: Artist,
}

pub struct AlbumView {
    pub id: AlbumId,
    pub title: Seq<char>,
    pub artist: ArtistView,
}

impl View for Album {
    type V = AlbumView;

    open spec fn view(&self) -> AlbumView {
        AlbumView { id: self.id, title: self.title@, artist: self.artist@ }
    }
}

/// The artwork file found for an album.
#[derive(Debug)]
pub struct AlbumArtwork {
    pub album_id: AlbumId,
    pub path: PathBlob,
}

#[derive(Debug)]
pub struct Track {
    pub id: TrackId,
    pub title: Option<String>,
    pub filename: String,
    pub path: String,
}

pub struct TrackView {
    pub id: TrackId,
    pub title: Option<Seq<char>>,
    pub filename: Seq<char>,
    pub path: Seq<char>,
}

pub open spec fn opt_view(s: Option<String>) -> Option<Seq<char>> {
    match s {
        Some(t) => Some(t@),
        None => None,
    }
}

impl View for Track {
    type V = TrackView;

    open spec fn view(&self) -> TrackView {
        TrackView {
            id: self.id,
            title: opt_view(self.title),
            filename: self.filename@,
            path: self.path@,
        }
    }
}

pub open spec fn track_views(ts: Seq<Track>) -> Seq<TrackView> {
    ts.map_values(|t: Track| t@)
}

/// An album together with all of its tracks.
#[derive(Debug)]
pub struct FullAlbum {
    pub album: Album,
    pub tracks: Vec<Track>,
}

pub struct FullAlbumView {
    pub album: AlbumView,
    pub tracks: Seq<TrackView>,
}

impl View for FullAlbum {
    type V = FullAlbumView;

    open spec fn view(&self) -> FullAlbumView {
        FullAlbumView { album: self.album@, tracks: track_views(self.tracks@) }
    }
}

/// The envelope in which list results are handed to callers.
#[derive(Debug)]
pub struct Response<T> {
    pub values: Vec<T>,
}

impl<T> Response<T> {
    pub fn new(values: Vec<T>) -> (r: Self)
        ensures
            r.values@ == values@,
    {
        Response { values }
    }
}

} // verus!
