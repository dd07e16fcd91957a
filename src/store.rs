use vstd::prelude::*;
use crate::data_type::{AlbumId, ArtistId, PathBlob, TrackId};
use crate::error::{ErrorKind, MSError};

verus! {

/// A row of the artists relation.
#[derive(Debug)]
pub struct ArtistRow {
    pub id: ArtistId,
    pub name: String,
}

/// A row of the albums relation.
#[derive(Debug)]
pub struct AlbumRow {
    pub id: AlbumId,
    pub title: String,
    pub artist_id: ArtistId,
    pub artwork_path: Option<PathBlob>,
}

/// A row of the tracks relation.
#[derive(Debug)]
pub struct TrackRow {
    pub id: TrackId,
    pub title: Option<String>,
    pub album_id: AlbumId,
    pub file_path: PathBlob,
}

/// The relational store of the library: three relations kept in ascending
/// id order, and for each the next identifier it will hand out. Identifiers
/// only grow, also across a wipe, so none is ever handed out twice.
#[derive(Debug)]
pub struct LibraryStore {
    pub artists: Vec<ArtistRow>,
    pub albums: Vec<AlbumRow>,
    pub tracks: Vec<TrackRow>,
    pub next_artist_id: i64,
    pub next_album_id: i64,
    pub next_track_id: i64,
}

pub open spec fn has_artist(artists: Seq<ArtistRow>, id: ArtistId) -> bool {
    exists|i: int| 0 <= i < artists.len() && (#[trigger] artists[i]).id == id
}

pub open spec fn has_album(albums: Seq<AlbumRow>, id: AlbumId) -> bool {
    exists|i: int| 0 <= i < albums.len() && (#[trigger] albums[i]).id == id
}

impl LibraryStore {
    /// Ids are positive, ascending and below the next id of their relation;
    /// every album names an artist of the store and every track an album.
    pub open spec fn wf(&self) -> bool {
        &&& 1 <= self.next_artist_id
        &&& 1 <= self.next_album_id
        &&& 1 <= self.next_track_id
        &&& forall|i: int|
            0 <= i < self.artists@.len() ==> 1 <= (#[trigger] self.artists@[i]).id.0 < self.next_artist_id
        &&& forall|i: int, j: int|
            0 <= i < j < self.artists@.len() ==> (#[trigger] self.artists@[i]).id.0
                < (#[trigger] self.artists@[j]).id.0
        &&& forall|i: int|
            0 <= i < self.albums@.len() ==> 1 <= (#[trigger] self.albums@[i]).id.0 < self.next_album_id
        &&& forall|i: int, j: int|
            0 <= i < j < self.albums@.len() ==> (#[trigger] self.albums@[i]).id.0
                < (#[trigger] self.albums@[j]).id.0
        &&& forall|i: int|
            0 <= i < self.tracks@.len() ==> 1 <= (#[trigger] self.tracks@[i]).id.0 < self.next_track_id
        &&& forall|i: int, j: int|
            0 <= i < j < self.tracks@.len() ==> (#[trigger] self.tracks@[i]).id.0
                < (#[trigger] self.tracks@[j]).id.0
        &&& forall|i: int|
            0 <= i < self.albums@.len() ==> has_artist(self.artists@, (#[trigger] self.albums@[i]).artist_id)
        &&& forall|i: int|
            0 <= i < self.tracks@.len() ==> has_album(self.albums@, (#[trigger] self.tracks@[i]).album_id)
    }

    /// An empty store whose ids start at 1.
    pub fn new() -> (r: Self)
        ensures
            r.wf(),
            r.artists@.len() == 0,
            r.albums@.len() == 0,
            r.tracks@.len() == 0,
            r.next_artist_id == 1,
            r.next_album_id == 1,
            r.next_track_id == 1,
    {
        LibraryStore {
            artists: Vec::new(),
            albums: Vec::new(),
            tracks: Vec::new(),
            next_artist_id: 1,
            next_album_id: 1,
            next_track_id: 1,
        }
    }
}

/// Empties the three relations; the id counters keep their values.
pub fn clean_db(store: &mut LibraryStore)
    requires
        old(store).wf(),
    ensures
        final(store).wf(),
        final(store).artists@.len() == 0,
        final(store).albums@.len() == 0,
        final(store).tracks@.len() == 0,
        final(store).next_artist_id == old(store).next_artist_id,
        final(store).next_album_id == old(store).next_album_id,
        final(store).next_track_id == old(store).next_track_id,
{
    store.artists = Vec::new();
    store.albums = Vec::new();
    store.tracks = Vec::new();
}

/// Ids of `ids` are positive, below `i64::MAX` and strictly ascending.
pub open spec fn ids_ascending(ids: Seq<i64>) -> bool {
    &&& forall|i: int| 0 <= i < ids.len() ==> 1 <= #[trigger] ids[i] < i64::MAX
    &&& forall|i: int, j: int| 0 <= i < j < ids.len() ==> #[trigger] ids[i] < #[trigger] ids[j]
}

/// The id that follows the largest of ascending ids: 1 when there are none.
pub open spec fn next_after(ids: Seq<i64>) -> int {
    if ids.len() == 0 {
        1
    } else {
        ids.last() + 1
    }
}

pub open spec fn artist_ids(rows: Seq<ArtistRow>) -> Seq<i64> {
    rows.map_values(|r: ArtistRow| r.id.0)
}

pub open spec fn album_ids(rows: Seq<AlbumRow>) -> Seq<i64> {
    rows.map_values(|r: AlbumRow| r.id.0)
}

pub open spec fn track_ids(rows: Seq<TrackRow>) -> Seq<i64> {
    rows.map_values(|r: TrackRow| r.id.0)
}

/// Rows read back from persistent storage form a consistent store.
pub open spec fn rows_consistent(
    artists: Seq<ArtistRow>,
    albums: Seq<AlbumRow>,
    tracks: Seq<TrackRow>,
) -> bool {
    &&& ids_ascending(artist_ids(artists))
    &&& ids_ascending(album_ids(albums))
    &&& ids_ascending(track_ids(tracks))
    &&& forall|i: int| 0 <= i < albums.len() ==> has_artist(artists, (#[trigger] albums[i]).artist_id)
    &&& forall|i: int| 0 <= i < tracks.len() ==> has_album(albums, (#[trigger] tracks[i]).album_id)
}

fn check_ascending(ids: &Vec<i64>) -> (r: bool)
    ensures
        r == ids_ascending(ids@),
{
    let mut k: usize = 0;
    while k < ids.len()
        invariant
            k <= ids@.len(),
            ids_ascending(ids@.take(k as int)),
        decreases ids.len() - k,
    {
        let id = ids[k];
        if id < 1 || id == i64::MAX || (k > 0 && ids[k - 1] >= id) {
            proof {
                if k > 0 && ids[k - 1] >= id {
                    assert(!(ids@[k - 1] < ids@[k as int]));
                }
            }
            return false;
        }
        proof {
            let next = ids@.take(k + 1);
            assert forall|i: int, j: int| 0 <= i < j < next.len() implies #[trigger] next[i]
                < #[trigger] next[j] by {
                if j == k && i < k - 1 {
                    assert(ids@.take(k as int)[i] < ids@.take(k as int)[k - 1]);
                }
            }
        }
        k = k + 1;
    }
    assert(ids@.take(k as int) =~= ids@);
    true
}

fn contains_artist(rows: &Vec<ArtistRow>, id: ArtistId) -> (r: bool)
    ensures
        r == has_artist(rows@, id),
{
    let mut k: usize = 0;
    while k < rows.len()
        invariant
            k <= rows@.len(),
            forall|p: int| 0 <= p < k ==> (#[trigger] rows@[p]).id != id,
        decreases rows.len() - k,
    {
        if rows[k].id == id {
            return true;
        }
        k = k + 1;
    }
    false
}

fn contains_album(rows: &Vec<AlbumRow>, id: AlbumId) -> (r: bool)
    ensures
        r == has_album(rows@, id),
{
    let mut k: usize = 0;
    while k < rows.len()
        invariant
            k <= rows@.len(),
            forall|p: int| 0 <= p < k ==> (#[trigger] rows@[p]).id != id,
        decreases rows.len() - k,
    {
        if rows[k].id == id {
            return true;
        }
        k = k + 1;
    }
    false
}

impl LibraryStore {
    /// A store holding rows read back from persistent storage, each relation
    /// in id order, its next ids following the largest ones; an error when
    /// the rows are not consistent.
    pub fn from_rows(artists: Vec<ArtistRow>, albums: Vec<AlbumRow>, tracks: Vec<TrackRow>) -> (r:
        Result<LibraryStore, MSError>)
        ensures
            r is Ok <==> rows_consistent(artists@, albums@, tracks@),
            r is Ok ==> {
                let s = r->Ok_0;
                &&& s.wf()
                &&& s.artists@ == artists@
                &&& s.albums@ == albums@
                &&& s.tracks@ == tracks@
                &&& s.next_artist_id == next_after(artist_ids(artists@))
                &&& s.next_album_id == next_after(album_ids(albums@))
                &&& s.next_track_id == next_after(track_ids(tracks@))
            },
            r is Err ==> r->Err_0.kind == ErrorKind::Internal,
    {
        let mut ids: Vec<i64> = Vec::new();
        let mut k: usize = 0;
        while k < artists.len()
            invariant
                k <= artists@.len(),
                ids@ == artist_ids(artists@.take(k as int)),
            decreases artists.len() - k,
        {
            ids.push(artists[k].id.0);
            assert(artists@.take(k + 1) =~= artists@.take(k as int).push(artists@[k as int]));
            assert(ids@ =~= artist_ids(artists@.take(k + 1)));
            k = k + 1;
        }
        assert(artists@.take(k as int) =~= artists@);
        if !check_ascending(&ids) {
            return Err(MSError::internal("stored artists are not in ascending id order"));
        }
        let next_artist_id = if ids.len() == 0 { 1 } else { ids[ids.len() - 1] + 1 };

        let mut ids: Vec<i64> = Vec::new();
        let mut k: usize = 0;
        while k < albums.len()
            invariant
                k <= albums@.len(),
                ids@ == album_ids(albums@.take(k as int)),
            decreases albums.len() - k,
        {
            ids.push(albums[k].id.0);
            assert(albums@.take(k + 1) =~= albums@.take(k as int).push(albums@[k as int]));
            assert(ids@ =~= album_ids(albums@.take(k + 1)));
            k = k + 1;
        }
        assert(albums@.take(k as int) =~= albums@);
        if !check_ascending(&ids) {
            return Err(MSError::internal("stored albums are not in ascending id order"));
        }
        let next_album_id = if ids.len() == 0 { 1 } else { ids[ids.len() - 1] + 1 };

        let mut ids: Vec<i64> = Vec::new();
        let mut k: usize = 0;
        while k < tracks.len()
            invariant
                k <= tracks@.len(),
                ids@ == track_ids(tracks@.take(k as int)),
            decreases tracks.len() - k,
        {
            ids.push(tracks[k].id.0);
            assert(tracks@.take(k + 1) =~= tracks@.take(k as int).push(tracks@[k as int]));
            assert(ids@ =~= track_ids(tracks@.take(k + 1)));
            k = k + 1;
        }
        assert(tracks@.take(k as int) =~= tracks@);
        if !check_ascending(&ids) {
            return Err(MSError::internal("stored tracks are not in ascending id order"));
        }
        let next_track_id = if ids.len() == 0 { 1 } else { ids[ids.len() - 1] + 1 };

        let mut k: usize = 0;
        while k < albums.len()
            invariant
                k <= albums@.len(),
                forall|i: int| 0 <= i < k ==> has_artist(artists@, (#[trigger] albums@[i]).artist_id),
            decreases albums.len() - k,
        {
            if !contains_artist(&artists, albums[k].artist_id) {
                return Err(MSError::internal("a stored album refers to a missing artist"));
            }
            k = k + 1;
        }
        let mut k: usize = 0;
        while k < tracks.len()
            invariant
                k <= tracks@.len(),
                forall|i: int| 0 <= i < k ==> has_album(albums@, (#[trigger] tracks@[i]).album_id),
            decreases tracks.len() - k,
        {
            if !contains_album(&albums, tracks[k].album_id) {
                return Err(MSError::internal("a stored track refers to a missing album"));
            }
            k = k + 1;
        }
        let s = LibraryStore { artists, albums, tracks, next_artist_id, next_album_id, next_track_id };
        proof {
            assert forall|i: int| 0 <= i < s.artists@.len() implies 1 <= (
            #[trigger] s.artists@[i]).id.0 < s.next_artist_id by {
                assert(artist_ids(s.artists@)[i] == s.artists@[i].id.0);
                if i < s.artists@.len() - 1 {
                    assert(artist_ids(s.artists@)[i] < artist_ids(s.artists@)[s.artists@.len() - 1]);
                }
            }
            assert forall|i: int, j: int| 0 <= i < j < s.artists@.len() implies (
            #[trigger] s.artists@[i]).id.0 < (#[trigger] s.artists@[j]).id.0 by {
                assert(artist_ids(s.artists@)[i] < artist_ids(s.artists@)[j]);
            }
            assert forall|i: int| 0 <= i < s.albums@.len() implies 1 <= (
            #[trigger] s.albums@[i]).id.0 < s.next_album_id by {
                assert(album_ids(s.albums@)[i] == s.albums@[i].id.0);
                if i < s.albums@.len() - 1 {
                    assert(album_ids(s.albums@)[i] < album_ids(s.albums@)[s.albums@.len() - 1]);
                }
            }
            assert forall|i: int, j: int| 0 <= i < j < s.albums@.len() implies (
            #[trigger] s.albums@[i]).id.0 < (#[trigger] s.albums@[j]).id.0 by {
                assert(album_ids(s.albums@)[i] < album_ids(s.albums@)[j]);
            }
            assert forall|i: int| 0 <= i < s.tracks@.len() implies 1 <= (
            #[trigger] s.tracks@[i]).id.0 < s.next_track_id by {
                assert(track_ids(s.tracks@)[i] == s.tracks@[i].id.0);
                if i < s.tracks@.len() - 1 {
                    assert(track_ids(s.tracks@)[i] < track_ids(s.tracks@)[s.tracks@.len() - 1]);
                }
            }
            assert forall|i: int, j: int| 0 <= i < j < s.tracks@.len() implies (
            #[trigger] s.tracks@[i]).id.0 < (#[trigger] s.tracks@[j]).id.0 by {
                assert(track_ids(s.tracks@)[i] < track_ids(s.tracks@)[j]);
            }
        }
        Ok(s)
    }
}

} // verus!
