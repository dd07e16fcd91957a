use vstd::prelude::*;
use crate::data_type::{AlbumId, ArtistId, PathBlob, TrackId};
use crate::error::{ErrorKind, MSError};
use crate::plan::{AlbumPlan, ArtistPlan, TrackPlan};
use crate::store::{has_album, has_artist, AlbumRow, ArtistRow, LibraryStore, TrackRow};

verus! {

/// The albums of artist `i`, each tagged with `i`.
pub open spec fn album_block(i: int, a: ArtistPlan) -> Seq<(int, AlbumPlan)> {
    a.albums@.map_values(|al: AlbumPlan| (i, al))
}

/// Every album of the plan, artist by artist, tagged with its artist's index.
pub open spec fn album_pairs(plan: Seq<ArtistPlan>) -> Seq<(int, AlbumPlan)>
    decreases plan.len(),
{
    if plan.len() == 0 {
        Seq::empty()
    } else {
        album_pairs(plan.drop_last()) + album_block(plan.len() - 1, plan.last())
    }
}

/// The tracks of album `k`, each tagged with `k`.
pub open spec fn track_block(k: int, al: AlbumPlan) -> Seq<(int, TrackPlan)> {
    al.tracks@.map_values(|t: TrackPlan| (k, t))
}

/// Every track of a sequence of albums, album by album, tagged with its
/// album's index in that sequence.
pub open spec fn track_pairs(albums: Seq<(int, AlbumPlan)>) -> Seq<(int, TrackPlan)>
    decreases albums.len(),
{
    if albums.len() == 0 {
        Seq::empty()
    } else {
        track_pairs(albums.drop_last()) + track_block(albums.len() - 1, albums.last().1)
    }
}

pub open spec fn blob_of(p: Option<String>) -> Option<PathBlob> {
    match p {
        Some(s) => Some(PathBlob(s)),
        None => None,
    }
}

/// Artist `i` of the plan gets id `a0 + i`.
pub open spec fn artist_rows(plan: Seq<ArtistPlan>, a0: int) -> Seq<ArtistRow> {
    plan.map(|i: int, a: ArtistPlan| ArtistRow { id: ArtistId((a0 + i) as i64), name: a.name })
}

/// Album `k` gets id `b0 + k` and refers to the id of its artist.
pub open spec fn album_rows(albums: Seq<(int, AlbumPlan)>, a0: int, b0: int) -> Seq<AlbumRow> {
    albums.map(
        |k: int, p: (int, AlbumPlan)|
            AlbumRow {
                id: AlbumId((b0 + k) as i64),
                title: p.1.title,
                artist_id: ArtistId((a0 + p.0) as i64),
                artwork_path: blob_of(p.1.artwork),
            },
    )
}

/// Track `m` gets id `c0 + m` and refers to the id of its album.
pub open spec fn track_rows(tracks: Seq<(int, TrackPlan)>, b0: int, c0: int) -> Seq<TrackRow> {
    tracks.map(
        |m: int, p: (int, TrackPlan)|
            TrackRow {
                id: TrackId((c0 + m) as i64),
                title: p.1.title,
                album_id: AlbumId((b0 + p.0) as i64),
                file_path: PathBlob(p.1.path),
            },
    )
}

/// The ids the plan needs, counted from the store's next ids, fit in `i64`.
pub open spec fn plan_fits(store: LibraryStore, plan: Seq<ArtistPlan>) -> bool {
    &&& store.next_artist_id + plan.len() <= i64::MAX
    &&& store.next_album_id + album_pairs(plan).len() <= i64::MAX
    &&& store.next_track_id + track_pairs(album_pairs(plan)).len() <= i64::MAX
}

/// `new` holds exactly the rows of `plan`, numbered from the next ids of `old`.
pub open spec fn rebuilt(old: LibraryStore, plan: Seq<ArtistPlan>, new: LibraryStore) -> bool {
    let a0 = old.next_artist_id as int;
    let b0 = old.next_album_id as int;
    let c0 = old.next_track_id as int;
    let albums = album_pairs(plan);
    let tracks = track_pairs(albums);
    &&& new.artists@ == artist_rows(plan, a0)
    &&& new.albums@ == album_rows(albums, a0, b0)
    &&& new.tracks@ == track_rows(tracks, b0, c0)
    &&& new.next_artist_id == a0 + plan.len()
    &&& new.next_album_id == b0 + albums.len()
    &&& new.next_track_id == c0 + tracks.len()
}

pub open spec fn is_prefix<T>(x: Seq<T>, y: Seq<T>) -> bool {
    x.len() <= y.len() && forall|i: int| 0 <= i < x.len() ==> x[i] == y[i]
}

pub(crate) proof fn lemma_album_pairs_step(plan: Seq<ArtistPlan>, i: int)
    requires
        0 <= i < plan.len(),
    ensures
        album_pairs(plan.take(i + 1)) == album_pairs(plan.take(i)) + album_block(i, plan[i]),
{
    assert(plan.take(i + 1).drop_last() =~= plan.take(i));
}

pub(crate) proof fn lemma_album_pairs_prefix(plan: Seq<ArtistPlan>, n1: int, n2: int)
    requires
        0 <= n1 <= n2 <= plan.len(),
    ensures
        is_prefix(album_pairs(plan.take(n1)), album_pairs(plan.take(n2))),
    decreases n2 - n1,
{
    if n1 < n2 {
        lemma_album_pairs_prefix(plan, n1, n2 - 1);
        lemma_album_pairs_step(plan, n2 - 1);
    }
}

pub(crate) proof fn lemma_track_pairs_push(albums: Seq<(int, AlbumPlan)>, p: (int, AlbumPlan))
    ensures
        track_pairs(albums.push(p)) == track_pairs(albums) + track_block(albums.len() as int, p.1),
{
    assert(albums.push(p).drop_last() =~= albums);
}

pub(crate) proof fn lemma_track_pairs_prefix(x: Seq<(int, AlbumPlan)>, z: Seq<(int, AlbumPlan)>)
    requires
        is_prefix(x, z),
    ensures
        is_prefix(track_pairs(x), track_pairs(z)),
    decreases z.len(),
{
    if x.len() == z.len() {
        assert(x =~= z);
    } else {
        lemma_track_pairs_prefix(x, z.drop_last());
    }
}

pub(crate) proof fn lemma_album_pairs_range(plan: Seq<ArtistPlan>)
    ensures
        forall|k: int|
            0 <= k < album_pairs(plan).len() ==> 0 <= (#[trigger] album_pairs(plan)[k]).0 < plan.len(),
    decreases plan.len(),
{
    if plan.len() > 0 {
        lemma_album_pairs_range(plan.drop_last());
        let front = album_pairs(plan.drop_last());
        let back = album_block(plan.len() - 1, plan.last());
        assert forall|k: int| 0 <= k < album_pairs(plan).len() implies 0 <= (
        #[trigger] album_pairs(plan)[k]).0 < plan.len() by {
            if k < front.len() {
                assert(album_pairs(plan)[k] == front[k]);
            } else {
                assert(album_pairs(plan)[k] == back[k - front.len()]);
            }
        }
    }
}

pub(crate) proof fn lemma_track_pairs_range(albums: Seq<(int, AlbumPlan)>)
    ensures
        forall|m: int|
            0 <= m < track_pairs(albums).len() ==> 0 <= (#[trigger] track_pairs(albums)[m]).0 < albums.len(),
    decreases albums.len(),
{
    if albums.len() > 0 {
        lemma_track_pairs_range(albums.drop_last());
        let front = track_pairs(albums.drop_last());
        let back = track_block(albums.len() - 1, albums.last().1);
        assert forall|m: int| 0 <= m < track_pairs(albums).len() implies 0 <= (
        #[trigger] track_pairs(albums)[m]).0 < albums.len() by {
            if m < front.len() {
                assert(track_pairs(albums)[m] == front[m]);
            } else {
                assert(track_pairs(albums)[m] == back[m - front.len()]);
            }
        }
    }
}

fn clone_title(t: &Option<String>) -> (r: Option<String>)
    ensures
        r == *t,
{
    match t {
        Some(s) => Some(s.clone()),
        None => None,
    }
}

fn blob_clone(p: &Option<String>) -> (r: Option<PathBlob>)
    ensures
        r == blob_of(*p),
{
    match p {
        Some(s) => Some(PathBlob(s.clone())),
        None => None,
    }
}

/// Wipes the store and rebuilds it from `plan` as one atomic step: each
/// artist, album and track of the plan becomes one row, numbered from the
/// store's next ids, albums referring to their artist and tracks to their
/// album. When the ids would not fit in `i64` the store is left as it was.
pub fn reload_db(plan: &Vec<ArtistPlan>, store: &mut LibraryStore) -> (r: Result<(), MSError>)
    requires
        old(store).wf(),
    ensures
        r is Ok <==> plan_fits(*old(store), plan@),
        r is Ok ==> rebuilt(*old(store), plan@, *final(store)) && final(store).wf(),
        r is Err ==> *final(store) == *old(store) && r->Err_0.kind == ErrorKind::Internal,
{
    let ghost a0 = store.next_artist_id as int;
    let ghost b0 = store.next_album_id as int;
    let ghost c0 = store.next_track_id as int;
    let ghost n = plan@.len() as int;
    let mut artists: Vec<ArtistRow> = Vec::new();
    let mut albums: Vec<AlbumRow> = Vec::new();
    let mut tracks: Vec<TrackRow> = Vec::new();
    let mut next_artist = store.next_artist_id;
    let mut next_album = store.next_album_id;
    let mut next_track = store.next_track_id;
    let ghost mut ap: Seq<(int, AlbumPlan)> = Seq::empty();
    let ghost mut tp: Seq<(int, TrackPlan)> = Seq::empty();
    proof {
        assert(plan@.take(0) =~= Seq::<ArtistPlan>::empty());
        assert(artists@ =~= artist_rows(plan@.take(0), a0));
        assert(albums@ =~= album_rows(ap, a0, b0));
        assert(tracks@ =~= track_rows(tp, b0, c0));
    }
    let mut i: usize = 0;
    while i < plan.len()
        invariant
            i <= plan.len(),
            n == plan@.len(),
            a0 == old(store).next_artist_id,
            b0 == old(store).next_album_id,
            c0 == old(store).next_track_id,
            *store == *old(store),
            ap == album_pairs(plan@.take(i as int)),
            tp == track_pairs(ap),
            artists@ == artist_rows(plan@.take(i as int), a0),
            albums@ == album_rows(ap, a0, b0),
            tracks@ == track_rows(tp, b0, c0),
            next_artist == a0 + i,
            next_album == b0 + ap.len(),
            next_track == c0 + tp.len(),
        decreases plan.len() - i,
    {
        let a = &plan[i];
        if next_artist == i64::MAX {
            return Err(MSError::internal("artist ids exhausted"));
        }
        let aid = next_artist;
        artists.push(ArtistRow { id: ArtistId(aid), name: a.name.clone() });
        next_artist = next_artist + 1;
        proof {
            assert(plan@.take(i + 1) =~= plan@.take(i as int).push(plan@[i as int]));
            assert(artists@ =~= artist_rows(plan@.take(i + 1), a0));
            lemma_album_pairs_step(plan@, i as int);
            lemma_album_pairs_prefix(plan@, i + 1, n);
            assert(plan@.take(n) =~= plan@);
            assert(album_block(i as int, *a).take(0) =~= Seq::<(int, AlbumPlan)>::empty());
            assert(ap =~= album_pairs(plan@.take(i as int)) + album_block(i as int, *a).take(0));
        }
        let mut j: usize = 0;
        while j < a.albums.len()
            invariant
                i < plan.len(),
                n == plan@.len(),
                a0 == old(store).next_artist_id,
                b0 == old(store).next_album_id,
                c0 == old(store).next_track_id,
                *store == *old(store),
                a == plan@[i as int],
                aid == a0 + i,
                j <= a.albums@.len(),
                ap == album_pairs(plan@.take(i as int)) + album_block(i as int, *a).take(j as int),
                album_pairs(plan@.take(i + 1)) == album_pairs(plan@.take(i as int)) + album_block(
                    i as int,
                    *a,
                ),
                is_prefix(album_pairs(plan@.take(i + 1)), album_pairs(plan@)),
                tp == track_pairs(ap),
                artists@ == artist_rows(plan@.take(i + 1), a0),
                albums@ == album_rows(ap, a0, b0),
                tracks@ == track_rows(tp, b0, c0),
                next_artist == a0 + i + 1,
                next_album == b0 + ap.len(),
                next_track == c0 + tp.len(),
            decreases a.albums.len() - j,
        {
            let al = &a.albums[j];
            let ghost block = album_block(i as int, *a);
            proof {
                assert(block.take(j + 1) =~= block.take(j as int).push((i as int, *al)));
                assert(is_prefix(ap.push((i as int, *al)), album_pairs(plan@)));
            }
            if next_album == i64::MAX {
                return Err(MSError::internal("album ids exhausted"));
            }
            let bid = next_album;
            albums.push(
                AlbumRow {
                    id: AlbumId(bid),
                    title: al.title.clone(),
                    artist_id: ArtistId(aid),
                    artwork_path: blob_clone(&al.artwork),
                },
            );
            next_album = next_album + 1;
            let ghost tp_base = tp;
            let ghost k = ap.len() as int;
            proof {
                lemma_track_pairs_push(ap, (i as int, *al));
                ap = ap.push((i as int, *al));
                assert(albums@ =~= album_rows(ap, a0, b0));
                lemma_track_pairs_prefix(ap, album_pairs(plan@));
                assert(track_block(k, *al).take(0) =~= Seq::<(int, TrackPlan)>::empty());
                assert(tp =~= tp_base + track_block(k, *al).take(0));
            }
            let mut t: usize = 0;
            while t < al.tracks.len()
                invariant
                    t <= al.tracks@.len(),
                    a0 == old(store).next_artist_id,
                    b0 == old(store).next_album_id,
                    c0 == old(store).next_track_id,
                    *store == *old(store),

                    k == ap.len() - 1,
                    bid == b0 + k,
                    is_prefix(ap, album_pairs(plan@)),
                    track_pairs(ap) == tp_base + track_block(k, *al),
                    is_prefix(track_pairs(ap), track_pairs(album_pairs(plan@))),
                    tp == tp_base + track_block(k, *al).take(t as int),
                    tracks@ == track_rows(tp, b0, c0),
                    next_track == c0 + tp.len(),
                decreases al.tracks.len() - t,
            {
                let tr = &al.tracks[t];
                let ghost tb = track_block(k, *al);
                proof {
                    assert(tb.take(t + 1) =~= tb.take(t as int).push((k, *tr)));
                    assert(is_prefix(tp.push((k, *tr)), track_pairs(album_pairs(plan@))));
                }
                if next_track == i64::MAX {
                    return Err(MSError::internal("track ids exhausted"));
                }
                tracks.push(
                    TrackRow {
                        id: TrackId(next_track),
                        title: clone_title(&tr.title),
                        album_id: AlbumId(bid),
                        file_path: PathBlob(tr.path.clone()),
                    },
                );
                next_track = next_track + 1;
                proof {
                    tp = tp.push((k, *tr));
                    assert(tracks@ =~= track_rows(tp, b0, c0));
                }
                t = t + 1;
            }
            proof {
                assert(track_block(k, *al).take(t as int) =~= track_block(k, *al));
            }
            j = j + 1;
        }
        proof {
            assert(album_block(i as int, *a).take(j as int) =~= album_block(i as int, *a));
        }
        i = i + 1;
    }
    proof {
        assert(plan@.take(n) =~= plan@);
        lemma_album_pairs_range(plan@);
        lemma_track_pairs_range(ap);
    }
    store.artists = artists;
    store.albums = albums;
    store.tracks = tracks;
    store.next_artist_id = next_artist;
    store.next_album_id = next_album;
    store.next_track_id = next_track;
    proof {
        let s = *store;
        assert forall|x: int| 0 <= x < s.albums@.len() implies has_artist(
            s.artists@,
            (#[trigger] s.albums@[x]).artist_id,
        ) by {
            let ai = ap[x].0;
            assert(s.artists@[ai].id == s.albums@[x].artist_id);
        }
        assert forall|x: int| 0 <= x < s.tracks@.len() implies has_album(
            s.albums@,
            (#[trigger] s.tracks@[x]).album_id,
        ) by {
            let bi = tp[x].0;
            assert(s.albums@[bi].id == s.tracks@[x].album_id);
        }
    }
    Ok(())
}

} // verus!
