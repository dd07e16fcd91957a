//! Properties that relate the crawl plan, the rebuild and the queries.
use vstd::prelude::*;
use crate::data_type::{AlbumId, ArtistId, TrackId};
use crate::plan::{
    album_dirs, artist_dirs, is_track_file, library_plan_of, track_files, AlbumPlan, ArtistPlan,
    TrackPlan,
};
use crate::query::{
    album_tracks_view, artwork_of_album, full_albums_view, track_in_album, tracks_of_album,
};
use crate::rebuild::{
    album_block, album_pairs, lemma_album_pairs_prefix, lemma_album_pairs_step, lemma_track_pairs_range, rebuilt, track_block, track_pairs,
    track_rows,
};
use crate::scan::{
    artwork_at, artwork_choice, artwork_names, has_entry_named, ArtistListing, FsEntry,
};
use crate::store::{has_album, LibraryStore, TrackRow};

verus! {

broadcast use Seq::lemma_filter_push;

pub open spec fn row_paths(rows: Seq<TrackRow>) -> Seq<String> {
    rows.map_values(|t: TrackRow| t.file_path.0)
}

pub open spec fn entry_paths(entries: Seq<FsEntry>) -> Seq<String> {
    entries.map_values(|e: FsEntry| e.path)
}

spec fn pair_paths(ps: Seq<(int, TrackPlan)>) -> Seq<String> {
    ps.map_values(|p: (int, TrackPlan)| p.1.path)
}

spec fn pairs_of_album(ps: Seq<(int, TrackPlan)>, k: int) -> Seq<(int, TrackPlan)> {
    ps.filter(|p: (int, TrackPlan)| p.0 == k)
}

proof fn lemma_pairs_all_of_album(ps: Seq<(int, TrackPlan)>, k: int)
    requires
        forall|m: int| 0 <= m < ps.len() ==> (#[trigger] ps[m]).0 == k,
    ensures
        pairs_of_album(ps, k) == ps,
    decreases ps.len(),
{
    if ps.len() > 0 {
        let init = ps.drop_last();
        lemma_pairs_all_of_album(init, k);
        assert(ps =~= init.push(ps.last()));
        assert(pairs_of_album(init.push(ps.last()), k) == pairs_of_album(init, k).push(ps.last()));
    } else {
        ps.lemma_filter_len(|p: (int, TrackPlan)| p.0 == k);
        assert(pairs_of_album(ps, k) =~= ps);
    }
}

proof fn lemma_pairs_none_of_album(ps: Seq<(int, TrackPlan)>, k: int)
    requires
        forall|m: int| 0 <= m < ps.len() ==> (#[trigger] ps[m]).0 != k,
    ensures
        pairs_of_album(ps, k) == Seq::<(int, TrackPlan)>::empty(),
    decreases ps.len(),
{
    if ps.len() > 0 {
        lemma_pairs_none_of_album(ps.drop_last(), k);
        assert(ps =~= ps.drop_last().push(ps.last()));
    } else {
        ps.lemma_filter_len(|p: (int, TrackPlan)| p.0 == k);
        assert(pairs_of_album(ps, k) =~= Seq::<(int, TrackPlan)>::empty());
    }
}

proof fn lemma_no_rows_of_album(tracks: Seq<TrackRow>, id: AlbumId)
    requires
        forall|m: int| 0 <= m < tracks.len() ==> (#[trigger] tracks[m]).album_id != id,
    ensures
        tracks_of_album(tracks, id).len() == 0,
    decreases tracks.len(),
{
    if tracks.len() > 0 {
        let init = tracks.drop_last();
        lemma_no_rows_of_album(init, id);
        assert(tracks =~= init.push(tracks.last()));
    } else {
        assert(tracks_of_album(tracks, id) =~= tracks) by {
            reveal(Seq::filter);
        }
    }
}

/// The tracks tagged `k` are those of album `k`.
proof fn lemma_pairs_of_album_block(albums: Seq<(int, AlbumPlan)>, k: int)
    requires
        0 <= k < albums.len(),
    ensures
        pairs_of_album(track_pairs(albums), k) == track_block(k, albums[k].1),
    decreases albums.len(),
{
    broadcast use Seq::filter_distributes_over_add;

    let n = albums.len() as int;
    let front = track_pairs(albums.drop_last());
    let back = track_block(n - 1, albums.last().1);
    assert(track_pairs(albums) == front + back);
    lemma_track_pairs_range(albums.drop_last());
    if k == n - 1 {
        lemma_pairs_none_of_album(front, k);
        lemma_pairs_all_of_album(back, k);
        assert(pairs_of_album(front, k) + pairs_of_album(back, k) =~= back);
    } else {
        lemma_pairs_of_album_block(albums.drop_last(), k);
        lemma_pairs_none_of_album(back, k);
        assert(pairs_of_album(front, k) + pairs_of_album(back, k) =~= pairs_of_album(front, k));
    }
}

/// Selecting track rows by the id of album `k` selects the tracks tagged `k`.
proof fn lemma_rows_of_album(ps: Seq<(int, TrackPlan)>, b0: int, c0: int, n: int, k: int)
    requires
        1 <= b0,
        b0 + n <= i64::MAX,
        0 <= k < n,
        forall|m: int| 0 <= m < ps.len() ==> 0 <= (#[trigger] ps[m]).0 < n,
    ensures
        row_paths(tracks_of_album(track_rows(ps, b0, c0), AlbumId((b0 + k) as i64))) == pair_paths(
            pairs_of_album(ps, k),
        ),
    decreases ps.len(),
{
    let id = AlbumId((b0 + k) as i64);
    if ps.len() == 0 {
        assert(tracks_of_album(track_rows(ps, b0, c0), id) =~= Seq::<TrackRow>::empty()) by {
            reveal(Seq::filter);
        }
        assert(pairs_of_album(ps, k) =~= Seq::<(int, TrackPlan)>::empty()) by {
            reveal(Seq::filter);
        }
        assert(row_paths(Seq::<TrackRow>::empty()) =~= pair_paths(Seq::<(int, TrackPlan)>::empty()));
    } else {
        let init = ps.drop_last();
        let x = ps.last();
        lemma_rows_of_album(init, b0, c0, n, k);
        assert(ps =~= init.push(x));
        let row = track_rows(ps, b0, c0).last();
        assert(track_rows(ps, b0, c0) =~= track_rows(init, b0, c0).push(row));
        let rs = tracks_of_album(track_rows(init, b0, c0), id);
        let qs = pairs_of_album(init, k);
        assert(row.album_id == id <==> x.0 == k);
        if x.0 == k {
            assert(row_paths(rs.push(row)) =~= row_paths(rs).push(x.1.path));
            assert(pair_paths(qs.push(x)) =~= pair_paths(qs).push(x.1.path));
        }
    }
}

/// A rebuild makes one artist row for each directory in the library root,
/// and none for any other entry.
pub proof fn lemma_artist_count(
    root: Seq<ArtistListing>,
    plan: Seq<ArtistPlan>,
    old: LibraryStore,
    new: LibraryStore,
)
    requires
        library_plan_of(plan, root),
        rebuilt(old, plan, new),
    ensures
        new.artists@.len() == artist_dirs(root).len(),
{
}

/// After a rebuild, each album directory of each artist directory has an
/// album row, titled with the directory's name and referring to that
/// artist's row, whose track rows carry exactly the paths of the directory's
/// regular files that are not cover art, each once, in listing order.
pub proof fn lemma_album_tracks_are_its_files(
    root: Seq<ArtistListing>,
    plan: Seq<ArtistPlan>,
    old: LibraryStore,
    new: LibraryStore,
    i: int,
    j: int,
)
    requires
        old.wf(),
        library_plan_of(plan, root),
        rebuilt(old, plan, new),
        0 <= i < artist_dirs(root).len(),
        0 <= j < album_dirs(artist_dirs(root)[i].albums@).len(),
    ensures
        exists|k: int|
            {
                let dir = album_dirs(artist_dirs(root)[i].albums@)[j];
                &&& 0 <= k < new.albums@.len()
                &&& (#[trigger] new.albums@[k]).title == dir.entry.name
                &&& new.albums@[k].artist_id == new.artists@[i].id
                &&& row_paths(tracks_of_album(new.tracks@, new.albums@[k].id)) == entry_paths(
                    track_files(dir.files@),
                )
            },
{
    let n = plan.len() as int;
    let a0 = old.next_artist_id as int;
    let b0 = old.next_album_id as int;
    let c0 = old.next_track_id as int;
    let ap = album_pairs(plan);
    let tp = track_pairs(ap);
    let dir = album_dirs(artist_dirs(root)[i].albums@)[j];
    let al = plan[i].albums@[j];
    lemma_album_pairs_step(plan, i);
    lemma_album_pairs_prefix(plan, i + 1, n);
    assert(plan.take(n) =~= plan);
    let k = album_pairs(plan.take(i)).len() + j;
    assert(album_block(i, plan[i])[j] == (i, al));
    assert(album_pairs(plan.take(i + 1))[k] == (i, al));
    assert(ap[k] == (i, al));
    assert(new.albums@[k].title == dir.entry.name);
    assert(new.albums@[k].artist_id == new.artists@[i].id);
    lemma_track_pairs_range(ap);
    lemma_rows_of_album(tp, b0, c0, ap.len() as int, k);
    lemma_pairs_of_album_block(ap, k);
    assert(pair_paths(track_block(k, al)) =~= entry_paths(track_files(dir.files@)));
}

/// The artwork of a directory is determined by its contents: the path of the
/// first entry carrying the highest-priority cover-art name present, or none
/// exactly when no cover-art name is present.
pub proof fn lemma_artwork_choice_unique(files: Seq<FsEntry>, r1: Option<String>, r2: Option<String>)
    requires
        artwork_choice(files, r1),
        artwork_choice(files, r2),
    ensures
        r1 == r2,
        r1 is None <==> forall|c: int|
            0 <= c < artwork_names().len() ==> !has_entry_named(files, #[trigger] artwork_names()[c]),
{
    if let Some(first_path) = r1 {
        let (c1, e1) = choose|c: int, e: int| #[trigger] artwork_at(files, c, e) && files[e].path == first_path;
        assert(has_entry_named(files, artwork_names()[c1]));
        if let Some(second_path) = r2 {
            let (c2, e2) = choose|c: int, e: int| #[trigger] artwork_at(files, c, e) && files[e].path == second_path;
            assert(has_entry_named(files, artwork_names()[c2]));
            assert(c1 == c2);
            assert(e1 == e2);
        }
    } else if let Some(second_path) = r2 {
        let (c2, e2) = choose|c: int, e: int| #[trigger] artwork_at(files, c, e) && files[e].path == second_path;
        assert(has_entry_named(files, artwork_names()[c2]));
    }
}

/// A file that becomes a track is never a cover-art file.
pub proof fn lemma_tracks_exclude_artwork(files: Seq<FsEntry>)
    ensures
        forall|k: int|
            0 <= k < track_files(files).len() ==> !artwork_names().contains(
                (#[trigger] track_files(files)[k]).name@,
            ),
{
    assert forall|k: int| 0 <= k < track_files(files).len() implies !artwork_names().contains(
        (#[trigger] track_files(files)[k]).name@,
    ) by {
        files.lemma_filter_pred(|e: FsEntry| is_track_file(e), k);
    }
}

/// The full albums of an artist carry, for each album, the very tracks that
/// listing that album's tracks returns.
pub proof fn lemma_full_albums_match_album_tracks(store: LibraryStore, artist_id: ArtistId)
    ensures
        forall|k: int|
            0 <= k < full_albums_view(store, artist_id).len() ==> (#[trigger] full_albums_view(
                store,
                artist_id,
            )[k]).tracks == album_tracks_view(store, full_albums_view(store, artist_id)[k].album.id),
{
}

/// In a well-formed store an album id that no album has lists no tracks
/// and has no artwork.
pub proof fn lemma_missing_album_is_empty(store: LibraryStore, album_id: AlbumId)
    requires
        store.wf(),
        !has_album(store.albums@, album_id),
    ensures
        album_tracks_view(store, album_id).len() == 0,
        artwork_of_album(store, album_id) is None,
{
    assert forall|m: int| 0 <= m < store.tracks@.len() implies (#[trigger] store.tracks@[m]).album_id
        != album_id by {
        assert(has_album(store.albums@, store.tracks@[m].album_id));
    }
    lemma_no_rows_of_album(store.tracks@, album_id);
}

/// A track looked up under an album it does not belong to is not found.
pub proof fn lemma_track_under_wrong_album(
    store: LibraryStore,
    album_id: AlbumId,
    track_id: TrackId,
    i: int,
)
    requires
        store.wf(),
        0 <= i < store.tracks@.len(),
        store.tracks@[i].id == track_id,
        store.tracks@[i].album_id != album_id,
    ensures
        !track_in_album(store, album_id, track_id),
{
    if track_in_album(store, album_id, track_id) {
        let w = choose|w: int|
            0 <= w < store.tracks@.len() && (#[trigger] store.tracks@[w]).id == track_id
                && store.tracks@[w].album_id == album_id;
        if w < i {
            assert(store.tracks@[w].id.0 < store.tracks@[i].id.0);
        } else if w > i {
            assert(store.tracks@[i].id.0 < store.tracks@[w].id.0);
        }
    }
}

} // verus!
