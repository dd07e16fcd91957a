use vstd::prelude::*;
use crate::scan::{
    artwork_choice, artwork_names, extract_artwork, is_artwork, AlbumListing, ArtistListing,
    EntryKind, FsEntry,
};

verus! {

broadcast use Seq::lemma_filter_push;

/// A file that becomes a track, with the title its tags gave, if any.
#[derive(Debug)]
pub struct TrackPlan {
    pub path: String,
    pub title: Option<String>,
}

/// A directory that becomes an album.
#[derive(Debug)]
pub struct AlbumPlan {
    pub title: String,
    pub artwork: Option<String>,
    pub tracks: Vec<TrackPlan>,
}

/// A directory that becomes an artist.
#[derive(Debug)]
pub struct ArtistPlan {
    pub name: String,
    pub albums: Vec<AlbumPlan>,
}

pub open spec fn is_dir(e: FsEntry) -> bool {
    e.kind == EntryKind::Directory
}

/// A regular file whose name is not a cover-art name.
pub open spec fn is_track_file(e: FsEntry) -> bool {
    e.kind == EntryKind::File && !artwork_names().contains(e.name@)
}

pub open spec fn track_files(files: Seq<FsEntry>) -> Seq<FsEntry> {
    files.filter(|e: FsEntry| is_track_file(e))
}

pub open spec fn album_dirs(albums: Seq<AlbumListing>) -> Seq<AlbumListing> {
    albums.filter(|a: AlbumListing| is_dir(a.entry))
}

pub open spec fn artist_dirs(root: Seq<ArtistListing>) -> Seq<ArtistListing> {
    root.filter(|a: ArtistListing| is_dir(a.entry))
}

/// The tracks of `p` are the track files of `files`, in listing order.
pub open spec fn tracks_of(p: Seq<TrackPlan>, files: Seq<FsEntry>) -> bool {
    &&& p.len() == track_files(files).len()
    &&& forall|k: int| 0 <= k < p.len() ==> (#[trigger] p[k]).path == track_files(files)[k].path
}

/// `p` is the plan of the album directory `l`, whatever titles its tracks carry.
pub open spec fn album_plan_of(p: AlbumPlan, l: AlbumListing) -> bool {
    &&& p.title == l.entry.name
    &&& artwork_choice(l.files@, p.artwork)
    &&& tracks_of(p.tracks@, l.files@)
}

pub open spec fn albums_of(p: Seq<AlbumPlan>, albums: Seq<AlbumListing>) -> bool {
    &&& p.len() == album_dirs(albums).len()
    &&& forall|j: int| 0 <= j < p.len() ==> album_plan_of(#[trigger] p[j], album_dirs(albums)[j])
}

/// `p` is the plan of the artist directory `l`.
pub open spec fn artist_plan_of(p: ArtistPlan, l: ArtistListing) -> bool {
    p.name == l.entry.name && albums_of(p.albums@, l.albums@)
}

/// `plan` holds one artist for each directory of the library root, in
/// listing order, each with one album for each of its subdirectories, each
/// with one track for each of its track files.
pub open spec fn library_plan_of(plan: Seq<ArtistPlan>, root: Seq<ArtistListing>) -> bool {
    &&& plan.len() == artist_dirs(root).len()
    &&& forall|i: int| 0 <= i < plan.len() ==> artist_plan_of(#[trigger] plan[i], artist_dirs(root)[i])
}

pub open spec fn untitled_album(p: AlbumPlan) -> bool {
    forall|k: int| 0 <= k < p.tracks@.len() ==> (#[trigger] p.tracks@[k]).title.is_none()
}

pub open spec fn untitled_artist(p: ArtistPlan) -> bool {
    forall|j: int| 0 <= j < p.albums@.len() ==> untitled_album(#[trigger] p.albums@[j])
}

/// No track of the plan has a title yet.
pub open spec fn untitled(plan: Seq<ArtistPlan>) -> bool {
    forall|i: int| 0 <= i < plan.len() ==> untitled_artist(#[trigger] plan[i])
}

/// Plans one album directory: its cover art and its track files.
pub fn plan_album(l: &AlbumListing) -> (r: AlbumPlan)
    ensures
        album_plan_of(r, *l),
        untitled_album(r),
{
    let files = &l.files;
    let mut tracks: Vec<TrackPlan> = Vec::new();
    let mut k: usize = 0;
    while k < files.len()
        invariant
            k <= files.len(),
            tracks_of(tracks@, files@.take(k as int)),
            forall|t: int| 0 <= t < tracks@.len() ==> (#[trigger] tracks@[t]).title.is_none(),
        decreases files.len() - k,
    {
        let e = &files[k];
        proof {
            assert(files@.take(k + 1) =~= files@.take(k as int).push(files@[k as int]));
        }
        if e.kind == EntryKind::File && !is_artwork(&e.name) {
            tracks.push(TrackPlan { path: e.path.clone(), title: None });
        }
        k = k + 1;
    }
    assert(files@.take(files.len() as int) =~= files@);
    let artwork = extract_artwork(files);
    AlbumPlan { title: l.entry.name.clone(), artwork, tracks }
}

/// Plans one artist directory: one album for each of its subdirectories.
pub fn plan_artist(l: &ArtistListing) -> (r: ArtistPlan)
    ensures
        artist_plan_of(r, *l),
        untitled_artist(r),
{
    let entries = &l.albums;
    let mut albums: Vec<AlbumPlan> = Vec::new();
    let mut k: usize = 0;
    while k < entries.len()
        invariant
            k <= entries.len(),
            albums_of(albums@, entries@.take(k as int)),
            forall|j: int| 0 <= j < albums@.len() ==> untitled_album(#[trigger] albums@[j]),
        decreases entries.len() - k,
    {
        let a = &entries[k];
        proof {
            assert(entries@.take(k + 1) =~= entries@.take(k as int).push(entries@[k as int]));
        }
        if a.entry.kind == EntryKind::Directory {
            let p = plan_album(a);
            albums.push(p);
        }
        k = k + 1;
    }
    assert(entries@.take(entries.len() as int) =~= entries@);
    ArtistPlan { name: l.entry.name.clone(), albums }
}

/// Plans a rebuild of the store from the listing of the library root: one
/// artist for each directory in the root, every other entry skipped.
pub fn plan_library(root: &Vec<ArtistListing>) -> (r: Vec<ArtistPlan>)
    ensures
        library_plan_of(r@, root@),
        untitled(r@),
{
    let mut plan: Vec<ArtistPlan> = Vec::new();
    let mut k: usize = 0;
    while k < root.len()
        invariant
            k <= root.len(),
            library_plan_of(plan@, root@.take(k as int)),
            untitled(plan@),
        decreases root.len() - k,
    {
        let a = &root[k];
        proof {
            assert(root@.take(k + 1) =~= root@.take(k as int).push(root@[k as int]));
        }
        if a.entry.kind == EntryKind::Directory {
            let p = plan_artist(a);
            plan.push(p);
        }
        k = k + 1;
    }
    assert(root@.take(root.len() as int) =~= root@);
    plan
}

} // verus!
