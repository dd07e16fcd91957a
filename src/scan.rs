use vstd::prelude::*;

verus! {

/// What a directory entry is, following symbolic links.
#[derive(Clone, Copy, Debug, PartialEq, Eq, Structural)]
pub enum EntryKind {
    Directory,
    File,
    Other,
}

/// One entry of a directory listing: its base name, its full path and its kind.
#[derive(Debug)]
pub struct FsEntry {
    pub name: String,
    pub path: String,
    pub kind: EntryKind,
}

/// An entry of an artist directory; `files` lists its contents when it is a
/// directory and is empty otherwise.
#[derive(Debug)]
pub struct AlbumListing {
    pub entry: FsEntry,
    pub files: Vec<FsEntry>,
}

/// An entry of the library root; `albums` lists its contents when it is a
/// directory and is empty otherwise.
#[derive(Debug)]
pub struct ArtistListing {
    pub entry: FsEntry,
    pub albums: Vec<AlbumListing>,
}

/// Number of recognised cover-art file names.
pub const ARTWORK_COUNT: usize = 4;

/// The cover-art file names, highest priority first.
pub open spec fn artwork_names() -> Seq<Seq<char>> {
    seq!["cover.jpg"@, "cover.png"@, "artwork.jpg"@, "cover.jpeg"@]
}

/// The cover-art file name of priority `i`.
pub fn artwork_name(i: usize) -> (r: &'static str)
    requires
        i < ARTWORK_COUNT,
    ensures
        r@ == artwork_names()[i as int],
{
    match i {
        0 => "cover.jpg",
        1 => "cover.png",
        2 => "artwork.jpg",
        _ => "cover.jpeg",
    }
}

/// Whether a base name is one of the cover-art names (exact, case-sensitive).
pub fn is_artwork(name: &String) -> (r: bool)
    ensures
        r == artwork_names().contains(name@),
{
    let mut i: usize = 0;
    while i < ARTWORK_COUNT
        invariant
            i <= ARTWORK_COUNT,
            forall|c: int| 0 <= c < i ==> artwork_names()[c] != name@,
        decreases ARTWORK_COUNT - i,
    {
        let candidate = artwork_name(i).to_owned();
        if *name == candidate {
            return true;
        }
        i = i + 1;
    }
    proof {
        if artwork_names().contains(name@) {
            let c = choose|c: int| 0 <= c < artwork_names().len() && artwork_names()[c] == name@;
            assert(artwork_names()[c] != name@);
        }
    }
    false
}

pub open spec fn entry_named(files: Seq<FsEntry>, e: int, name: Seq<char>) -> bool {
    0 <= e < files.len() && files[e].name@ == name
}

pub open spec fn has_entry_named(files: Seq<FsEntry>, name: Seq<char>) -> bool {
    exists|e: int| entry_named(files, e, name)
}

/// The entry at `e` carries the cover-art name of priority `c`, no name of
/// higher priority occurs, and no earlier entry carries that name.
pub open spec fn artwork_at(files: Seq<FsEntry>, c: int, e: int) -> bool {
    &&& 0 <= c < artwork_names().len()
    &&& entry_named(files, e, artwork_names()[c])
    &&& forall|c2: int| 0 <= c2 < c ==> !has_entry_named(files, #[trigger] artwork_names()[c2])
    &&& forall|e2: int| 0 <= e2 < e ==> (#[trigger] files[e2]).name@ != artwork_names()[c]
}

/// `r` is the artwork of a directory with contents `files`: the path of the
/// first entry named like the highest-priority cover-art name that occurs,
/// or none when no cover-art name occurs.
pub open spec fn artwork_choice(files: Seq<FsEntry>, r: Option<String>) -> bool {
    match r {
        None => forall|c: int|
            0 <= c < artwork_names().len() ==> !has_entry_named(files, #[trigger] artwork_names()[c]),
        Some(p) => exists|c: int, e: int| #[trigger] artwork_at(files, c, e) && files[e].path == p,
    }
}

/// Finds the cover art among the contents of an album directory.
pub fn extract_artwork(files: &Vec<FsEntry>) -> (r: Option<String>)
    ensures
        artwork_choice(files@, r),
{
    let mut c: usize = 0;
    while c < ARTWORK_COUNT
        invariant
            c <= ARTWORK_COUNT,
            forall|c2: int| 0 <= c2 < c ==> !has_entry_named(files@, #[trigger] artwork_names()[c2]),
        decreases ARTWORK_COUNT - c,
    {
        let candidate = artwork_name(c).to_owned();
        let mut e: usize = 0;
        while e < files.len()
            invariant
                c < ARTWORK_COUNT,
                e <= files.len(),
                candidate@ == artwork_names()[c as int],
                forall|c2: int|
                    0 <= c2 < c ==> !has_entry_named(files@, #[trigger] artwork_names()[c2]),
                forall|e2: int| 0 <= e2 < e ==> (#[trigger] files@[e2]).name@ != candidate@,
            decreases files.len() - e,
        {
            if files[e].name == candidate {
                let p = files[e].path.clone();
                assert(artwork_at(files@, c as int, e as int));
                return Some(p);
            }
            e = e + 1;
        }
        assert(!has_entry_named(files@, artwork_names()[c as int]));
        c = c + 1;
    }
    None
}

} // verus!
