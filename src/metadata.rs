use vstd::prelude::*;

verus! {

/// The outcome of one tag-reading strategy on one track file.
#[derive(Debug)]
pub enum TagRead {
    /// The strategy could not read the file's tags.
    Failed,
    /// The tags were read and hold no title.
    Untitled,
    /// The tags were read and hold this title.
    Titled(String),
}

/// The title an outcome contributes: a non-empty title that was read.
pub open spec fn accepted_title(a: TagRead) -> Option<String> {
    match a {
        TagRead::Titled(t) => if t@.len() > 0 {
            Some(t)
        } else {
            None
        },
        _ => None,
    }
}

/// The outcome at `k` is the first one that contributes a title.
pub open spec fn title_at(attempts: Seq<TagRead>, k: int) -> bool {
    &&& 0 <= k < attempts.len()
    &&& accepted_title(attempts[k]) is Some
    &&& forall|k2: int| 0 <= k2 < k ==> accepted_title(#[trigger] attempts[k2]) is None
}

/// `r` is the title chosen from the outcomes of the strategies, tried in
/// order: that of the first outcome with a non-empty title, else none.
pub open spec fn title_choice(attempts: Seq<TagRead>, r: Option<String>) -> bool {
    match r {
        None => forall|k: int| 0 <= k < attempts.len() ==> accepted_title(#[trigger] attempts[k]) is None,
        Some(t) => exists|k: int| #[trigger] title_at(attempts, k) && accepted_title(attempts[k]) == Some(t),
    }
}

/// The title a single outcome contributes, if any.
pub fn accept_title(a: &TagRead) -> (r: Option<String>)
    ensures
        r == accepted_title(*a),
{
    match a {
        TagRead::Titled(t) => {
            if !t.as_str().is_empty() {
                Some(t.clone())
            } else {
                None
            }
        },
        _ => None,
    }
}

/// Picks a track's title from the outcomes of the tag-reading strategies,
/// in the order they were tried; a file none of them could title gets none.
pub fn extract_track_name(attempts: &Vec<TagRead>) -> (r: Option<String>)
    ensures
        title_choice(attempts@, r),
{
    let mut k: usize = 0;
    while k < attempts.len()
        invariant
            k <= attempts.len(),
            forall|k2: int| 0 <= k2 < k ==> accepted_title(#[trigger] attempts@[k2]) is None,
        decreases attempts.len() - k,
    {
        let t = accept_title(&attempts[k]);
        if t.is_some() {
            assert(title_at(attempts@, k as int));
            return t;
        }
        k = k + 1;
    }
    None
}

} // verus!
