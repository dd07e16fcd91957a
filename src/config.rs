use vstd::prelude::*;

verus! {

/// The daemon's settings.
#[derive(Debug)]
pub struct ConfigOpt {
    /// Directory that holds the music database; the system's cache
    /// directory when absent.
    pub cache_dir: Option<String>,
    /// Music directory, organised as Artist/Album/Tracks.
    pub music_dir: String,
    /// Whether to rescan the music directory on startup.
    pub reload: bool,
    /// Port to listen on.
    pub port: u16,
}

} // verus!
