//! The files that the media server may serve.

use vstd::hash_set::StringHashSet;
use vstd::prelude::*;

verus! {

/// The paths that have been registered for serving.
pub struct MediaPaths {
    paths: StringHashSet,
}

impl View for MediaPaths {
    type V = Set<Seq<char>>;

    closed spec fn view(&self) -> Set<Seq<char>> {
        self.paths@
    }
}

impl MediaPaths {
    /// No path is registered at first.
    pub fn new() -> (paths: MediaPaths)
        ensures
            paths@ == Set::<Seq<char>>::empty(),
    {
        MediaPaths { paths: StringHashSet::new() }
    }
}

/// Registers a path, so that the media server may serve the file there.
pub fn register_media_path(paths: &mut MediaPaths, path: String)
    ensures
        final(paths)@ == old(paths)@.insert(path@),
{
    let _ = paths.paths.insert(path);
}

/// Whether a path has been registered for serving.
pub fn is_path_registered(paths: &MediaPaths, path: &str) -> (yes: bool)
    ensures
        yes == paths@.contains(path@),
{
    paths.paths.contains(path)
}

} // verus!
