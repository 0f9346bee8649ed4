//! Pane bodies: opaque content units identified by a kind tag.

use vstd::prelude::*;

verus! {

/// Opaque body of a file-manager pane: the directory it browses.
pub struct FileManager {
    pub path: String,
}

impl FileManager {
    /// Creates a file-manager pane body rooted at `path`.
    pub fn new(path: &str) -> (r: FileManager)
        ensures
            r.path@ == path@,
    {
        FileManager { path: String::from_str(path) }
    }
}

/// A single content unit rendered in one grid cell.
///
/// The layout engine never looks inside a pane: it only moves panes around
/// and assigns each one a rectangle and a focus flag at render time.
pub enum Plugin {
    FileManager(FileManager),
    HexView,
    Parser,
}

} // verus!
