use vstd::prelude::*;

verus! {

/// One file of a static asset directory, with the modification time
/// used for cache-busting query strings.
#[derive(Debug, Clone)]
pub struct StaticEntry {
    pub filename: String,
    /// Seconds since the Unix epoch.
    pub mtime: u64,
}

} // verus!
