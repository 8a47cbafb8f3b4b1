pub mod file;
pub mod model;
pub mod store;

use vstd::prelude::*;

verus! {

/// What can go wrong in the cache.
#[derive(Debug)]
pub enum CacheError {
    /// The reading at `index` of a batch has an empty or inverted interval, or
    /// its interval overlaps that of another reading without being the same.
    InvalidReading { index: usize },
    /// The cache file at `path` holds something that is not a cache.
    CorruptCache { path: String },
    /// The file system failed on the cache file at `path`.
    IoFailure { path: String },
}

} // verus!
