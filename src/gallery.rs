//! Paging through stored images, newest first.
use vstd::prelude::*;

verus! {

/// The cutoff used when a page request names none: the largest timestamp
/// the store can hold (`i64::MAX`).
pub const LATEST: u64 = 0x7fff_ffff_ffff_ffff;

/// A page request: images taken before `before` (all of them when absent),
/// at most `limit` of them.
pub struct Pagination {
    pub before: Option<u64>,
    pub limit: u64,
}

impl Pagination {
    /// The timestamp that the page ends before.
    pub fn before_timestamp(&self) -> (r: u64)
        ensures
            r == match self.before {
                Some(b) => b,
                None => LATEST,
            },
    {
        match self.before {
            Some(b) => b,
            None => LATEST,
        }
    }
}

} // verus!
