//! The metadata query service: the paging decision of the batch lookup.
//! The lookup itself runs in the storage layer; what is decided here is
//! the page actually requested, which never exceeds the configured
//! quota.

use vstd::prelude::*;

verus! {

/// Metadata queries over the stream definitions.
pub struct MetaService {}

impl MetaService {
    /// The query plan of a batch lookup starting past `from`: the page
    /// size used is the caller's limit, capped by the quota.
    pub fn id_great_than(from: i32, limit: i32, quota: i32) -> (r: (i32, i32))
        ensures
            r.0 == from,
            r.1 == if limit < quota {
                limit as int
            } else {
                quota as int
            },
            r.1 <= quota,
    {
        if limit < quota {
            (from, limit)
        } else {
            (from, quota)
        }
    }
}

} // verus!
