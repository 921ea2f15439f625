//! Paging of a session's entries for the entries endpoint.
use vstd::prelude::*;

verus! {

/// The page size when the request names none.
pub const DEFAULT_LIMIT: usize = 100;

/// The largest page a request may ask for.
pub const MAX_LIMIT: usize = 1000;

/// The page size when the request names none.
pub fn default_limit() -> (limit: usize)
    ensures
        limit == DEFAULT_LIMIT,
{
    DEFAULT_LIMIT
}

/// The page size served for a request of `requested` entries: at most
/// `MAX_LIMIT`.
pub fn page_limit(requested: usize) -> (limit: usize)
    ensures
        limit == if requested <= MAX_LIMIT {
            requested
        } else {
            MAX_LIMIT
        },
{
    if requested <= MAX_LIMIT {
        requested
    } else {
        MAX_LIMIT
    }
}

} // verus!
