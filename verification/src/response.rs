//! What a request came back with, and what the crawl makes of it.

use vstd::prelude::*;

verus! {

/// An HTTP status that reports success.
pub open spec fn success_status(status: u16) -> bool {
    200 <= status < 300
}

/// Tells whether an HTTP status reports success.
pub fn is_success(status: u16) -> (r: bool)
    ensures
        r == success_status(status),
{
    200 <= status && status < 300
}

/// The outcome of a presence probe: found exactly when a response came and
/// its status reports success. `None` stands for a request that failed.
pub fn probe_found(status: Option<u16>) -> (found: bool)
    ensures
        found == match status {
            Some(s) => success_status(s),
            None => false,
        },
{
    match status {
        Some(s) => is_success(s),
        None => false,
    }
}

/// The page text that a fetch yields: the body, where a response came, its
/// status reports success and the body could be read as text; else nothing.
pub fn fetched_page(status: Option<u16>, body: Option<String>) -> (page: Option<String>)
    ensures
        page == match (status, body) {
            (Some(s), Some(b)) => if success_status(s) {
                Some(b)
            } else {
                None
            },
            _ => None,
        },
{
    match status {
        Some(s) => if is_success(s) {
            body
        } else {
            None
        },
        None => None,
    }
}

} // verus!
