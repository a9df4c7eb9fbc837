//! Verified core of a bounded-concurrency `security.txt` crawler.
//!
//! The library models the whole pipeline: acquiring an ordered-then-shuffled
//! domain list from a two-column CSV (local text or a zipped download),
//! dispatching per-domain work items under a global concurrency cap, writing
//! each successful response under its domain's name, and aggregating
//! completed/succeeded counts into a final summary.  Network and file system
//! access stay outside; the binary around the library performs them and feeds
//! the results back in as plain values.

use vstd::prelude::*;

pub mod dispatch;
pub mod fetch;
pub mod progress;
pub mod source;
pub mod store;

verus! {

/// Why a domain list could not be produced.  Any of these aborts the run
/// before the first fetch is attempted.
#[derive(Debug, Clone, Copy, PartialEq, Eq, Structural)]
pub enum DomainListError {
    /// The list text is not valid UTF-8, or a record has fewer than two
    /// columns.  A single bad record rejects the whole list: a silently
    /// truncated crawl would be worse than a loud failure.
    Malformed,
    /// The downloaded archive could not be read or decompressed.
    Archive,
    /// No local list was given and the remote archive was unreachable.
    NoSource,
}

} // verus!
