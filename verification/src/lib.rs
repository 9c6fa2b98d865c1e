//! Reconciles a batch of file-change events with a remote Emby/Jellyfin
//! media-index server through an escalating ladder of strategies: one batch
//! targeted scan, then retried individual targeted scans, then a full library
//! enumeration with an explicit metadata refresh for exact path matches.
//!
//! The engine here is pure decision logic: callers perform the network calls
//! and feed the responses back in as plain values.

pub mod model;
pub mod paths;
pub mod scan;
pub mod emby;
pub mod engine;
pub mod pager;

use vstd::prelude::*;

verus! {

/// True. Stands in for the configuration default of the
/// metadata-refresh fallback switch.
pub fn default_true() -> (r: bool)
    ensures
        r,
{
    true
}

} // verus!
