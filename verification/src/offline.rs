//! The offline shell: which requests the service worker leaves to the
//! network instead of answering from its cache.
use vstd::prelude::*;

use crate::text::{occurs_in, str_contains};

verus! {

/// WebSocket addresses and the database's `/v1/` API always go to the
/// network.
pub open spec fn spec_bypasses_cache(url: Seq<char>) -> bool {
    occurs_in(url, "ws://"@) || occurs_in(url, "wss://"@) || occurs_in(url, "/v1/"@)
}

/// Whether the service worker lets a request go straight to the network.
pub fn bypasses_cache(url: &str) -> (r: bool)
    ensures
        r == spec_bypasses_cache(url@),
{
    str_contains(url, "ws://") || str_contains(url, "wss://") || str_contains(url, "/v1/")
}

} // verus!
