//! Limits of the transport.

use vstd::prelude::*;

verus! {

/// Hard upper bound for any listing `LIMIT`/page size to protect DB and memory usage.
pub const MAX_LISTING_ELEMENTS: i32 = 200;

} // verus!
