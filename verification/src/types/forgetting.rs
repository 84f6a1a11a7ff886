//! What a prune pass reports.

use vstd::prelude::*;

verus! {

/// How many facts a prune pass looked at, and how many it expired.
#[derive(Debug, Clone, Copy, PartialEq, Eq, Structural)]
pub struct PruneStats {
    pub facts_expired: usize,
    pub facts_evaluated: usize,
}

} // verus!
