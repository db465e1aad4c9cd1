//! The proximity-gap regimes a test can be configured for.

use vstd::prelude::*;

verus! {

/// The distance regime assumed for proximity gaps.
#[derive(Debug, Clone, Copy)]
pub enum ProxGapsType {
    /// Use distance 1 - (1 - rate)/2.
    UniqueDecoding,
    /// Use distance 1 - sqrt(rate).
    Johnson,
    /// Use distance 1 - rate.
    Capacity,
}

} // verus!
