//! Expiration of allowances, approvals and operator grants.
//!
//! A right can lapse at a block height, at a block time, or never. An
//! expired record is treated as absent, though it may remain stored until
//! explicitly cleared.

use vstd::prelude::*;

use crate::env::BlockInfo;

verus! {

/// When a granted right stops being valid.
#[derive(Clone, Copy, PartialEq, Eq, Structural, Debug)]
pub enum Expiration {
    /// Expired once the block height is reached.
    AtHeight(u64),
    /// Expired once the block time is reached.
    AtTime(u64),
    /// Never expires.
    Never,
}

impl Expiration {
    /// Whether the right has lapsed in the given block.
    pub open spec fn spec_is_expired(self, block: BlockInfo) -> bool {
        match self {
            Expiration::AtHeight(h) => block.height >= h,
            Expiration::AtTime(t) => block.time >= t,
            Expiration::Never => false,
        }
    }

    /// Whether the right has lapsed in the given block.
    pub fn is_expired(&self, block: &BlockInfo) -> (r: bool)
        ensures
            r == self.spec_is_expired(*block),
    {
        match self {
            Expiration::AtHeight(h) => block.height >= *h,
            Expiration::AtTime(t) => block.time >= *t,
            Expiration::Never => false,
        }
    }
}

/// The expiration a grant gets when none is asked for.
pub fn default_expiration(expires: Option<Expiration>) -> (r: Expiration)
    ensures
        r == (match expires {
            Some(e) => e,
            None => Expiration::Never,
        }),
{
    match expires {
        Some(e) => e,
        None => Expiration::Never,
    }
}

} // verus!
