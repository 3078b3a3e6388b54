//! The increment order: a thin builder of an outbound call with no
//! accounting logic of its own.

use vstd::prelude::*;

use crate::response::{CallView, OutboundCall};

verus! {

/// An order asking a counter contract to increment.
pub struct IncrementMsg {}

impl IncrementMsg {
    /// Wraps this order as an outbound call to the named contract.
    pub fn into_cosmos_msg(self, contract_addr: String) -> (c: OutboundCall)
        ensures
            c@ == (CallView::Increment { contract: contract_addr@ }),
    {
        OutboundCall::Increment { contract: contract_addr }
    }
}

} // verus!
