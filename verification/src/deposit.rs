//! The stablecoin-deposit order: a thin builder of an outbound call with
//! no accounting logic of its own.

use vstd::prelude::*;

use crate::response::{CallView, OutboundCall};

verus! {

/// An order asking a treasury contract to deposit attached stablecoin.
pub struct DepositStableMsg {}

impl DepositStableMsg {
    /// Wraps this order as an outbound call to the named contract.
    pub fn into_cosmos_msg(self, contract_addr: String) -> (c: OutboundCall)
        ensures
            c@ == (CallView::DepositStable { contract: contract_addr@ }),
    {
        OutboundCall::DepositStable { contract: contract_addr }
    }
}

} // verus!
