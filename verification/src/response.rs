//! What a successful mutating call returns: an ordered event-attribute
//! log and zero or more outbound calls to other contracts.
//!
//! Outbound calls are emitted as structured values; encoding and delivery
//! are the host's responsibility.

use vstd::prelude::*;
use vstd::string::StringExecFns;

verus! {

/// One event attribute: a key-value pair of text.
pub struct Attr {
    pub key: String,
    pub value: String,
}

impl View for Attr {
    type V = (Seq<char>, Seq<char>);

    open spec fn view(&self) -> (Seq<char>, Seq<char>) {
        (self.key@, self.value@)
    }
}

/// The attribute log as pairs of character sequences.
pub open spec fn log_view(log: Seq<Attr>) -> Seq<(Seq<char>, Seq<char>)> {
    Seq::new(log.len(), |i: int| log[i]@)
}

/// Builds one event attribute.
pub fn attr(key: &str, value: String) -> (a: Attr)
    ensures
        a@ == (key@, value@),
{
    Attr { key: String::from_str(key), value }
}

/// Builds one event attribute from two string slices.
pub fn attr_str(key: &str, value: &str) -> (a: Attr)
    ensures
        a@ == (key@, value@),
{
    Attr { key: String::from_str(key), value: String::from_str(value) }
}

/// An outbound call to another contract, emitted but not delivered here.
pub enum OutboundCall {
    /// The fungible ledger's transfer notification to a receiving
    /// contract: who sent, how much, and an opaque payload to relay.
    Notify { contract: String, sender: String, amount: u128, msg: Option<Vec<u8>> },
    /// A stablecoin deposit order to a treasury contract.
    DepositStable { contract: String },
    /// An increment order to a counter contract.
    Increment { contract: String },
    /// An already-encoded call supplied wholesale, relayed unchanged.
    Relay { encoded: Vec<u8> },
}

/// The abstract value of an outbound call.
pub enum CallView {
    Notify { contract: Seq<char>, sender: Seq<char>, amount: u128, msg: Option<Seq<u8>> },
    DepositStable { contract: Seq<char> },
    Increment { contract: Seq<char> },
    Relay { encoded: Seq<u8> },
}

impl View for OutboundCall {
    type V = CallView;

    open spec fn view(&self) -> CallView {
        match self {
            OutboundCall::Notify { contract, sender, amount, msg } => CallView::Notify {
                contract: contract@,
                sender: sender@,
                amount: *amount,
                msg: match msg {
                    Some(m) => Some(m@),
                    None => None,
                },
            },
            OutboundCall::DepositStable { contract } => CallView::DepositStable {
                contract: contract@,
            },
            OutboundCall::Increment { contract } => CallView::Increment { contract: contract@ },
            OutboundCall::Relay { encoded } => CallView::Relay { encoded: encoded@ },
        }
    }
}

/// The outbound calls as abstract values.
pub open spec fn calls_view(msgs: Seq<OutboundCall>) -> Seq<CallView> {
    Seq::new(msgs.len(), |i: int| msgs[i]@)
}

/// The result of a successful mutating call.
pub struct Response {
    pub messages: Vec<OutboundCall>,
    pub log: Vec<Attr>,
}

impl Response {
    /// A response with no outbound calls and an empty log.
    pub fn new() -> (r: Response)
        ensures
            r.messages@.len() == 0,
            r.log@.len() == 0,
    {
        Response { messages: Vec::new(), log: Vec::new() }
    }
}

} // verus!
