//! The one-time legacy-schema migration gate.
//!
//! A migration call first reads the recorded contract name and version.
//! Only the known legacy version line may be migrated from, and only into
//! the same contract; the legacy data layout itself is the host's concern.

use vstd::prelude::*;
use vstd::string::StringExecFns;

use crate::error::Error;
use crate::lex::{has_prefix, str_eq, str_has_prefix};

verus! {

/// The version bookkeeping record: which contract wrote the state, at
/// which version.
pub struct ContractVersion {
    pub contract: String,
    pub version: String,
}

/// Whether a recorded version may be migrated: it must belong to this
/// contract and lie on the known legacy version line.
pub open spec fn migratable(stored_contract: Seq<char>, stored_version: Seq<char>, name: Seq<char>) -> bool {
    stored_contract == name && has_prefix(stored_version, "v0.1."@)
}

/// Checks the recorded version and, when the legacy line matches, returns
/// the fresh version record to store; the rewrite of the legacy data
/// itself is handed back to the host. Fails with `VersionMismatch` for
/// any other recorded contract or version.
pub fn migrate(stored: &ContractVersion, name: &str, version: &str) -> (r: Result<
    ContractVersion,
    Error,
>)
    ensures
        match r {
            Ok(fresh) => {
                &&& migratable(stored.contract@, stored.version@, name@)
                &&& fresh.contract@ == name@
                &&& fresh.version@ == version@
            },
            Err(e) => {
                &&& e == Error::VersionMismatch
                &&& !migratable(stored.contract@, stored.version@, name@)
            },
        },
{
    if !str_eq(stored.contract.as_str(), name) {
        return Err(Error::VersionMismatch);
    }
    if !str_has_prefix(stored.version.as_str(), "v0.1.") {
        return Err(Error::VersionMismatch);
    }
    Ok(ContractVersion { contract: String::from_str(name), version: String::from_str(version) })
}

} // verus!
