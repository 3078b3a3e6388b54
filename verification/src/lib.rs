//! Two verified asset-ownership ledgers: a fungible-token ledger with
//! balance, allowance and supply-cap accounting, and a tiered
//! non-fungible-token registry with ownership, approval and operator
//! permissions, rank-gated minting and burn-to-upgrade crafting.
//!
//! Both ledgers are deterministic state machines: a typed command arrives
//! at a single entry point, is validated against the current state, and
//! either mutates the state and returns an event log plus outbound calls,
//! or fails with a typed error and leaves the state untouched.

pub mod allowances;
pub mod decimal;
pub mod deposit;
pub mod enumerable;
pub mod env;
pub mod error;
pub mod expiration;
pub mod fungible;
pub mod increment;
pub mod lex;
pub mod migrate;
pub mod nft;
pub mod nft_msg;
pub mod nft_query;
pub mod response;
pub mod strmap;
pub mod upgrade;
