//! Paginated range listings over the fungible ledger: all accounts, and
//! all allowances granted by one owner.
//!
//! Listings walk keys in ascending order, start strictly after the given
//! key, and return at most 30 entries (10 when no limit is asked for).

use vstd::prelude::*;

use crate::allowances::AllowanceInfo;
use crate::expiration::Expiration;
use crate::fungible::FungibleLedger;
use crate::strmap::{key_views, keys_page, pair_views, pairs_page};

verus! {

/// The page size that applies: the requested one capped at 30, or 10 when
/// none was requested.
pub open spec fn spec_effective_limit(limit: Option<u32>) -> int {
    match limit {
        Some(l) => if l <= 30 {
            l as int
        } else {
            30
        },
        None => 10,
    }
}

/// Caps the requested page size at 30, defaulting to 10.
pub fn effective_limit(limit: Option<u32>) -> (r: usize)
    ensures
        r as int == spec_effective_limit(limit),
{
    match limit {
        Some(l) => if l <= 30 {
            l as usize
        } else {
            30
        },
        None => 10,
    }
}

/// The view of an optional start key.
pub open spec fn start_view(start_after: Option<String>) -> Option<Seq<char>> {
    match start_after {
        Some(s) => Some(s@),
        None => None,
    }
}

/// The addresses that hold a balance record, one page at a time.
pub struct AllAccountsResponse {
    pub accounts: Vec<String>,
}

/// Lists the addresses with a balance record, in ascending order,
/// starting strictly after `start_after`.
pub fn query_all_accounts(
    state: &FungibleLedger,
    start_after: Option<String>,
    limit: Option<u32>,
) -> (r: AllAccountsResponse)
    requires
        state.wf(),
    ensures
        key_views(r.accounts@) == keys_page(
            state.balances.spec_keys(),
            start_view(start_after),
            spec_effective_limit(limit),
        ),
{
    let lim = effective_limit(limit);
    let start: Option<&str> = match &start_after {
        Some(s) => Some(s.as_str()),
        None => None,
    };
    AllAccountsResponse { accounts: state.balances.list_keys(start, lim) }
}

/// One listed allowance: the spender and what it may still spend.
pub struct SpenderAllowance {
    pub spender: String,
    pub allowance: u128,
    pub expires: Expiration,
}

impl View for SpenderAllowance {
    type V = (Seq<char>, AllowanceInfo);

    open spec fn view(&self) -> (Seq<char>, AllowanceInfo) {
        (self.spender@, AllowanceInfo { allowance: self.allowance, expires: self.expires })
    }
}

/// The listed allowances as pairs of spender and record.
pub open spec fn allowance_items_view(items: Seq<SpenderAllowance>) -> Seq<
    (Seq<char>, AllowanceInfo),
> {
    Seq::new(items.len(), |i: int| items[i]@)
}

/// The allowances one owner has granted, one page at a time.
pub struct AllAllowancesResponse {
    pub allowances: Vec<SpenderAllowance>,
}

/// The stored allowance records of one owner, keyed by spender.
pub open spec fn owner_allowance_pairs(state: FungibleLedger, owner: Seq<char>) -> Seq<
    (Seq<char>, AllowanceInfo),
> {
    if state.allowances@.contains_key(owner) {
        pair_views(state.allowances@[owner].entries@)
    } else {
        Seq::<(Seq<char>, AllowanceInfo)>::empty()
    }
}

/// Lists the allowances `owner` has granted, in ascending spender order,
/// starting strictly after `start_after`. Records are reported as stored,
/// expired ones included.
pub fn query_all_allowances(
    state: &FungibleLedger,
    owner: &str,
    start_after: Option<String>,
    limit: Option<u32>,
) -> (r: AllAllowancesResponse)
    requires
        state.wf(),
    ensures
        allowance_items_view(r.allowances@) == pairs_page(
            owner_allowance_pairs(*state, owner@),
            start_view(start_after),
            spec_effective_limit(limit),
        ),
{
    let lim = effective_limit(limit);
    let start: Option<&str> = match &start_after {
        Some(s) => Some(s.as_str()),
        None => None,
    };
    match state.allowances.get(owner) {
        Some(inner) => {
            let entries = inner.list_entries(start, lim);
            let mut items: Vec<SpenderAllowance> = Vec::new();
            let n = entries.len();
            let mut i: usize = 0;
            while i < n
                invariant
                    0 <= i <= n,
                    n == entries@.len(),
                    items@.len() == i,
                    forall|j: int|
                        0 <= j < i ==> (#[trigger] items@[j])@ == (entries@[j].0@, entries@[j].1),
                decreases n - i,
            {
                let pair = &entries[i];
                items.push(
                    SpenderAllowance {
                        spender: pair.0.clone(),
                        allowance: pair.1.allowance,
                        expires: pair.1.expires,
                    },
                );
                i += 1;
            }
            proof {
                assert(allowance_items_view(items@) =~= pair_views(entries@));
            }
            AllAllowancesResponse { allowances: items }
        },
        None => {
            proof {
                assert(pairs_page(
                    owner_allowance_pairs(*state, owner@),
                    start_view(start_after),
                    spec_effective_limit(limit),
                ) =~= Seq::<(Seq<char>, AllowanceInfo)>::empty());
                assert(allowance_items_view(Seq::<SpenderAllowance>::empty()) =~= Seq::<
                    (Seq<char>, AllowanceInfo),
                >::empty());
            }
            AllAllowancesResponse { allowances: Vec::new() }
        },
    }
}

} // verus!
