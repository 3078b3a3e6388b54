//! Read-only questions the token registry answers: token lookups, rank
//! counts and mintability, operator listings, and per-rank token listings
//! in lexicographic identifier order.

use vstd::prelude::*;

use crate::error::Error;
use crate::expiration::Expiration;
use crate::lex::{lex_lt, str_compare, Cmp};
use crate::nft::{approval_views, Approval, ApprovalView, ContractInfo, NftRegistry, Rank,
    TokenInfo};
use crate::enumerable::start_view;
use crate::strmap::{lemma_filter_push, pair_views, pairs_page};

verus! {

/// The registry's own metadata, in the shape clients consume.
pub struct ContractInfoResponse {
    pub name: String,
    pub symbol: String,
}

/// The minter identity.
pub struct MinterResponse {
    pub minter: String,
}

/// The rank of one token.
pub struct NftInfoResponse {
    pub rank: Rank,
}

/// The owner of one token and everyone approved to move it.
pub struct OwnerOfResponse {
    pub owner: String,
    pub approvals: Vec<Approval>,
}

/// Owner and rank of one token in a single answer.
pub struct AllNftInfoResponse {
    pub access: OwnerOfResponse,
    pub info: NftInfoResponse,
}

/// How many tokens of one rank have been minted; burning never lowers it.
pub struct NumTokensResponse {
    pub count: u64,
}

/// One page of token identifiers, in lexicographic order.
pub struct TokensResponse {
    pub tokens: Vec<String>,
}

/// One page of an owner's operator grants.
pub struct ApprovedForAllResponse {
    pub operators: Vec<Approval>,
}

/// Reads the minter identity.
pub fn query_minter(state: &NftRegistry) -> (r: MinterResponse)
    ensures
        r.minter == state.minter,
{
    MinterResponse { minter: state.minter.clone() }
}

/// Reads the registry metadata and the per-rank caps.
pub fn query_contract_info(state: &NftRegistry) -> (r: ContractInfo)
    ensures
        r.name == state.info.name,
        r.symbol == state.info.symbol,
        r.base_cap == state.info.base_cap,
        r.silver_cap == state.info.silver_cap,
        r.gold_cap == state.info.gold_cap,
{
    ContractInfo {
        name: state.info.name.clone(),
        symbol: state.info.symbol.clone(),
        base_cap: state.info.base_cap,
        silver_cap: state.info.silver_cap,
        gold_cap: state.info.gold_cap,
    }
}

/// The metadata in the client-side answer shape.
pub fn query_contract_info_response(state: &NftRegistry) -> (r: ContractInfoResponse)
    ensures
        r.name == state.info.name,
        r.symbol == state.info.symbol,
{
    ContractInfoResponse { name: state.info.name.clone(), symbol: state.info.symbol.clone() }
}

/// Reads how many base tokens were ever minted.
pub fn query_base_tokens(state: &NftRegistry) -> (r: NumTokensResponse)
    ensures
        r.count == state.base_count,
{
    NumTokensResponse { count: state.base_count }
}

/// Reads how many silver tokens were ever minted.
pub fn query_silver_tokens(state: &NftRegistry) -> (r: NumTokensResponse)
    ensures
        r.count == state.silver_count,
{
    NumTokensResponse { count: state.silver_count }
}

/// Reads how many gold tokens were ever minted.
pub fn query_gold_tokens(state: &NftRegistry) -> (r: NumTokensResponse)
    ensures
        r.count == state.gold_count,
{
    NumTokensResponse { count: state.gold_count }
}

/// Whether one more token of `rank` may still be minted: its count is
/// strictly below its cap.
pub fn query_mintable(state: &NftRegistry, rank: Rank) -> (r: bool)
    ensures
        r == ((state.count(rank) as u128) < state.cap(rank)),
{
    let count = match rank {
        Rank::Base => state.base_count,
        Rank::Silver => state.silver_count,
        Rank::Gold => state.gold_count,
    };
    let cap = match rank {
        Rank::Base => state.info.base_cap,
        Rank::Silver => state.info.silver_cap,
        Rank::Gold => state.info.gold_cap,
    };
    (count as u128) < cap
}

/// Reads the rank of one token; an unknown identifier is an error.
pub fn query_nft_info(state: &NftRegistry, token_id: &str) -> (r: Result<NftInfoResponse, Error>)
    requires
        state.wf(),
    ensures
        match r {
            Ok(info) => state.tokens@.contains_key(token_id@) && info.rank
                == state.tokens@[token_id@].rank,
            Err(e) => e == Error::NotFound && !state.tokens@.contains_key(token_id@),
        },
{
    match state.tokens.get(token_id) {
        Some(t) => Ok(NftInfoResponse { rank: t.rank }),
        None => Err(Error::NotFound),
    }
}

/// Copies a token's approval list.
fn clone_approvals(approvals: &Vec<Approval>) -> (r: Vec<Approval>)
    ensures
        approval_views(r@) == approval_views(approvals@),
{
    let n = approvals.len();
    let mut out: Vec<Approval> = Vec::new();
    let mut i: usize = 0;
    while i < n
        invariant
            0 <= i <= n,
            n == approvals@.len(),
            out@.len() == i,
            forall|j: int| 0 <= j < i ==> (#[trigger] out@[j])@ == approvals@[j]@,
        decreases n - i,
    {
        out.push(approvals[i].clone());
        i += 1;
    }
    proof {
        assert(approval_views(out@) =~= approval_views(approvals@));
    }
    out
}

/// Reads the owner of one token and all its stored approvals; an unknown
/// identifier is an error.
pub fn query_owner_of(state: &NftRegistry, token_id: &str) -> (r: Result<OwnerOfResponse, Error>)
    requires
        state.wf(),
    ensures
        match r {
            Ok(resp) => {
                &&& state.tokens@.contains_key(token_id@)
                &&& resp.owner@ == state.tokens@[token_id@].owner@
                &&& approval_views(resp.approvals@) == approval_views(
                    state.tokens@[token_id@].approvals@,
                )
            },
            Err(e) => e == Error::NotFound && !state.tokens@.contains_key(token_id@),
        },
{
    match state.tokens.get(token_id) {
        Some(t) => Ok(
            OwnerOfResponse { owner: t.owner.clone(), approvals: clone_approvals(&t.approvals) },
        ),
        None => Err(Error::NotFound),
    }
}

/// Reads owner, approvals and rank of one token in a single answer.
pub fn query_all_nft_info(state: &NftRegistry, token_id: &str) -> (r: Result<
    AllNftInfoResponse,
    Error,
>)
    requires
        state.wf(),
    ensures
        match r {
            Ok(resp) => {
                &&& state.tokens@.contains_key(token_id@)
                &&& resp.access.owner@ == state.tokens@[token_id@].owner@
                &&& approval_views(resp.access.approvals@) == approval_views(
                    state.tokens@[token_id@].approvals@,
                )
                &&& resp.info.rank == state.tokens@[token_id@].rank
            },
            Err(e) => e == Error::NotFound && !state.tokens@.contains_key(token_id@),
        },
{
    match state.tokens.get(token_id) {
        Some(t) => Ok(
            AllNftInfoResponse {
                access: OwnerOfResponse {
                    owner: t.owner.clone(),
                    approvals: clone_approvals(&t.approvals),
                },
                info: NftInfoResponse { rank: t.rank },
            },
        ),
        None => Err(Error::NotFound),
    }
}

/// The stored operator grants of one owner, keyed by operator.
pub open spec fn owner_operator_pairs(state: NftRegistry, owner: Seq<char>) -> Seq<
    (Seq<char>, Expiration),
> {
    if state.operators@.contains_key(owner) {
        pair_views(state.operators@[owner].entries@)
    } else {
        Seq::<(Seq<char>, Expiration)>::empty()
    }
}

/// Operator pairs as approval values.
pub open spec fn pairs_as_approvals(ps: Seq<(Seq<char>, Expiration)>) -> Seq<ApprovalView> {
    Seq::new(ps.len(), |i: int| ApprovalView { spender: ps[i].0, expires: ps[i].1 })
}

/// Lists the operators `owner` has granted rights to, in ascending
/// operator order, starting strictly after `start_after`. Grants are
/// reported as stored, expired ones included.
pub fn query_all_approvals(
    state: &NftRegistry,
    owner: &str,
    start_after: Option<String>,
    limit: Option<u32>,
) -> (r: ApprovedForAllResponse)
    requires
        state.wf(),
    ensures
        approval_views(r.operators@) == pairs_as_approvals(
            pairs_page(
                owner_operator_pairs(*state, owner@),
                start_view(start_after),
                crate::enumerable::spec_effective_limit(limit),
            ),
        ),
{
    let lim = crate::enumerable::effective_limit(limit);
    let start: Option<&str> = match &start_after {
        Some(s) => Some(s.as_str()),
        None => None,
    };
    match state.operators.get(owner) {
        Some(inner) => {
            let entries = inner.list_entries(start, lim);
            let mut items: Vec<Approval> = Vec::new();
            let n = entries.len();
            let mut i: usize = 0;
            while i < n
                invariant
                    0 <= i <= n,
                    n == entries@.len(),
                    items@.len() == i,
                    forall|j: int|
                        0 <= j < i ==> (#[trigger] items@[j])@ == (ApprovalView {
                            spender: entries@[j].0@,
                            expires: entries@[j].1,
                        }),
                decreases n - i,
            {
                let pair = &entries[i];
                items.push(Approval { spender: pair.0.clone(), expires: pair.1 });
                i += 1;
            }
            proof {
                assert(approval_views(items@) =~= pairs_as_approvals(pair_views(entries@)));
            }
            ApprovedForAllResponse { operators: items }
        },
        None => {
            proof {
                assert(pairs_page(
                    owner_operator_pairs(*state, owner@),
                    start_view(start_after),
                    crate::enumerable::spec_effective_limit(limit),
                ) =~= Seq::<(Seq<char>, Expiration)>::empty());
                assert(approval_views(Seq::<Approval>::empty()) =~= pairs_as_approvals(
                    Seq::<(Seq<char>, Expiration)>::empty(),
                ));
            }
            ApprovedForAllResponse { operators: Vec::new() }
        },
    }
}

/// Whether a key lies strictly after the start of a listing.
pub open spec fn after_start(start: Option<Seq<char>>, k: Seq<char>) -> bool {
    match start {
        None => true,
        Some(s) => lex_lt(s, k),
    }
}

/// One page of the identifiers of tokens of one rank: the first `limit`
/// identifiers strictly after `start`, in lexicographic order.
pub open spec fn rank_token_page(
    entries: Seq<(String, TokenInfo)>,
    rank: Rank,
    start: Option<Seq<char>>,
    limit: int,
) -> Seq<Seq<char>> {
    let ps = pair_views(entries);
    let keys = ps.filter(|p: (Seq<char>, TokenInfo)| p.1.rank == rank && after_start(start, p.0))
        .map_values(|p: (Seq<char>, TokenInfo)| p.0);
    if limit <= keys.len() {
        keys.take(limit)
    } else {
        keys
    }
}

/// Lists the identifiers of tokens of `rank`, in ascending order,
/// starting strictly after `start_after`; burned tokens stay listed.
fn list_rank_tokens(
    state: &NftRegistry,
    rank: Rank,
    start_after: Option<String>,
    limit: Option<u32>,
) -> (r: TokensResponse)
    requires
        state.wf(),
    ensures
        crate::strmap::key_views(r.tokens@) == rank_token_page(
            state.tokens.entries@,
            rank,
            start_view(start_after),
            crate::enumerable::spec_effective_limit(limit),
        ),
{
    let lim = crate::enumerable::effective_limit(limit);
    let ghost ps = pair_views(state.tokens.entries@);
    let ghost sv: Option<Seq<char>> = start_view(start_after);
    let ghost pred = |p: (Seq<char>, TokenInfo)| p.1.rank == rank && after_start(sv, p.0);
    let ghost proj = |p: (Seq<char>, TokenInfo)| p.0;
    let n = state.tokens.entries.len();
    let mut out: Vec<String> = Vec::new();
    let mut i: usize = 0;
    while i < n
        invariant
            0 <= i <= n,
            n == state.tokens.entries@.len(),
            ps == pair_views(state.tokens.entries@),
            sv == start_view(start_after),
            (match (&start_after, sv) {
                (Some(s), Some(v)) => s@ == v,
                (None, None) => true,
                _ => false,
            }),
            pred == (|p: (Seq<char>, TokenInfo)| p.1.rank == rank && after_start(sv, p.0)),
            proj == (|p: (Seq<char>, TokenInfo)| p.0),
            out@.len() <= lim,
            lim as int == crate::enumerable::spec_effective_limit(limit),
            out@.len() == if ps.take(i as int).filter(pred).len() <= lim {
                ps.take(i as int).filter(pred).len() as int
            } else {
                lim as int
            },
            crate::strmap::key_views(out@) == {
                let keys = ps.take(i as int).filter(pred).map_values(proj);
                if lim <= keys.len() {
                    keys.take(lim as int)
                } else {
                    keys
                }
            },
        decreases n - i,
    {
        proof {
            assert(ps.take(i as int).push(ps[i as int]) =~= ps.take(i + 1));
            lemma_filter_push(ps.take(i as int), pred, ps[i as int]);
            if pred(ps[i as int]) {
                assert(ps.take(i + 1).filter(pred).map_values(proj) =~= ps.take(i as int).filter(
                    pred,
                ).map_values(proj).push(ps[i as int].0));
            }
        }
        let pair = &state.tokens.entries[i];
        let included = pair.1.rank == rank && (match &start_after {
            None => true,
            Some(s) => match str_compare(s.as_str(), pair.0.as_str()) {
                Cmp::Less => true,
                _ => false,
            },
        });
        if included && out.len() < lim {
            out.push(pair.0.clone());
            proof {
                assert(crate::strmap::key_views(out@) =~= crate::strmap::key_views(
                    out@.drop_last(),
                ).push(ps[i as int].0));
                let keys = ps.take(i + 1).filter(pred).map_values(proj);
                assert(crate::strmap::key_views(out@) =~= (if lim <= keys.len() {
                    keys.take(lim as int)
                } else {
                    keys
                }));
            }
        } else {
            proof {
                let keys = ps.take(i + 1).filter(pred).map_values(proj);
                assert(crate::strmap::key_views(out@) =~= (if lim <= keys.len() {
                    keys.take(lim as int)
                } else {
                    keys
                }));
            }
        }
        i += 1;
    }
    proof {
        assert(ps.take(n as int) =~= ps);
    }
    TokensResponse { tokens: out }
}

/// Lists base-rank token identifiers, one page at a time.
pub fn query_all_base_tokens(
    state: &NftRegistry,
    start_after: Option<String>,
    limit: Option<u32>,
) -> (r: TokensResponse)
    requires
        state.wf(),
    ensures
        crate::strmap::key_views(r.tokens@) == rank_token_page(
            state.tokens.entries@,
            Rank::Base,
            start_view(start_after),
            crate::enumerable::spec_effective_limit(limit),
        ),
{
    list_rank_tokens(state, Rank::Base, start_after, limit)
}

/// Lists silver-rank token identifiers, one page at a time.
pub fn query_all_silver_tokens(
    state: &NftRegistry,
    start_after: Option<String>,
    limit: Option<u32>,
) -> (r: TokensResponse)
    requires
        state.wf(),
    ensures
        crate::strmap::key_views(r.tokens@) == rank_token_page(
            state.tokens.entries@,
            Rank::Silver,
            start_view(start_after),
            crate::enumerable::spec_effective_limit(limit),
        ),
{
    list_rank_tokens(state, Rank::Silver, start_after, limit)
}

/// Lists gold-rank token identifiers, one page at a time.
pub fn query_all_gold_tokens(
    state: &NftRegistry,
    start_after: Option<String>,
    limit: Option<u32>,
) -> (r: TokensResponse)
    requires
        state.wf(),
    ensures
        crate::strmap::key_views(r.tokens@) == rank_token_page(
            state.tokens.entries@,
            Rank::Gold,
            start_view(start_after),
            crate::enumerable::spec_effective_limit(limit),
        ),
{
    list_rank_tokens(state, Rank::Gold, start_after, limit)
}

} // verus!
