//! The token registry's single dispatch points: one tagged command type
//! routed to the matching operation, and one tagged query type routed to
//! the matching reader.

use vstd::prelude::*;

use crate::env::Env;
use crate::error::Error;
use crate::expiration::Expiration;
use crate::nft::{approve_all_post, approve_post, mint_post, revoke_all_post, revoke_post,
    send_nft_post, transfer_nft_post, update_minter_post, NftRegistry, Rank};
use crate::nft_query::{query_all_approvals, query_all_base_tokens, query_all_gold_tokens,
    query_all_nft_info, query_all_silver_tokens, query_base_tokens, query_contract_info,
    query_gold_tokens, query_minter, query_mintable, query_nft_info, query_owner_of,
    query_silver_tokens, rank_token_page, owner_operator_pairs, pairs_as_approvals,
    AllNftInfoResponse, ApprovedForAllResponse, MinterResponse, NftInfoResponse, NumTokensResponse,
    OwnerOfResponse, TokensResponse};
use crate::response::Response;
use crate::upgrade::{base_to_silver_post, handle_base_to_silver, handle_silver_to_gold,
    silver_to_gold_post};

verus! {

/// Every command the token registry accepts.
pub enum HandleMsg {
    Mint { owner: String, rank: Rank },
    BaseToSilver { base_1: String, base_2: String, base_3: String },
    SilverToGold {
        silver_1: String,
        silver_2: String,
        silver_3: String,
        silver_4: String,
        silver_5: String,
    },
    Approve { spender: String, token_id: String, expires: Option<Expiration> },
    Revoke { spender: String, token_id: String },
    ApproveAll { operator: String, expires: Option<Expiration> },
    RevokeAll { operator: String },
    TransferNft { recipient: String, token_id: String },
    SendNft { contract: String, token_id: String, msg: Option<Vec<u8>> },
    UpdateMinter { minter: String },
}

/// Routes one command to the operation that handles it; the single entry
/// point for mutating calls on the token registry.
pub fn handle(state: &mut NftRegistry, env: &Env, msg: HandleMsg) -> (r: Result<Response, Error>)
    requires
        old(state).wf(),
    ensures
        final(state).wf(),
        match msg {
            HandleMsg::Mint { owner, rank } => mint_post(
                *old(state),
                *final(state),
                *env,
                owner@,
                rank,
                r,
            ),
            HandleMsg::BaseToSilver { base_1, base_2, base_3 } => base_to_silver_post(
                *old(state),
                *final(state),
                *env,
                base_1@,
                base_2@,
                base_3@,
                r,
            ),
            HandleMsg::SilverToGold { silver_1, silver_2, silver_3, silver_4, silver_5 } =>
                silver_to_gold_post(
                *old(state),
                *final(state),
                *env,
                silver_1@,
                silver_2@,
                silver_3@,
                silver_4@,
                silver_5@,
                r,
            ),
            HandleMsg::Approve { spender, token_id, expires } => approve_post(
                *old(state),
                *final(state),
                *env,
                spender@,
                token_id@,
                expires,
                r,
            ),
            HandleMsg::Revoke { spender, token_id } => revoke_post(
                *old(state),
                *final(state),
                *env,
                spender@,
                token_id@,
                r,
            ),
            HandleMsg::ApproveAll { operator, expires } => approve_all_post(
                *old(state),
                *final(state),
                *env,
                operator@,
                expires,
                r,
            ),
            HandleMsg::RevokeAll { operator } => revoke_all_post(
                *old(state),
                *final(state),
                *env,
                operator@,
                r,
            ),
            HandleMsg::TransferNft { recipient, token_id } => transfer_nft_post(
                *old(state),
                *final(state),
                *env,
                recipient@,
                token_id@,
                r,
            ),
            HandleMsg::SendNft { contract, token_id, msg } => send_nft_post(
                *old(state),
                *final(state),
                *env,
                contract@,
                token_id@,
                match msg {
                    Some(m) => Some(m@),
                    None => None,
                },
                r,
            ),
            HandleMsg::UpdateMinter { minter } => update_minter_post(
                *old(state),
                *final(state),
                *env,
                minter@,
                r,
            ),
        },
{
    match msg {
        HandleMsg::Mint { owner, rank } => crate::nft::handle_mint(state, env, owner, rank),
        HandleMsg::BaseToSilver { base_1, base_2, base_3 } => handle_base_to_silver(
            state,
            env,
            base_1,
            base_2,
            base_3,
        ),
        HandleMsg::SilverToGold { silver_1, silver_2, silver_3, silver_4, silver_5 } =>
            handle_silver_to_gold(state, env, silver_1, silver_2, silver_3, silver_4, silver_5),
        HandleMsg::Approve { spender, token_id, expires } => crate::nft::handle_approve(
            state,
            env,
            spender,
            token_id,
            expires,
        ),
        HandleMsg::Revoke { spender, token_id } => crate::nft::handle_revoke(
            state,
            env,
            spender,
            token_id,
        ),
        HandleMsg::ApproveAll { operator, expires } => crate::nft::handle_approve_all(
            state,
            env,
            operator,
            expires,
        ),
        HandleMsg::RevokeAll { operator } => crate::nft::handle_revoke_all(state, env, operator),
        HandleMsg::TransferNft { recipient, token_id } => crate::nft::handle_transfer_nft(
            state,
            env,
            recipient,
            token_id,
        ),
        HandleMsg::SendNft { contract, token_id, msg } => crate::nft::handle_send_nft(
            state,
            env,
            contract,
            token_id,
            msg,
        ),
        HandleMsg::UpdateMinter { minter } => crate::nft::handle_update_minter(state, env, minter),
    }
}

/// Every read-only question the token registry answers.
pub enum QueryMsg {
    Minter {},
    ContractInfo {},
    NftInfo { token_id: String },
    OwnerOf { token_id: String },
    AllNftInfo { token_id: String },
    ApprovedForAll { owner: String, start_after: Option<String>, limit: Option<u32> },
    BaseTokens {},
    AllBaseTokens { start_after: Option<String>, limit: Option<u32> },
    SilverTokens {},
    AllSilverTokens { start_after: Option<String>, limit: Option<u32> },
    GoldTokens {},
    AllGoldTokens { start_after: Option<String>, limit: Option<u32> },
    IsMintable { rank: Rank },
}

/// The typed answer to a query; the host serializes it.
pub enum QueryAnswer {
    Minter(MinterResponse),
    ContractInfo(crate::nft::ContractInfo),
    NftInfo(NftInfoResponse),
    OwnerOf(OwnerOfResponse),
    AllNftInfo(AllNftInfoResponse),
    ApprovedForAll(ApprovedForAllResponse),
    NumTokens(NumTokensResponse),
    Tokens(TokensResponse),
    IsMintable(bool),
}

/// Routes one query to the reader that answers it; queries never write,
/// and only token lookups on unknown identifiers fail.
pub fn query(state: &NftRegistry, msg: QueryMsg) -> (r: Result<QueryAnswer, Error>)
    requires
        state.wf(),
    ensures
        match msg {
            QueryMsg::Minter {} => r matches Ok(QueryAnswer::Minter(m)) && m.minter
                == state.minter,
            QueryMsg::ContractInfo {} => r matches Ok(QueryAnswer::ContractInfo(c)) && c.name
                == state.info.name && c.symbol == state.info.symbol && c.base_cap
                == state.info.base_cap && c.silver_cap == state.info.silver_cap && c.gold_cap
                == state.info.gold_cap,
            QueryMsg::NftInfo { token_id } => (match r {
                Ok(QueryAnswer::NftInfo(info)) => state.tokens@.contains_key(token_id@)
                    && info.rank == state.tokens@[token_id@].rank,
                Err(e) => e == Error::NotFound && !state.tokens@.contains_key(token_id@),
                _ => false,
            }),
            QueryMsg::OwnerOf { token_id } => (match r {
                Ok(QueryAnswer::OwnerOf(resp)) => state.tokens@.contains_key(token_id@)
                    && resp.owner@ == state.tokens@[token_id@].owner@
                    && crate::nft::approval_views(resp.approvals@) == crate::nft::approval_views(
                    state.tokens@[token_id@].approvals@,
                ),
                Err(e) => e == Error::NotFound && !state.tokens@.contains_key(token_id@),
                _ => false,
            }),
            QueryMsg::AllNftInfo { token_id } => (match r {
                Ok(QueryAnswer::AllNftInfo(resp)) => state.tokens@.contains_key(token_id@)
                    && resp.access.owner@ == state.tokens@[token_id@].owner@
                    && crate::nft::approval_views(resp.access.approvals@)
                    == crate::nft::approval_views(state.tokens@[token_id@].approvals@)
                    && resp.info.rank == state.tokens@[token_id@].rank,
                Err(e) => e == Error::NotFound && !state.tokens@.contains_key(token_id@),
                _ => false,
            }),
            QueryMsg::ApprovedForAll { owner, start_after, limit } => r matches Ok(
                QueryAnswer::ApprovedForAll(a),
            ) && crate::nft::approval_views(a.operators@) == pairs_as_approvals(
                crate::strmap::pairs_page(
                    owner_operator_pairs(*state, owner@),
                    crate::enumerable::start_view(start_after),
                    crate::enumerable::spec_effective_limit(limit),
                ),
            ),
            QueryMsg::BaseTokens {} => r matches Ok(QueryAnswer::NumTokens(n)) && n.count
                == state.base_count,
            QueryMsg::SilverTokens {} => r matches Ok(QueryAnswer::NumTokens(n)) && n.count
                == state.silver_count,
            QueryMsg::GoldTokens {} => r matches Ok(QueryAnswer::NumTokens(n)) && n.count
                == state.gold_count,
            QueryMsg::AllBaseTokens { start_after, limit } => r matches Ok(QueryAnswer::Tokens(t))
                && crate::strmap::key_views(t.tokens@) == rank_token_page(
                state.tokens.entries@,
                Rank::Base,
                crate::enumerable::start_view(start_after),
                crate::enumerable::spec_effective_limit(limit),
            ),
            QueryMsg::AllSilverTokens { start_after, limit } => r matches Ok(
                QueryAnswer::Tokens(t),
            ) && crate::strmap::key_views(t.tokens@) == rank_token_page(
                state.tokens.entries@,
                Rank::Silver,
                crate::enumerable::start_view(start_after),
                crate::enumerable::spec_effective_limit(limit),
            ),
            QueryMsg::AllGoldTokens { start_after, limit } => r matches Ok(QueryAnswer::Tokens(t))
                && crate::strmap::key_views(t.tokens@) == rank_token_page(
                state.tokens.entries@,
                Rank::Gold,
                crate::enumerable::start_view(start_after),
                crate::enumerable::spec_effective_limit(limit),
            ),
            QueryMsg::IsMintable { rank } => r matches Ok(QueryAnswer::IsMintable(b)) && b == ((
            state.count(rank) as u128) < state.cap(rank)),
        },
{
    match msg {
        QueryMsg::Minter {} => Ok(QueryAnswer::Minter(query_minter(state))),
        QueryMsg::ContractInfo {} => Ok(QueryAnswer::ContractInfo(query_contract_info(state))),
        QueryMsg::NftInfo { token_id } => match query_nft_info(state, token_id.as_str()) {
            Ok(info) => Ok(QueryAnswer::NftInfo(info)),
            Err(e) => Err(e),
        },
        QueryMsg::OwnerOf { token_id } => match query_owner_of(state, token_id.as_str()) {
            Ok(resp) => Ok(QueryAnswer::OwnerOf(resp)),
            Err(e) => Err(e),
        },
        QueryMsg::AllNftInfo { token_id } => match query_all_nft_info(state, token_id.as_str()) {
            Ok(resp) => Ok(QueryAnswer::AllNftInfo(resp)),
            Err(e) => Err(e),
        },
        QueryMsg::ApprovedForAll { owner, start_after, limit } => Ok(
            QueryAnswer::ApprovedForAll(
                query_all_approvals(state, owner.as_str(), start_after, limit),
            ),
        ),
        QueryMsg::BaseTokens {} => Ok(QueryAnswer::NumTokens(query_base_tokens(state))),
        QueryMsg::AllBaseTokens { start_after, limit } => Ok(
            QueryAnswer::Tokens(query_all_base_tokens(state, start_after, limit)),
        ),
        QueryMsg::SilverTokens {} => Ok(QueryAnswer::NumTokens(query_silver_tokens(state))),
        QueryMsg::AllSilverTokens { start_after, limit } => Ok(
            QueryAnswer::Tokens(query_all_silver_tokens(state, start_after, limit)),
        ),
        QueryMsg::GoldTokens {} => Ok(QueryAnswer::NumTokens(query_gold_tokens(state))),
        QueryMsg::AllGoldTokens { start_after, limit } => Ok(
            QueryAnswer::Tokens(query_all_gold_tokens(state, start_after, limit)),
        ),
        QueryMsg::IsMintable { rank } => Ok(QueryAnswer::IsMintable(query_mintable(state, rank))),
    }
}

} // verus!
