//! The tiered non-fungible-token registry: ownership, approvals,
//! operators, rank-gated minting with per-rank caps.
//!
//! Per-token state is simply owner, rank and approvals; there is no
//! distinct burned state. A burned token is owned by the registry's own
//! address, the sentinel, and remains queryable. Token identifiers are
//! derived from the symbol, a rank letter and the next serial number of
//! that rank; an identifier, once minted, is never overwritten.

use vstd::prelude::*;
use vstd::string::StringExecFns;

use crate::decimal::{dec_digits, u64_to_string};
use crate::env::{BlockInfo, Env};
use crate::error::Error;
use crate::expiration::Expiration;
use crate::expiration::default_expiration;
use crate::lex::str_eq;
use crate::response::{attr, attr_str, calls_view, log_view, Attr, CallView, OutboundCall,
    Response};
use crate::strmap::{lemma_filter_push, StrMap};

verus! {

/// The tier of a token. Each rank has its own supply cap and counter.
#[derive(Clone, Copy, PartialEq, Eq, Structural, Debug)]
pub enum Rank {
    Base,
    Silver,
    Gold,
}

/// One per-token approval: an account that may transfer or send the
/// token, until the approval expires.
pub struct Approval {
    pub spender: String,
    pub expires: Expiration,
}

impl Clone for Approval {
    fn clone(&self) -> (r: Self)
        ensures
            r == *self,
    {
        Approval { spender: self.spender.clone(), expires: self.expires }
    }
}

/// The abstract value of an approval.
pub struct ApprovalView {
    pub spender: Seq<char>,
    pub expires: Expiration,
}

impl View for Approval {
    type V = ApprovalView;

    open spec fn view(&self) -> ApprovalView {
        ApprovalView { spender: self.spender@, expires: self.expires }
    }
}

/// The approvals of one token as abstract values.
pub open spec fn approval_views(s: Seq<Approval>) -> Seq<ApprovalView> {
    Seq::new(s.len(), |i: int| s[i]@)
}

/// One token's record: its owner, its approvals, and its rank.
pub struct TokenInfo {
    pub owner: String,
    /// Cleared wholesale on every ownership transfer.
    pub approvals: Vec<Approval>,
    pub rank: Rank,
}

/// Registry-wide metadata: the name, the symbol token identifiers start
/// with, and the per-rank mint caps.
pub struct ContractInfo {
    pub name: String,
    pub symbol: String,
    pub base_cap: u128,
    pub silver_cap: u128,
    pub gold_cap: u128,
}

/// What a token registry is created from.
pub struct InitMsg {
    pub name: String,
    pub symbol: String,
    pub minter: String,
    pub base_cap: u128,
    pub silver_cap: u128,
    pub gold_cap: u128,
}

/// The full state of the token registry.
pub struct NftRegistry {
    pub info: ContractInfo,
    /// The one address allowed to mint, replaceable only by itself.
    pub minter: String,
    pub base_count: u64,
    pub silver_count: u64,
    pub gold_count: u64,
    /// token id, in text form, to its record.
    pub tokens: StrMap<TokenInfo>,
    /// owner to operator to the grant's expiration.
    pub operators: StrMap<StrMap<Expiration>>,
}

/// At most one approval per spender on one token.
pub open spec fn approvals_wf(t: TokenInfo) -> bool {
    forall|i: int, j: int|
        0 <= i < j < t.approvals@.len() ==> (#[trigger] t.approvals@[i]).spender@ != (
        #[trigger] t.approvals@[j]).spender@
}

impl NftRegistry {
    /// The number of tokens minted so far at a rank; it only grows.
    pub open spec fn count(&self, rank: Rank) -> u64 {
        match rank {
            Rank::Base => self.base_count,
            Rank::Silver => self.silver_count,
            Rank::Gold => self.gold_count,
        }
    }

    /// The mint cap of a rank.
    pub open spec fn cap(&self, rank: Rank) -> u128 {
        match rank {
            Rank::Base => self.info.base_cap,
            Rank::Silver => self.info.silver_cap,
            Rank::Gold => self.info.gold_cap,
        }
    }

    /// Well-formed: the tables are sorted maps, each token's approvals
    /// name each spender at most once, and no rank counter has ever
    /// passed its cap.
    pub open spec fn wf(&self) -> bool {
        &&& self.tokens.wf()
        &&& self.operators.wf()
        &&& forall|o: Seq<char>|
            self.operators@.contains_key(o) ==> (#[trigger] self.operators@[o]).wf()
        &&& forall|id: Seq<char>|
            self.tokens@.contains_key(id) ==> approvals_wf(#[trigger] self.tokens@[id])
        &&& (self.base_count as u128) <= self.info.base_cap
        &&& (self.silver_count as u128) <= self.info.silver_cap
        &&& (self.gold_count as u128) <= self.info.gold_cap
    }
}

/// The letter a rank contributes to token identifiers.
pub open spec fn rank_letter(rank: Rank) -> Seq<char> {
    match rank {
        Rank::Base => "B"@,
        Rank::Silver => "S"@,
        Rank::Gold => "G"@,
    }
}

/// The letter a rank contributes to token identifiers.
pub fn rank_letter_str(rank: Rank) -> (r: &'static str)
    ensures
        r@ == rank_letter(rank),
{
    match rank {
        Rank::Base => "B",
        Rank::Silver => "S",
        Rank::Gold => "G",
    }
}

/// The rank's name in event logs.
pub open spec fn rank_word(rank: Rank) -> Seq<char> {
    match rank {
        Rank::Base => "base"@,
        Rank::Silver => "silver"@,
        Rank::Gold => "gold"@,
    }
}

/// The rank's name in event logs.
pub fn rank_word_str(rank: Rank) -> (r: &'static str)
    ensures
        r@ == rank_word(rank),
{
    match rank {
        Rank::Base => "base",
        Rank::Silver => "silver",
        Rank::Gold => "gold",
    }
}

/// The identifier the next minted token of a rank will get: the symbol,
/// the rank letter, and the next serial number of that rank.
pub open spec fn next_token_id(state: NftRegistry, rank: Rank) -> Seq<char> {
    state.info.symbol@ + rank_letter(rank) + dec_digits((state.count(rank) + 1) as nat)
}

/// Builds the identifier of the next token of `rank`.
pub(crate) fn make_token_id(state: &NftRegistry, rank: Rank) -> (id: String)
    requires
        state.count(rank) < u64::MAX,
    ensures
        id@ == next_token_id(*state, rank),
{
    let mut id = state.info.symbol.clone();
    id.append(rank_letter_str(rank));
    let count = match rank {
        Rank::Base => state.base_count,
        Rank::Silver => state.silver_count,
        Rank::Gold => state.gold_count,
    };
    let serial = u64_to_string(count + 1);
    id.append(serial.as_str());
    id
}

/// The operator grant an owner has given, if any is recorded.
pub open spec fn operator_grant(
    operators: Map<Seq<char>, StrMap<Expiration>>,
    owner: Seq<char>,
    operator: Seq<char>,
) -> Option<Expiration> {
    if operators.contains_key(owner) && operators[owner]@.contains_key(operator) {
        Some(operators[owner]@[operator])
    } else {
        None
    }
}

/// Whether `operator` currently holds blanket transfer rights over
/// `owner`'s tokens.
pub open spec fn operator_live(
    operators: Map<Seq<char>, StrMap<Expiration>>,
    owner: Seq<char>,
    operator: Seq<char>,
    block: BlockInfo,
) -> bool {
    match operator_grant(operators, owner, operator) {
        Some(e) => !e.spec_is_expired(block),
        None => false,
    }
}

/// Whether the token record carries a live approval for `spender`.
pub open spec fn has_live_approval(t: TokenInfo, spender: Seq<char>, block: BlockInfo) -> bool {
    exists|i: int|
        0 <= i < t.approvals@.len() && (#[trigger] t.approvals@[i]).spender@ == spender
            && !t.approvals@[i].expires.spec_is_expired(block)
}

/// Transfer authorization: the caller owns the token, is the registry's
/// own identity, holds a live per-token approval, or is a live operator
/// for the owner.
pub open spec fn can_send(
    t: TokenInfo,
    operators: Map<Seq<char>, StrMap<Expiration>>,
    env: Env,
) -> bool {
    let sender = env.message.sender@;
    ||| t.owner@ == sender
    ||| env.contract@ == sender
    ||| has_live_approval(t, sender, env.block)
    ||| operator_live(operators, t.owner@, sender, env.block)
}

/// Approve/revoke authorization: the caller owns the token or is a live
/// operator for the owner.
pub open spec fn can_approve(
    t: TokenInfo,
    operators: Map<Seq<char>, StrMap<Expiration>>,
    env: Env,
) -> bool {
    let sender = env.message.sender@;
    ||| t.owner@ == sender
    ||| operator_live(operators, t.owner@, sender, env.block)
}

/// Looks up whether the caller is a live operator for `owner`.
pub(crate) fn is_live_operator(state: &NftRegistry, owner: &str, operator: &str, block: &BlockInfo) -> (r:
    bool)
    requires
        state.wf(),
    ensures
        r == operator_live(state.operators@, owner@, operator@, *block),
{
    match state.operators.get(owner) {
        Some(inner) => match inner.get(operator) {
            Some(e) => !e.is_expired(block),
            None => false,
        },
        None => false,
    }
}

/// Checks whether the caller may transfer or send this token.
pub(crate) fn check_ownership(state: &NftRegistry, env: &Env, token: &TokenInfo) -> (r: bool)
    requires
        state.wf(),
    ensures
        r == can_send(*token, state.operators@, *env),
{
    if str_eq(token.owner.as_str(), env.message.sender.as_str()) {
        return true;
    }
    if str_eq(env.contract.as_str(), env.message.sender.as_str()) {
        return true;
    }
    let n = token.approvals.len();
    let mut i: usize = 0;
    while i < n
        invariant
            0 <= i <= n,
            n == token.approvals@.len(),
            forall|j: int|
                0 <= j < i ==> !((#[trigger] token.approvals@[j]).spender@ == env.message.sender@
                    && !token.approvals@[j].expires.spec_is_expired(env.block)),
        decreases n - i,
    {
        let a = &token.approvals[i];
        if str_eq(a.spender.as_str(), env.message.sender.as_str()) && !a.expires.is_expired(
            &env.block,
        ) {
            return true;
        }
        i += 1;
    }
    is_live_operator(state, token.owner.as_str(), env.message.sender.as_str(), &env.block)
}

/// Checks whether the caller may change this token's approvals.
fn check_can_approve(state: &NftRegistry, env: &Env, token: &TokenInfo) -> (r: bool)
    requires
        state.wf(),
    ensures
        r == can_approve(*token, state.operators@, *env),
{
    if str_eq(token.owner.as_str(), env.message.sender.as_str()) {
        return true;
    }
    is_live_operator(state, token.owner.as_str(), env.message.sender.as_str(), &env.block)
}

/// Reassigns a token to `recipient` and clears every approval; the shared
/// step of transfers, sends and burns.
pub(crate) fn transfer_token(state: &mut NftRegistry, token_id: &str, recipient: String)
    requires
        old(state).wf(),
        old(state).tokens@.contains_key(token_id@),
    ensures
        final(state).wf(),
        final(state).tokens@.dom() == old(state).tokens@.dom(),
        final(state).tokens@[token_id@].owner == recipient,
        final(state).tokens@[token_id@].approvals@ == Seq::<Approval>::empty(),
        final(state).tokens@[token_id@].rank == old(state).tokens@[token_id@].rank,
        forall|k: Seq<char>|
            k != token_id@ && old(state).tokens@.contains_key(k) ==> final(state).tokens@[k]
                == #[trigger] old(state).tokens@[k],
        final(state).info == old(state).info,
        final(state).minter == old(state).minter,
        final(state).base_count == old(state).base_count,
        final(state).silver_count == old(state).silver_count,
        final(state).gold_count == old(state).gold_count,
        final(state).operators == old(state).operators,
{
    let rank = match state.tokens.get(token_id) {
        Some(t) => t.rank,
        None => Rank::Base,
    };
    let record = TokenInfo { owner: recipient, approvals: Vec::new(), rank };
    state.tokens.insert(String::from_str(token_id), record);
    proof {
        assert(final(state).tokens@.dom() =~= old(state).tokens@.dom());
    }
}

/// Mints one token of `rank` to `owner` once every check has passed:
/// stores the fresh record under the derived identifier and advances the
/// rank counter.
pub(crate) fn mint_token(state: &mut NftRegistry, owner: String, rank: Rank) -> (id: String)
    requires
        old(state).wf(),
        (old(state).count(rank) as u128) < old(state).cap(rank),
        old(state).count(rank) < u64::MAX,
        !old(state).tokens@.contains_key(next_token_id(*old(state), rank)),
    ensures
        final(state).wf(),
        id@ == next_token_id(*old(state), rank),
        final(state).tokens@.dom() == old(state).tokens@.dom().insert(id@),
        final(state).tokens@[id@].owner == owner,
        final(state).tokens@[id@].approvals@ == Seq::<Approval>::empty(),
        final(state).tokens@[id@].rank == rank,
        forall|k: Seq<char>|
            k != id@ && old(state).tokens@.contains_key(k) ==> final(state).tokens@[k]
                == #[trigger] old(state).tokens@[k],
        final(state).count(rank) == old(state).count(rank) + 1,
        forall|q: Rank| q != rank ==> #[trigger] final(state).count(q) == old(state).count(q),
        final(state).info == old(state).info,
        final(state).minter == old(state).minter,
        final(state).operators == old(state).operators,
{
    let id = make_token_id(state, rank);
    let record = TokenInfo { owner, approvals: Vec::new(), rank };
    state.tokens.insert(id.clone(), record);
    match rank {
        Rank::Base => {
            state.base_count = state.base_count + 1;
        },
        Rank::Silver => {
            state.silver_count = state.silver_count + 1;
        },
        Rank::Gold => {
            state.gold_count = state.gold_count + 1;
        },
    }
    proof {
        assert(final(state).tokens@.dom() =~= old(state).tokens@.dom().insert(id@));
    }
    id
}

/// Creates the token registry with its metadata, caps and minter; no
/// tokens exist yet and every counter starts at zero.
pub fn init(msg: InitMsg) -> (state: NftRegistry)
    ensures
        state.wf(),
        state.info.name == msg.name,
        state.info.symbol == msg.symbol,
        state.info.base_cap == msg.base_cap,
        state.info.silver_cap == msg.silver_cap,
        state.info.gold_cap == msg.gold_cap,
        state.minter == msg.minter,
        state.base_count == 0,
        state.silver_count == 0,
        state.gold_count == 0,
        state.tokens@ == Map::<Seq<char>, TokenInfo>::empty(),
        state.operators@ == Map::<Seq<char>, StrMap<Expiration>>::empty(),
{
    NftRegistry {
        info: ContractInfo {
            name: msg.name,
            symbol: msg.symbol,
            base_cap: msg.base_cap,
            silver_cap: msg.silver_cap,
            gold_cap: msg.gold_cap,
        },
        minter: msg.minter,
        base_count: 0,
        silver_count: 0,
        gold_count: 0,
        tokens: StrMap::new(),
        operators: StrMap::new(),
    }
}

/// Whether the caller may mint: the configured minter, or the registry's
/// own identity (the self-invoked upgrade path).
pub open spec fn can_mint(state: NftRegistry, env: Env) -> bool {
    state.minter@ == env.message.sender@ || env.contract@ == env.message.sender@
}

/// Why a mint fails, if it does: authorization first, then the rank cap
/// (or counter overflow), then an identifier collision.
pub open spec fn mint_err(state: NftRegistry, env: Env, rank: Rank) -> Option<Error> {
    if !can_mint(state, env) {
        Some(Error::Unauthorized)
    } else if (state.count(rank) as u128) >= state.cap(rank) || state.count(rank) == u64::MAX {
        Some(Error::CapExceeded)
    } else if state.tokens@.contains_key(next_token_id(state, rank)) {
        Some(Error::AlreadyExists)
    } else {
        None
    }
}

/// What minting changes on success: a fresh record of the given rank
/// under the derived identifier, that rank's counter one higher, and
/// nothing else.
pub open spec fn minted(
    pre: NftRegistry,
    post: NftRegistry,
    owner: Seq<char>,
    rank: Rank,
) -> bool {
    let id = next_token_id(pre, rank);
    &&& post.tokens@.dom() == pre.tokens@.dom().insert(id)
    &&& post.tokens@[id].owner@ == owner
    &&& post.tokens@[id].approvals@.len() == 0
    &&& post.tokens@[id].rank == rank
    &&& forall|k: Seq<char>|
        k != id && pre.tokens@.contains_key(k) ==> post.tokens@[k] == #[trigger] pre.tokens@[k]
    &&& post.count(rank) == pre.count(rank) + 1
    &&& forall|q: Rank| q != rank ==> #[trigger] post.count(q) == pre.count(q)
    &&& post.info == pre.info
    &&& post.minter == pre.minter
    &&& post.operators == pre.operators
}

/// What `handle_mint` guarantees.
pub open spec fn mint_post(
    pre: NftRegistry,
    post: NftRegistry,
    env: Env,
    owner: Seq<char>,
    rank: Rank,
    r: Result<Response, Error>,
) -> bool {
    match r {
        Ok(resp) => {
            &&& mint_err(pre, env, rank) is None
            &&& minted(pre, post, owner, rank)
            &&& resp.messages@.len() == 0
            &&& log_view(resp.log@) == seq![
                ("action"@, "mint"@),
                ("minter"@, env.message.sender@),
                ("token_id"@, next_token_id(pre, rank)),
                ("rank"@, rank_word(rank)),
            ]
        },
        Err(e) => {
            &&& post == pre
            &&& mint_err(pre, env, rank) == Some(e)
        },
    }
}

/// Mints one token of `rank` to `owner`. Only the minter or the registry
/// itself may call; the rank cap and identifier uniqueness are enforced.
pub fn handle_mint(state: &mut NftRegistry, env: &Env, owner: String, rank: Rank) -> (r: Result<
    Response,
    Error,
>)
    requires
        old(state).wf(),
    ensures
        final(state).wf(),
        mint_post(*old(state), *final(state), *env, owner@, rank, r),
{
    let authorized = str_eq(state.minter.as_str(), env.message.sender.as_str()) || str_eq(
        env.contract.as_str(),
        env.message.sender.as_str(),
    );
    if !authorized {
        return Err(Error::Unauthorized);
    }
    let count = match rank {
        Rank::Base => state.base_count,
        Rank::Silver => state.silver_count,
        Rank::Gold => state.gold_count,
    };
    let cap = match rank {
        Rank::Base => state.info.base_cap,
        Rank::Silver => state.info.silver_cap,
        Rank::Gold => state.info.gold_cap,
    };
    if (count as u128) >= cap || count == u64::MAX {
        return Err(Error::CapExceeded);
    }
    let id = make_token_id(state, rank);
    if state.tokens.contains(id.as_str()) {
        return Err(Error::AlreadyExists);
    }
    let minted_id = mint_token(state, owner, rank);
    let mut log: Vec<Attr> = Vec::new();
    log.push(attr_str("action", "mint"));
    log.push(attr("minter", env.message.sender.clone()));
    log.push(attr("token_id", minted_id));
    log.push(attr_str("rank", rank_word_str(rank)));
    let resp = Response { messages: Vec::new(), log };
    proof {
        assert(log_view(resp.log@) =~= seq![
            ("action"@, "mint"@),
            ("minter"@, env.message.sender@),
            ("token_id"@, next_token_id(*old(state), rank)),
            ("rank"@, rank_word(rank)),
        ]);
    }
    Ok(resp)
}

/// What one ownership transfer changes: the token belongs to the
/// recipient, all prior approvals for it are cleared, and nothing else
/// moves.
pub open spec fn token_transferred(
    pre: NftRegistry,
    post: NftRegistry,
    token_id: Seq<char>,
    recipient: Seq<char>,
) -> bool {
    &&& post.tokens@.dom() == pre.tokens@.dom()
    &&& post.tokens@[token_id].owner@ == recipient
    &&& post.tokens@[token_id].approvals@.len() == 0
    &&& post.tokens@[token_id].rank == pre.tokens@[token_id].rank
    &&& forall|k: Seq<char>|
        k != token_id && pre.tokens@.contains_key(k) ==> post.tokens@[k] == #[trigger] pre.tokens@[k]
    &&& post.info == pre.info
    &&& post.minter == pre.minter
    &&& post.base_count == pre.base_count
    &&& post.silver_count == pre.silver_count
    &&& post.gold_count == pre.gold_count
    &&& post.operators == pre.operators
}

/// Why a transfer fails, if it does: a missing token, then authorization.
pub open spec fn transfer_err(
    pre: NftRegistry,
    env: Env,
    token_id: Seq<char>,
) -> Option<Error> {
    if !pre.tokens@.contains_key(token_id) {
        Some(Error::NotFound)
    } else if !can_send(pre.tokens@[token_id], pre.operators@, env) {
        Some(Error::Unauthorized)
    } else {
        None
    }
}

/// What `handle_transfer_nft` guarantees.
pub open spec fn transfer_nft_post(
    pre: NftRegistry,
    post: NftRegistry,
    env: Env,
    recipient: Seq<char>,
    token_id: Seq<char>,
    r: Result<Response, Error>,
) -> bool {
    match r {
        Ok(resp) => {
            &&& transfer_err(pre, env, token_id) is None
            &&& token_transferred(pre, post, token_id, recipient)
            &&& resp.messages@.len() == 0
            &&& log_view(resp.log@) == seq![
                ("action"@, "transfer_nft"@),
                ("sender"@, env.message.sender@),
                ("recipient"@, recipient),
                ("token_id"@, token_id),
            ]
        },
        Err(e) => {
            &&& post == pre
            &&& transfer_err(pre, env, token_id) == Some(e)
        },
    }
}

/// Reassigns the token to `recipient`, clearing all its approvals. The
/// caller must own the token, hold a live approval or operator grant, or
/// be the registry itself.
pub fn handle_transfer_nft(
    state: &mut NftRegistry,
    env: &Env,
    recipient: String,
    token_id: String,
) -> (r: Result<Response, Error>)
    requires
        old(state).wf(),
    ensures
        final(state).wf(),
        transfer_nft_post(*old(state), *final(state), *env, recipient@, token_id@, r),
{
    let authorized = match state.tokens.get(token_id.as_str()) {
        Some(t) => check_ownership(state, env, t),
        None => {
            return Err(Error::NotFound);
        },
    };
    if !authorized {
        return Err(Error::Unauthorized);
    }
    transfer_token(state, token_id.as_str(), recipient.clone());
    let mut log: Vec<Attr> = Vec::new();
    log.push(attr_str("action", "transfer_nft"));
    log.push(attr("sender", env.message.sender.clone()));
    log.push(attr("recipient", recipient));
    log.push(attr("token_id", token_id));
    let resp = Response { messages: Vec::new(), log };
    proof {
        assert(log_view(resp.log@) =~= seq![
            ("action"@, "transfer_nft"@),
            ("sender"@, env.message.sender@),
            ("recipient"@, resp.log@[2].value@),
            ("token_id"@, resp.log@[3].value@),
        ]);
    }
    Ok(resp)
}

/// What `handle_send_nft` guarantees: the same transfer, plus the relayed
/// outbound call when a payload was supplied.
pub open spec fn send_nft_post(
    pre: NftRegistry,
    post: NftRegistry,
    env: Env,
    contract: Seq<char>,
    token_id: Seq<char>,
    msg: Option<Seq<u8>>,
    r: Result<Response, Error>,
) -> bool {
    match r {
        Ok(resp) => {
            &&& transfer_err(pre, env, token_id) is None
            &&& token_transferred(pre, post, token_id, contract)
            &&& calls_view(resp.messages@) == (match msg {
                Some(encoded) => seq![CallView::Relay { encoded }],
                None => Seq::<CallView>::empty(),
            })
            &&& log_view(resp.log@) == seq![
                ("action"@, "send_nft"@),
                ("sender"@, env.message.sender@),
                ("recipient"@, contract),
                ("token_id"@, token_id),
            ]
        },
        Err(e) => {
            &&& post == pre
            &&& transfer_err(pre, env, token_id) == Some(e)
        },
    }
}

/// Transfers the token to a receiving contract and relays the supplied,
/// already-encoded call unchanged; no payload means no outbound call.
pub fn handle_send_nft(
    state: &mut NftRegistry,
    env: &Env,
    contract: String,
    token_id: String,
    msg: Option<Vec<u8>>,
) -> (r: Result<Response, Error>)
    requires
        old(state).wf(),
    ensures
        final(state).wf(),
        send_nft_post(
            *old(state),
            *final(state),
            *env,
            contract@,
            token_id@,
            match msg {
                Some(m) => Some(m@),
                None => None,
            },
            r,
        ),
{
    let authorized = match state.tokens.get(token_id.as_str()) {
        Some(t) => check_ownership(state, env, t),
        None => {
            return Err(Error::NotFound);
        },
    };
    if !authorized {
        return Err(Error::Unauthorized);
    }
    transfer_token(state, token_id.as_str(), contract.clone());
    let mut messages: Vec<OutboundCall> = Vec::new();
    match msg {
        Some(encoded) => {
            messages.push(OutboundCall::Relay { encoded });
        },
        None => {},
    }
    let mut log: Vec<Attr> = Vec::new();
    log.push(attr_str("action", "send_nft"));
    log.push(attr("sender", env.message.sender.clone()));
    log.push(attr("recipient", contract));
    log.push(attr("token_id", token_id));
    let resp = Response { messages, log };
    proof {
        assert(log_view(resp.log@) =~= seq![
            ("action"@, "send_nft"@),
            ("sender"@, env.message.sender@),
            ("recipient"@, resp.log@[2].value@),
            ("token_id"@, resp.log@[3].value@),
        ]);
        if resp.messages@.len() == 1 {
            assert(calls_view(resp.messages@) =~= seq![resp.messages@[0]@]);
        } else {
            assert(calls_view(resp.messages@) =~= Seq::<CallView>::empty());
        }
    }
    Ok(resp)
}

/// The approvals that stay when `spender`'s are removed.
pub open spec fn approvals_without(s: Seq<Approval>, spender: Seq<char>) -> Seq<ApprovalView> {
    approval_views(s).filter(|av: ApprovalView| av.spender != spender)
}

/// Why an approval change fails, if it does: a missing token, then
/// authorization, then (when granting) an already-elapsed expiration.
pub open spec fn approve_err(
    pre: NftRegistry,
    env: Env,
    token_id: Seq<char>,
    add: bool,
    expires: Option<Expiration>,
) -> Option<Error> {
    let d = match expires {
        Some(e) => e,
        None => Expiration::Never,
    };
    if !pre.tokens@.contains_key(token_id) {
        Some(Error::NotFound)
    } else if !can_approve(pre.tokens@[token_id], pre.operators@, env) {
        Some(Error::Unauthorized)
    } else if add && d.spec_is_expired(env.block) {
        Some(Error::InvalidExpiration)
    } else {
        None
    }
}

/// What an approval change leaves behind: the token keeps its owner and
/// rank, prior approvals for `spender` are removed, and a fresh one is
/// appended when granting.
pub open spec fn approvals_updated(
    pre: NftRegistry,
    post: NftRegistry,
    token_id: Seq<char>,
    spender: Seq<char>,
    add: bool,
    expires: Option<Expiration>,
) -> bool {
    let d = match expires {
        Some(e) => e,
        None => Expiration::Never,
    };
    let kept = approvals_without(pre.tokens@[token_id].approvals@, spender);
    &&& post.tokens@.dom() == pre.tokens@.dom()
    &&& post.tokens@[token_id].owner == pre.tokens@[token_id].owner
    &&& post.tokens@[token_id].rank == pre.tokens@[token_id].rank
    &&& approval_views(post.tokens@[token_id].approvals@) == (if add {
        kept.push(ApprovalView { spender, expires: d })
    } else {
        kept
    })
    &&& forall|k: Seq<char>|
        k != token_id && pre.tokens@.contains_key(k) ==> post.tokens@[k] == #[trigger] pre.tokens@[k]
    &&& post.info == pre.info
    &&& post.minter == pre.minter
    &&& post.base_count == pre.base_count
    &&& post.silver_count == pre.silver_count
    &&& post.gold_count == pre.gold_count
    &&& post.operators == pre.operators
}

/// Removes any approval `spender` holds on the token and, when granting,
/// appends the fresh one; the shared step of approve and revoke.
fn update_approvals(
    state: &mut NftRegistry,
    env: &Env,
    spender: &String,
    token_id: &str,
    add: bool,
    expires: Option<Expiration>,
) -> (r: Result<(), Error>)
    requires
        old(state).wf(),
    ensures
        final(state).wf(),
        match r {
            Ok(_) => approve_err(*old(state), *env, token_id@, add, expires) is None
                && approvals_updated(*old(state), *final(state), token_id@, spender@, add, expires),
            Err(e) => *final(state) == *old(state) && approve_err(
                *old(state),
                *env,
                token_id@,
                add,
                expires,
            ) == Some(e),
        },
{
    let ghost pre = *state;
    let (owner, rank, kept) = match state.tokens.get(token_id) {
        Some(t) => {
            if !check_can_approve(state, env, t) {
                return Err(Error::Unauthorized);
            }
            let ghost s = t.approvals@;
            let ghost pred = |av: ApprovalView| av.spender != spender@;
            let n = t.approvals.len();
            let mut kept: Vec<Approval> = Vec::new();
            let mut i: usize = 0;
            while i < n
                invariant
                    0 <= i <= n,
                    n == s.len(),
                    s == t.approvals@,
                    pred == (|av: ApprovalView| av.spender != spender@),
                    approvals_wf(*t),
                    approval_views(kept@) == approval_views(s.take(i as int)).filter(pred),
                    forall|k: int| 0 <= k < kept@.len() ==> (#[trigger] kept@[k]).spender@ != spender@,
                    forall|k: int|
                        0 <= k < kept@.len() ==> exists|p: int|
                            0 <= p < i && (#[trigger] kept@[k]).spender@ == s[p].spender@,
                    forall|k1: int, k2: int|
                        0 <= k1 < k2 < kept@.len() ==> (#[trigger] kept@[k1]).spender@ != (
                        #[trigger] kept@[k2]).spender@,
                decreases n - i,
            {
                proof {
                    assert(approval_views(s.take(i + 1)) =~= approval_views(
                        s.take(i as int),
                    ).push(s[i as int]@));
                    lemma_filter_push(approval_views(s.take(i as int)), pred, s[i as int]@);
                }
                let a = &t.approvals[i];
                if !str_eq(a.spender.as_str(), spender.as_str()) {
                    kept.push(a.clone());
                    proof {
                        assert(approval_views(kept@) =~= approval_views(
                            kept@.drop_last(),
                        ).push(s[i as int]@));
                        assert forall|k: int| 0 <= k < kept@.len() implies exists|p: int|
                            0 <= p < i + 1 && (#[trigger] kept@[k]).spender@ == s[p].spender@ by {
                            if k < kept@.len() - 1 {
                                let p = choose|p: int|
                                    0 <= p < i && (#[trigger] kept@[k]).spender@ == s[p].spender@;
                                assert(0 <= p < i + 1 && kept@[k].spender@ == s[p].spender@);
                            } else {
                                assert(0 <= (i as int) && (i as int) < i + 1);
                                assert(kept@[k].spender@ == s[i as int].spender@);
                            }
                        }
                        assert forall|k1: int, k2: int|
                            0 <= k1 < k2 < kept@.len() implies (#[trigger] kept@[k1]).spender@ != (
                        #[trigger] kept@[k2]).spender@ by {
                            if k2 == kept@.len() - 1 {
                                let p = choose|p: int|
                                    0 <= p < i && (#[trigger] kept@[k1]).spender@ == s[p].spender@;
                                assert(s[p].spender@ != s[i as int].spender@);
                            }
                        }
                    }
                } else {
                    proof {
                        assert(approval_views(kept@) =~= approval_views(s.take(i + 1)).filter(pred));
                    }
                }
                i += 1;
            }
            proof {
                assert(s.take(n as int) =~= s);
                assert(pred =~= (|av: ApprovalView| av.spender != spender@));
                assert(approval_views(kept@) == approvals_without(s, spender@));
            }
            (t.owner.clone(), t.rank, kept)
        },
        None => {
            return Err(Error::NotFound);
        },
    };
    let mut approvals = kept;
    if add {
        let d = crate::expiration::default_expiration(expires);
        if d.is_expired(&env.block) {
            return Err(Error::InvalidExpiration);
        }
        let ghost kept0 = approvals@;
        let fresh = Approval { spender: spender.clone(), expires: d };
        let ghost fresh_g = fresh;
        approvals.push(fresh);
        proof {
            assert(approvals@ == kept0.push(fresh_g));
            assert(fresh_g@ == (ApprovalView { spender: spender@, expires: d }));
            assert(approval_views(approvals@) =~= approval_views(kept0).push(
                ApprovalView { spender: spender@, expires: d },
            ));
        }
    }
    let record = TokenInfo { owner, approvals, rank };
    proof {
        assert forall|k1: int, k2: int|
            0 <= k1 < k2 < record.approvals@.len() implies (
        #[trigger] record.approvals@[k1]).spender@ != (#[trigger] record.approvals@[k2]).spender@ by {
            if add && k2 == record.approvals@.len() - 1 {
                assert(record.approvals@[k1].spender@ != spender@);
            }
        }
    }
    state.tokens.insert(String::from_str(token_id), record);
    proof {
        assert(state.tokens@.dom() =~= pre.tokens@.dom());
    }
    Ok(())
}

/// What `handle_approve` guarantees.
pub open spec fn approve_post(
    pre: NftRegistry,
    post: NftRegistry,
    env: Env,
    spender: Seq<char>,
    token_id: Seq<char>,
    expires: Option<Expiration>,
    r: Result<Response, Error>,
) -> bool {
    match r {
        Ok(resp) => {
            &&& approve_err(pre, env, token_id, true, expires) is None
            &&& approvals_updated(pre, post, token_id, spender, true, expires)
            &&& resp.messages@.len() == 0
            &&& log_view(resp.log@) == seq![
                ("action"@, "approve"@),
                ("sender"@, env.message.sender@),
                ("spender"@, spender),
                ("token_id"@, token_id),
            ]
        },
        Err(e) => {
            &&& post == pre
            &&& approve_err(pre, env, token_id, true, expires) == Some(e)
        },
    }
}

/// Grants `spender` the right to transfer the token until `expires`; any
/// prior approval for the same spender is replaced. Only the owner or a
/// live operator may call, and an already-elapsed expiration is rejected.
pub fn handle_approve(
    state: &mut NftRegistry,
    env: &Env,
    spender: String,
    token_id: String,
    expires: Option<Expiration>,
) -> (r: Result<Response, Error>)
    requires
        old(state).wf(),
    ensures
        final(state).wf(),
        approve_post(*old(state), *final(state), *env, spender@, token_id@, expires, r),
{
    match update_approvals(state, env, &spender, token_id.as_str(), true, expires) {
        Ok(_) => {},
        Err(e) => {
            return Err(e);
        },
    }
    let mut log: Vec<Attr> = Vec::new();
    log.push(attr_str("action", "approve"));
    log.push(attr("sender", env.message.sender.clone()));
    log.push(attr("spender", spender));
    log.push(attr("token_id", token_id));
    let resp = Response { messages: Vec::new(), log };
    proof {
        assert(log_view(resp.log@) =~= seq![
            ("action"@, "approve"@),
            ("sender"@, env.message.sender@),
            ("spender"@, resp.log@[2].value@),
            ("token_id"@, resp.log@[3].value@),
        ]);
    }
    Ok(resp)
}

/// What `handle_revoke` guarantees.
pub open spec fn revoke_post(
    pre: NftRegistry,
    post: NftRegistry,
    env: Env,
    spender: Seq<char>,
    token_id: Seq<char>,
    r: Result<Response, Error>,
) -> bool {
    match r {
        Ok(resp) => {
            &&& approve_err(pre, env, token_id, false, None) is None
            &&& approvals_updated(pre, post, token_id, spender, false, None)
            &&& resp.messages@.len() == 0
            &&& log_view(resp.log@) == seq![
                ("action"@, "revoke"@),
                ("sender"@, env.message.sender@),
                ("spender"@, spender),
                ("token_id"@, token_id),
            ]
        },
        Err(e) => {
            &&& post == pre
            &&& approve_err(pre, env, token_id, false, None) == Some(e)
        },
    }
}

/// Removes `spender`'s approval on the token, if any; removing an absent
/// approval is not an error.
pub fn handle_revoke(
    state: &mut NftRegistry,
    env: &Env,
    spender: String,
    token_id: String,
) -> (r: Result<Response, Error>)
    requires
        old(state).wf(),
    ensures
        final(state).wf(),
        revoke_post(*old(state), *final(state), *env, spender@, token_id@, r),
{
    match update_approvals(state, env, &spender, token_id.as_str(), false, None) {
        Ok(_) => {},
        Err(e) => {
            return Err(e);
        },
    }
    let mut log: Vec<Attr> = Vec::new();
    log.push(attr_str("action", "revoke"));
    log.push(attr("sender", env.message.sender.clone()));
    log.push(attr("spender", spender));
    log.push(attr("token_id", token_id));
    let resp = Response { messages: Vec::new(), log };
    proof {
        assert(log_view(resp.log@) =~= seq![
            ("action"@, "revoke"@),
            ("sender"@, env.message.sender@),
            ("spender"@, resp.log@[2].value@),
            ("token_id"@, resp.log@[3].value@),
        ]);
    }
    Ok(resp)
}

/// The operators an owner has granted records to.
pub open spec fn operator_set(
    operators: Map<Seq<char>, StrMap<Expiration>>,
    owner: Seq<char>,
) -> Set<Seq<char>> {
    if operators.contains_key(owner) {
        operators[owner]@.dom()
    } else {
        Set::<Seq<char>>::empty()
    }
}

/// Every (owner, operator) pair but the given one keeps its grant, and
/// every other owner keeps its operator set.
pub open spec fn other_operators_unchanged(
    pre: Map<Seq<char>, StrMap<Expiration>>,
    post: Map<Seq<char>, StrMap<Expiration>>,
    owner: Seq<char>,
    operator: Seq<char>,
) -> bool {
    &&& forall|o: Seq<char>, p: Seq<char>|
        !(o == owner && p == operator) ==> #[trigger] operator_grant(post, o, p) == operator_grant(
            pre,
            o,
            p,
        )
    &&& forall|o: Seq<char>| o != owner ==> #[trigger] operator_set(post, o) == operator_set(pre, o)
}

/// Everything except the operator table is unchanged.
pub open spec fn only_operators_changed(pre: NftRegistry, post: NftRegistry) -> bool {
    &&& post.info == pre.info
    &&& post.minter == pre.minter
    &&& post.base_count == pre.base_count
    &&& post.silver_count == pre.silver_count
    &&& post.gold_count == pre.gold_count
    &&& post.tokens == pre.tokens
}

/// What `handle_approve_all` guarantees: the caller's blanket grant to
/// `operator` is recorded with the given expiration, unless that
/// expiration has already elapsed.
pub open spec fn approve_all_post(
    pre: NftRegistry,
    post: NftRegistry,
    env: Env,
    operator: Seq<char>,
    expires: Option<Expiration>,
    r: Result<Response, Error>,
) -> bool {
    let sender = env.message.sender@;
    let d = match expires {
        Some(e) => e,
        None => Expiration::Never,
    };
    match r {
        Ok(resp) => {
            &&& !d.spec_is_expired(env.block)
            &&& only_operators_changed(pre, post)
            &&& operator_grant(post.operators@, sender, operator) == Some(d)
            &&& operator_set(post.operators@, sender) == operator_set(
                pre.operators@,
                sender,
            ).insert(operator)
            &&& other_operators_unchanged(pre.operators@, post.operators@, sender, operator)
            &&& resp.messages@.len() == 0
            &&& log_view(resp.log@) == seq![
                ("action"@, "approve_all"@),
                ("sender"@, sender),
                ("operator"@, operator),
            ]
        },
        Err(e) => {
            &&& post == pre
            &&& e == Error::InvalidExpiration
            &&& d.spec_is_expired(env.block)
        },
    }
}

/// Grants `operator` blanket transfer rights over all of the caller's
/// tokens until `expires`; an already-elapsed expiration is rejected.
pub fn handle_approve_all(
    state: &mut NftRegistry,
    env: &Env,
    operator: String,
    expires: Option<Expiration>,
) -> (r: Result<Response, Error>)
    requires
        old(state).wf(),
    ensures
        final(state).wf(),
        approve_all_post(*old(state), *final(state), *env, operator@, expires, r),
{
    let ghost pre = *state;
    let d = default_expiration(expires);
    if d.is_expired(&env.block) {
        return Err(Error::InvalidExpiration);
    }
    let mut inner: StrMap<Expiration> = match state.operators.take(env.message.sender.as_str()) {
        Some(m) => m,
        None => StrMap::new(),
    };
    proof {
        if pre.operators@.contains_key(env.message.sender@) {
            assert(inner.wf());
        }
    }
    inner.insert(operator.clone(), d);
    state.operators.insert(env.message.sender.clone(), inner);
    proof {
        assert(state.operators@ =~= pre.operators@.insert(env.message.sender@, inner));
        assert forall|o: Seq<char>|
            state.operators@.contains_key(o) implies (#[trigger] state.operators@[o]).wf() by {
            if o != env.message.sender@ {
                assert(pre.operators@[o].wf());
            }
        }
        assert(operator_set(state.operators@, env.message.sender@) =~= operator_set(
            pre.operators@,
            env.message.sender@,
        ).insert(operator@));
    }
    let mut log: Vec<Attr> = Vec::new();
    log.push(attr_str("action", "approve_all"));
    log.push(attr("sender", env.message.sender.clone()));
    log.push(attr("operator", operator));
    let resp = Response { messages: Vec::new(), log };
    proof {
        assert(log_view(resp.log@) =~= seq![
            ("action"@, "approve_all"@),
            ("sender"@, env.message.sender@),
            ("operator"@, resp.log@[2].value@),
        ]);
    }
    Ok(resp)
}

/// What `handle_revoke_all` guarantees: the caller's grant to `operator`
/// is gone; revoking an absent grant is not an error.
pub open spec fn revoke_all_post(
    pre: NftRegistry,
    post: NftRegistry,
    env: Env,
    operator: Seq<char>,
    r: Result<Response, Error>,
) -> bool {
    let sender = env.message.sender@;
    match r {
        Ok(resp) => {
            &&& only_operators_changed(pre, post)
            &&& operator_grant(post.operators@, sender, operator) is None
            &&& operator_set(post.operators@, sender) == operator_set(
                pre.operators@,
                sender,
            ).remove(operator)
            &&& other_operators_unchanged(pre.operators@, post.operators@, sender, operator)
            &&& resp.messages@.len() == 0
            &&& log_view(resp.log@) == seq![
                ("action"@, "revoke_all"@),
                ("sender"@, sender),
                ("operator"@, operator),
            ]
        },
        Err(_) => false,
    }
}

/// Removes the caller's blanket grant to `operator`, if any.
pub fn handle_revoke_all(state: &mut NftRegistry, env: &Env, operator: String) -> (r: Result<
    Response,
    Error,
>)
    requires
        old(state).wf(),
    ensures
        final(state).wf(),
        revoke_all_post(*old(state), *final(state), *env, operator@, r),
{
    let ghost pre = *state;
    match state.operators.take(env.message.sender.as_str()) {
        Some(mut inner) => {
            proof {
                assert(pre.operators@[env.message.sender@].wf());
            }
            inner.remove(operator.as_str());
            state.operators.insert(env.message.sender.clone(), inner);
            proof {
                assert(state.operators@ =~= pre.operators@.insert(env.message.sender@, inner));
                assert forall|o: Seq<char>|
                    state.operators@.contains_key(o) implies (
                #[trigger] state.operators@[o]).wf() by {
                    if o != env.message.sender@ {
                        assert(pre.operators@[o].wf());
                    }
                }
                assert(operator_set(state.operators@, env.message.sender@) =~= operator_set(
                    pre.operators@,
                    env.message.sender@,
                ).remove(operator@));
            }
        },
        None => {
            proof {
                assert(operator_set(state.operators@, env.message.sender@) =~= operator_set(
                    pre.operators@,
                    env.message.sender@,
                ).remove(operator@));
            }
        },
    }
    let mut log: Vec<Attr> = Vec::new();
    log.push(attr_str("action", "revoke_all"));
    log.push(attr("sender", env.message.sender.clone()));
    log.push(attr("operator", operator));
    let resp = Response { messages: Vec::new(), log };
    proof {
        assert(log_view(resp.log@) =~= seq![
            ("action"@, "revoke_all"@),
            ("sender"@, env.message.sender@),
            ("operator"@, resp.log@[2].value@),
        ]);
    }
    Ok(resp)
}

/// What `handle_update_minter` guarantees: only the current minter can
/// hand the role to a new address.
pub open spec fn update_minter_post(
    pre: NftRegistry,
    post: NftRegistry,
    env: Env,
    minter: Seq<char>,
    r: Result<Response, Error>,
) -> bool {
    let sender = env.message.sender@;
    match r {
        Ok(resp) => {
            &&& pre.minter@ == sender
            &&& post.minter@ == minter
            &&& post.info == pre.info
            &&& post.base_count == pre.base_count
            &&& post.silver_count == pre.silver_count
            &&& post.gold_count == pre.gold_count
            &&& post.tokens == pre.tokens
            &&& post.operators == pre.operators
            &&& resp.messages@.len() == 0
            &&& log_view(resp.log@) == seq![
                ("action"@, "update_minter"@),
                ("minter"@, sender),
            ]
        },
        Err(e) => {
            &&& post == pre
            &&& e == Error::Unauthorized
            &&& pre.minter@ != sender
        },
    }
}

/// Replaces the minter identity; only the current minter may rotate it.
pub fn handle_update_minter(state: &mut NftRegistry, env: &Env, minter: String) -> (r: Result<
    Response,
    Error,
>)
    requires
        old(state).wf(),
    ensures
        final(state).wf(),
        update_minter_post(*old(state), *final(state), *env, minter@, r),
{
    if !str_eq(state.minter.as_str(), env.message.sender.as_str()) {
        return Err(Error::Unauthorized);
    }
    state.minter = minter;
    let mut log: Vec<Attr> = Vec::new();
    log.push(attr_str("action", "update_minter"));
    log.push(attr("minter", env.message.sender.clone()));
    let resp = Response { messages: Vec::new(), log };
    proof {
        assert(log_view(resp.log@) =~= seq![
            ("action"@, "update_minter"@),
            ("minter"@, env.message.sender@),
        ]);
    }
    Ok(resp)
}

/// Rank caps are never passed: in every well-formed registry each rank's
/// minted count is at most its cap. Every operation of this module
/// requires and re-establishes well-formedness, so this holds at every
/// observation point; one more token of a rank is mintable exactly while
/// its count is still strictly below its cap.
pub proof fn lemma_rank_counts_capped(state: NftRegistry, rank: Rank)
    requires
        state.wf(),
    ensures
        (state.count(rank) as u128) <= state.cap(rank),
{
}

} // verus!
