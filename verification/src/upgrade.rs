//! The tier-upgrade orchestrator: burn several same-rank tokens, then
//! self-mint one token of the next rank.
//!
//! Burning is ownership transfer to the sentinel, the registry's own
//! address; the follow-up mint runs as the registry's own identity. The
//! whole crafting step is atomic: every listed burn and the mint succeed,
//! or the call fails with the error of the first step that would fail and
//! nothing changes.

use vstd::prelude::*;

use crate::env::Env;
use crate::error::Error;
use crate::lex::str_eq;
use crate::nft::{can_send, next_token_id, operator_live, transfer_token, mint_token,
    check_ownership, is_live_operator, rank_letter, NftRegistry, Rank};
use crate::response::{attr, attr_str, log_view, Attr, Response};
use crate::strmap::key_views;

verus! {

/// Whether the identifier at position `i` already occurs earlier in the
/// list; such a token reaches position `i` already burned.
pub open spec fn dup_before(ids: Seq<Seq<char>>, i: int) -> bool {
    exists|j: int| 0 <= j < i && ids[j] == ids[i]
}

/// Why the burn of the `i`-th listed token fails, if it does. A token
/// listed twice is owned by the sentinel when its second burn runs, so
/// only the registry itself or an operator for the sentinel may burn it
/// again.
pub open spec fn burn_step_err(
    pre: NftRegistry,
    env: Env,
    ids: Seq<Seq<char>>,
    i: int,
) -> Option<Error> {
    let id = ids[i];
    if dup_before(ids, i) {
        if env.contract@ == env.message.sender@ || operator_live(
            pre.operators@,
            env.contract@,
            env.message.sender@,
            env.block,
        ) {
            None
        } else {
            Some(Error::Unauthorized)
        }
    } else if !pre.tokens@.contains_key(id) {
        Some(Error::NotFound)
    } else if !can_send(pre.tokens@[id], pre.operators@, env) {
        Some(Error::Unauthorized)
    } else {
        None
    }
}

/// The error of the first failing burn among the first `k` listed
/// tokens, if any fails.
pub open spec fn first_burn_err(
    pre: NftRegistry,
    env: Env,
    ids: Seq<Seq<char>>,
    k: int,
) -> Option<Error>
    decreases k,
{
    if k <= 0 {
        None
    } else {
        match first_burn_err(pre, env, ids, k - 1) {
            Some(e) => Some(e),
            None => burn_step_err(pre, env, ids, k - 1),
        }
    }
}

/// Why the follow-up self-mint fails, if it does: the target rank's cap
/// (or counter overflow), then an identifier collision.
pub open spec fn craft_mint_err(pre: NftRegistry, target: Rank) -> Option<Error> {
    if (pre.count(target) as u128) >= pre.cap(target) || pre.count(target) == u64::MAX {
        Some(Error::CapExceeded)
    } else if pre.tokens@.contains_key(next_token_id(pre, target)) {
        Some(Error::AlreadyExists)
    } else {
        None
    }
}

/// The error a crafting call returns, if any step would fail: the burns
/// are examined in listed order, then the mint.
pub open spec fn craft_err(
    pre: NftRegistry,
    env: Env,
    ids: Seq<Seq<char>>,
    target: Rank,
) -> Option<Error> {
    match first_burn_err(pre, env, ids, ids.len() as int) {
        Some(e) => Some(e),
        None => craft_mint_err(pre, target),
    }
}

/// What a successful crafting call changes: every listed token is owned
/// by the sentinel with its approvals cleared and rank kept, one fresh
/// token of the target rank belongs to the caller, that rank's counter is
/// one higher, and nothing else moves.
pub open spec fn crafted(
    pre: NftRegistry,
    post: NftRegistry,
    env: Env,
    ids: Seq<Seq<char>>,
    target: Rank,
) -> bool {
    let id = next_token_id(pre, target);
    &&& post.tokens@.dom() == pre.tokens@.dom().insert(id)
    &&& forall|p: int|
        0 <= p < ids.len() ==> {
            &&& post.tokens@.contains_key(#[trigger] ids[p])
            &&& post.tokens@[ids[p]].owner@ == env.contract@
            &&& post.tokens@[ids[p]].approvals@.len() == 0
            &&& post.tokens@[ids[p]].rank == pre.tokens@[ids[p]].rank
        }
    &&& post.tokens@[id].owner@ == env.message.sender@
    &&& post.tokens@[id].approvals@.len() == 0
    &&& post.tokens@[id].rank == target
    &&& forall|k: Seq<char>|
        pre.tokens@.contains_key(k) && !ids.contains(k) && k != id ==> #[trigger] post.tokens@[k]
            == pre.tokens@[k]
    &&& post.count(target) == pre.count(target) + 1
    &&& forall|q: Rank| q != target ==> #[trigger] post.count(q) == pre.count(q)
    &&& post.info == pre.info
    &&& post.minter == pre.minter
    &&& post.operators == pre.operators
}

/// Once one burn fails, the whole listed scan reports that failure.
proof fn lemma_first_burn_stops(pre: NftRegistry, env: Env, ids: Seq<Seq<char>>, i: int, k: int)
    requires
        0 <= i < k,
        first_burn_err(pre, env, ids, i) is None,
        burn_step_err(pre, env, ids, i) is Some,
    ensures
        first_burn_err(pre, env, ids, k) == burn_step_err(pre, env, ids, i),
    decreases k,
{
    if k == i + 1 {
    } else {
        lemma_first_burn_stops(pre, env, ids, i, k - 1);
    }
}

/// A clean scan means every single burn step is clean.
proof fn lemma_first_burn_none(pre: NftRegistry, env: Env, ids: Seq<Seq<char>>, k: int)
    requires
        first_burn_err(pre, env, ids, k) is None,
    ensures
        forall|i: int| 0 <= i < k ==> #[trigger] burn_step_err(pre, env, ids, i) is None,
    decreases k,
{
    if k > 0 {
        lemma_first_burn_none(pre, env, ids, k - 1);
    }
}

/// When every burn step is clean, every listed token exists.
proof fn lemma_ids_present(pre: NftRegistry, env: Env, ids: Seq<Seq<char>>, i: int)
    requires
        0 <= i < ids.len(),
        forall|p: int| 0 <= p < ids.len() ==> #[trigger] burn_step_err(pre, env, ids, p) is None,
    ensures
        pre.tokens@.contains_key(ids[i]),
    decreases i,
{
    if dup_before(ids, i) {
        let j = choose|j: int| 0 <= j < i && ids[j] == ids[i];
        lemma_ids_present(pre, env, ids, j);
    } else {
        assert(burn_step_err(pre, env, ids, i) is None);
    }
}

/// Burns every listed token to the sentinel, then self-mints one token of
/// `target` to the caller; all of it or none of it.
fn craft(state: &mut NftRegistry, env: &Env, ids: &Vec<String>, target: Rank) -> (r: Result<
    (),
    Error,
>)
    requires
        old(state).wf(),
    ensures
        final(state).wf(),
        match r {
            Ok(_) => craft_err(*old(state), *env, key_views(ids@), target) is None && crafted(
                *old(state),
                *final(state),
                *env,
                key_views(ids@),
                target,
            ),
            Err(e) => *final(state) == *old(state) && craft_err(
                *old(state),
                *env,
                key_views(ids@),
                target,
            ) == Some(e),
        },
{
    let ghost pre = *state;
    let ghost idv = key_views(ids@);
    let n = ids.len();

    // First pass: check that every burn, taken in listed order, would be
    // authorized, without touching the state yet.
    let mut i: usize = 0;
    while i < n
        invariant
            0 <= i <= n,
            n == idv.len(),
            idv == key_views(ids@),
            *state == *old(state),
            pre == *old(state),
            pre.wf(),
            first_burn_err(pre, *env, idv, i as int) is None,
        decreases n - i,
    {
        let mut dup = false;
        let mut j: usize = 0;
        while j < i
            invariant
                0 <= j <= i < n,
                n == idv.len(),
                n == ids@.len(),
                idv == key_views(ids@),
                dup == exists|p: int| 0 <= p < j && idv[p] == idv[i as int],
            decreases i - j,
        {
            if str_eq(ids[j].as_str(), ids[i].as_str()) {
                dup = true;
                proof {
                    assert(idv[j as int] == idv[i as int]);
                }
            }
            j += 1;
        }
        proof {
            assert(dup == dup_before(idv, i as int));
        }
        if dup {
            let authorized = str_eq(env.contract.as_str(), env.message.sender.as_str())
                || is_live_operator(
                state,
                env.contract.as_str(),
                env.message.sender.as_str(),
                &env.block,
            );
            if !authorized {
                proof {
                    lemma_first_burn_stops(pre, *env, idv, i as int, idv.len() as int);
                }
                return Err(Error::Unauthorized);
            }
        } else {
            match state.tokens.get(ids[i].as_str()) {
                Some(t) => {
                    if !check_ownership(state, env, t) {
                        proof {
                            lemma_first_burn_stops(pre, *env, idv, i as int, idv.len() as int);
                        }
                        return Err(Error::Unauthorized);
                    }
                },
                None => {
                    proof {
                        lemma_first_burn_stops(pre, *env, idv, i as int, idv.len() as int);
                    }
                    return Err(Error::NotFound);
                },
            }
        }
        i += 1;
    }

    // The follow-up mint's own checks, still before any write.
    let count = match target {
        Rank::Base => state.base_count,
        Rank::Silver => state.silver_count,
        Rank::Gold => state.gold_count,
    };
    let cap = match target {
        Rank::Base => state.info.base_cap,
        Rank::Silver => state.info.silver_cap,
        Rank::Gold => state.info.gold_cap,
    };
    if (count as u128) >= cap || count == u64::MAX {
        return Err(Error::CapExceeded);
    }
    let fresh_id = crate::nft::make_token_id(state, target);
    if state.tokens.contains(fresh_id.as_str()) {
        return Err(Error::AlreadyExists);
    }

    // Every check has passed: burn each listed token to the sentinel.
    proof {
        lemma_first_burn_none(pre, *env, idv, idv.len() as int);
        assert forall|p: int| 0 <= p < idv.len() implies pre.tokens@.contains_key(
            #[trigger] idv[p],
        ) by {
            lemma_ids_present(pre, *env, idv, p);
        }
    }
    let mut b: usize = 0;
    while b < n
        invariant
            0 <= b <= n,
            n == idv.len(),
            idv == key_views(ids@),
            pre.wf(),
            state.wf(),
            forall|p: int| 0 <= p < idv.len() ==> pre.tokens@.contains_key(#[trigger] idv[p]),
            state.tokens@.dom() == pre.tokens@.dom(),
            state.info == pre.info,
            state.minter == pre.minter,
            state.base_count == pre.base_count,
            state.silver_count == pre.silver_count,
            state.gold_count == pre.gold_count,
            state.operators == pre.operators,
            forall|p: int|
                0 <= p < b ==> {
                    &&& state.tokens@[#[trigger] idv[p]].owner@ == env.contract@
                    &&& state.tokens@[idv[p]].approvals@.len() == 0
                    &&& state.tokens@[idv[p]].rank == pre.tokens@[idv[p]].rank
                },
            forall|k: Seq<char>|
                pre.tokens@.contains_key(k) && !idv.take(b as int).contains(k)
                    ==> #[trigger] state.tokens@[k] == pre.tokens@[k],
        decreases n - b,
    {
        let ghost mid = *state;
        transfer_token(state, ids[b].as_str(), env.contract.clone());
        proof {
            assert forall|k: Seq<char>|
                pre.tokens@.contains_key(k) && !idv.take(b + 1).contains(k)
                    implies #[trigger] state.tokens@[k] == pre.tokens@[k] by {
                assert(forall|p: int| 0 <= p < b + 1 ==> #[trigger] idv.take(b + 1)[p] == idv[p]);
                if k == idv[b as int] {
                    assert(idv.take(b + 1)[b as int] == k);
                    assert(idv.take(b + 1).contains(k));
                }
                assert(k != idv[b as int]);
                assert(!idv.take(b as int).contains(k)) by {
                    if idv.take(b as int).contains(k) {
                        let p = choose|p: int| 0 <= p < b && idv.take(b as int)[p] == k;
                        assert(idv.take(b + 1)[p] == k);
                    }
                }
                assert(mid.tokens@[k] == pre.tokens@[k]);
            }
            assert forall|p: int|
                0 <= p < b + 1 implies {
                    &&& state.tokens@[#[trigger] idv[p]].owner@ == env.contract@
                    &&& state.tokens@[idv[p]].approvals@.len() == 0
                    &&& state.tokens@[idv[p]].rank == pre.tokens@[idv[p]].rank
                } by {
                if p < b {
                    if idv[p] == idv[b as int] {
                        assert(mid.tokens@[idv[p]].rank == pre.tokens@[idv[p]].rank);
                    }
                } else {
                    if idv.take(b as int).contains(idv[b as int]) {
                        assert(mid.tokens@[idv[b as int]].rank == pre.tokens@[idv[b as int]].rank);
                    } else {
                        assert(mid.tokens@[idv[b as int]] == pre.tokens@[idv[b as int]]);
                    }
                }
            }
        }
        b += 1;
    }

    // Self-mint one token of the target rank to the caller.
    let ghost burned = *state;
    proof {
        assert(next_token_id(*state, target) == next_token_id(pre, target));
    }
    let _ = mint_token(state, env.message.sender.clone(), target);
    proof {
        let id = next_token_id(pre, target);
        assert(!pre.tokens@.contains_key(id));
        assert forall|p: int|
            0 <= p < idv.len() implies {
                &&& state.tokens@.contains_key(#[trigger] idv[p])
                &&& state.tokens@[idv[p]].owner@ == env.contract@
                &&& state.tokens@[idv[p]].approvals@.len() == 0
                &&& state.tokens@[idv[p]].rank == pre.tokens@[idv[p]].rank
            } by {
            assert(pre.tokens@.contains_key(idv[p]));
            assert(idv[p] != id);
            assert(burned.tokens@.contains_key(idv[p]));
            assert(state.tokens@[idv[p]] == burned.tokens@[idv[p]]);
            assert(burned.tokens@[idv[p]].owner@ == env.contract@);
            assert(burned.tokens@[idv[p]].rank == pre.tokens@[idv[p]].rank);
        }
        assert forall|k: Seq<char>|
            pre.tokens@.contains_key(k) && !idv.contains(k) && k != id
                implies #[trigger] state.tokens@[k] == pre.tokens@[k] by {
            assert(!idv.take(n as int).contains(k)) by {
                if idv.take(n as int).contains(k) {
                    let p = choose|p: int| 0 <= p < n && idv.take(n as int)[p] == k;
                    assert(idv[p] == k);
                    assert(idv.contains(k));
                }
            }
            assert(burned.tokens@[k] == pre.tokens@[k]);
            assert(burned.tokens@.contains_key(k));
            assert(state.tokens@[k] == burned.tokens@[k]);
        }
        assert(state.tokens@.dom() =~= pre.tokens@.dom().insert(id));
    }
    Ok(())
}

/// What `handle_base_to_silver` guarantees: the three listed base tokens
/// are burned to the sentinel and exactly one silver token is minted to
/// the caller, atomically.
pub open spec fn base_to_silver_post(
    pre: NftRegistry,
    post: NftRegistry,
    env: Env,
    b1: Seq<char>,
    b2: Seq<char>,
    b3: Seq<char>,
    r: Result<Response, Error>,
) -> bool {
    let ids = seq![b1, b2, b3];
    match r {
        Ok(resp) => {
            &&& craft_err(pre, env, ids, Rank::Silver) is None
            &&& crafted(pre, post, env, ids, Rank::Silver)
            &&& resp.messages@.len() == 0
            &&& log_view(resp.log@) == seq![
                ("action"@, "base_to_silver"@),
                ("sender"@, env.message.sender@),
                ("base_1"@, b1),
                ("base_2"@, b2),
                ("base_3"@, b3),
            ]
        },
        Err(e) => {
            &&& post == pre
            &&& craft_err(pre, env, ids, Rank::Silver) == Some(e)
        },
    }
}

/// Burns the three listed base tokens (the caller must be authorized for
/// every one) and mints one silver token to the caller.
pub fn handle_base_to_silver(
    state: &mut NftRegistry,
    env: &Env,
    base_1: String,
    base_2: String,
    base_3: String,
) -> (r: Result<Response, Error>)
    requires
        old(state).wf(),
    ensures
        final(state).wf(),
        base_to_silver_post(*old(state), *final(state), *env, base_1@, base_2@, base_3@, r),
{
    let mut ids: Vec<String> = Vec::new();
    ids.push(base_1.clone());
    ids.push(base_2.clone());
    ids.push(base_3.clone());
    proof {
        assert(key_views(ids@) =~= seq![base_1@, base_2@, base_3@]);
    }
    match craft(state, env, &ids, Rank::Silver) {
        Ok(_) => {},
        Err(e) => {
            return Err(e);
        },
    }
    let mut log: Vec<Attr> = Vec::new();
    log.push(attr_str("action", "base_to_silver"));
    log.push(attr("sender", env.message.sender.clone()));
    log.push(attr("base_1", base_1));
    log.push(attr("base_2", base_2));
    log.push(attr("base_3", base_3));
    let resp = Response { messages: Vec::new(), log };
    proof {
        assert(log_view(resp.log@) =~= seq![
            ("action"@, "base_to_silver"@),
            ("sender"@, env.message.sender@),
            ("base_1"@, resp.log@[2].value@),
            ("base_2"@, resp.log@[3].value@),
            ("base_3"@, resp.log@[4].value@),
        ]);
    }
    Ok(resp)
}

/// What `handle_silver_to_gold` guarantees: the five listed silver tokens
/// are burned to the sentinel and exactly one gold token is minted to the
/// caller, atomically.
pub open spec fn silver_to_gold_post(
    pre: NftRegistry,
    post: NftRegistry,
    env: Env,
    s1: Seq<char>,
    s2: Seq<char>,
    s3: Seq<char>,
    s4: Seq<char>,
    s5: Seq<char>,
    r: Result<Response, Error>,
) -> bool {
    let ids = seq![s1, s2, s3, s4, s5];
    match r {
        Ok(resp) => {
            &&& craft_err(pre, env, ids, Rank::Gold) is None
            &&& crafted(pre, post, env, ids, Rank::Gold)
            &&& resp.messages@.len() == 0
            &&& log_view(resp.log@) == seq![
                ("action"@, "silver_to_gold"@),
                ("sender"@, env.message.sender@),
                ("silver_1"@, s1),
                ("silver_2"@, s2),
                ("silver_3"@, s3),
                ("silver_4"@, s4),
                ("silver_5"@, s5),
            ]
        },
        Err(e) => {
            &&& post == pre
            &&& craft_err(pre, env, ids, Rank::Gold) == Some(e)
        },
    }
}

/// Burns the five listed silver tokens (the caller must be authorized for
/// every one) and mints one gold token to the caller.
pub fn handle_silver_to_gold(
    state: &mut NftRegistry,
    env: &Env,
    silver_1: String,
    silver_2: String,
    silver_3: String,
    silver_4: String,
    silver_5: String,
) -> (r: Result<Response, Error>)
    requires
        old(state).wf(),
    ensures
        final(state).wf(),
        silver_to_gold_post(
            *old(state),
            *final(state),
            *env,
            silver_1@,
            silver_2@,
            silver_3@,
            silver_4@,
            silver_5@,
            r,
        ),
{
    let mut ids: Vec<String> = Vec::new();
    ids.push(silver_1.clone());
    ids.push(silver_2.clone());
    ids.push(silver_3.clone());
    ids.push(silver_4.clone());
    ids.push(silver_5.clone());
    proof {
        assert(key_views(ids@) =~= seq![silver_1@, silver_2@, silver_3@, silver_4@, silver_5@]);
    }
    match craft(state, env, &ids, Rank::Gold) {
        Ok(_) => {},
        Err(e) => {
            return Err(e);
        },
    }
    let mut log: Vec<Attr> = Vec::new();
    log.push(attr_str("action", "silver_to_gold"));
    log.push(attr("sender", env.message.sender.clone()));
    log.push(attr("silver_1", silver_1));
    log.push(attr("silver_2", silver_2));
    log.push(attr("silver_3", silver_3));
    log.push(attr("silver_4", silver_4));
    log.push(attr("silver_5", silver_5));
    let resp = Response { messages: Vec::new(), log };
    proof {
        assert(log_view(resp.log@) =~= seq![
            ("action"@, "silver_to_gold"@),
            ("sender"@, env.message.sender@),
            ("silver_1"@, resp.log@[2].value@),
            ("silver_2"@, resp.log@[3].value@),
            ("silver_3"@, resp.log@[4].value@),
            ("silver_4"@, resp.log@[5].value@),
            ("silver_5"@, resp.log@[6].value@),
        ]);
    }
    Ok(resp)
}

} // verus!
