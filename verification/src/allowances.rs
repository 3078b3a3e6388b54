//! The allowance subsystem: a capped, optionally expiring spending right
//! per (owner, spender) pair, consumed by the `*_from` operations.
//!
//! An expired allowance is treated as absent when spending, though the
//! record may remain stored until explicitly cleared.

use vstd::prelude::*;
use vstd::string::StringExecFns;

use crate::decimal::{dec_digits, u128_to_string};
use crate::env::{Env, BlockInfo};
use crate::error::Error;
use crate::expiration::Expiration;
use crate::fungible::{add_balance, bal, balance_amount, credited, debited, lemma_balance_le_sum,
    sub_balance, FungibleLedger};
use crate::response::{attr, attr_str, calls_view, log_view, Attr, CallView, OutboundCall,
    Response};
use crate::strmap::StrMap;

verus! {

/// A delegated spending right: how much may still be spent and until when.
#[derive(Clone, Copy, PartialEq, Eq, Structural, Debug)]
pub struct AllowanceInfo {
    pub allowance: u128,
    pub expires: Expiration,
}

/// The allowance a ledger records for (owner, spender); zero and
/// never-expiring when none is recorded.
pub open spec fn allowance_of(
    allowances: Map<Seq<char>, StrMap<AllowanceInfo>>,
    owner: Seq<char>,
    spender: Seq<char>,
) -> AllowanceInfo {
    if allowances.contains_key(owner) && allowances[owner]@.contains_key(spender) {
        allowances[owner]@[spender]
    } else {
        AllowanceInfo { allowance: 0, expires: Expiration::Never }
    }
}

/// What may still be spent right now: the recorded amount, or zero once
/// the record has expired.
pub open spec fn live_allowance(
    allowances: Map<Seq<char>, StrMap<AllowanceInfo>>,
    owner: Seq<char>,
    spender: Seq<char>,
    block: BlockInfo,
) -> u128 {
    let a = allowance_of(allowances, owner, spender);
    if a.expires.spec_is_expired(block) {
        0
    } else {
        a.allowance
    }
}

/// The spenders an owner has allowance records for.
pub open spec fn spender_set(
    allowances: Map<Seq<char>, StrMap<AllowanceInfo>>,
    owner: Seq<char>,
) -> Set<Seq<char>> {
    if allowances.contains_key(owner) {
        allowances[owner]@.dom()
    } else {
        Set::<Seq<char>>::empty()
    }
}

/// Everything outside the allowance table is unchanged.
pub open spec fn only_allowances_changed(pre: FungibleLedger, post: FungibleLedger) -> bool {
    &&& post.info == pre.info
    &&& post.balances == pre.balances
}

/// Every (owner, spender) pair but the given one keeps its allowance, and
/// every other owner keeps its spender set.
pub open spec fn other_allowances_unchanged(
    pre: Map<Seq<char>, StrMap<AllowanceInfo>>,
    post: Map<Seq<char>, StrMap<AllowanceInfo>>,
    owner: Seq<char>,
    spender: Seq<char>,
) -> bool {
    &&& forall|o: Seq<char>, s: Seq<char>|
        !(o == owner && s == spender) ==> #[trigger] allowance_of(post, o, s) == allowance_of(
            pre,
            o,
            s,
        )
    &&& forall|o: Seq<char>|
        o != owner ==> #[trigger] spender_set(post, o) == spender_set(pre, o)
}

/// Reads the allowance record for (owner, spender).
pub fn read_allowance(state: &FungibleLedger, owner: &str, spender: &str) -> (a: AllowanceInfo)
    requires
        state.wf(),
    ensures
        a == allowance_of(state.allowances@, owner@, spender@),
{
    match state.allowances.get(owner) {
        Some(inner) => match inner.get(spender) {
            Some(v) => *v,
            None => AllowanceInfo { allowance: 0, expires: Expiration::Never },
        },
        None => AllowanceInfo { allowance: 0, expires: Expiration::Never },
    }
}

/// Writes the allowance record for (owner, spender).
fn set_allowance(state: &mut FungibleLedger, owner: String, spender: String, info: AllowanceInfo)
    requires
        old(state).wf(),
    ensures
        final(state).wf(),
        only_allowances_changed(*old(state), *final(state)),
        allowance_of(final(state).allowances@, owner@, spender@) == info,
        spender_set(final(state).allowances@, owner@) == spender_set(
            old(state).allowances@,
            owner@,
        ).insert(spender@),
        other_allowances_unchanged(
            old(state).allowances@,
            final(state).allowances@,
            owner@,
            spender@,
        ),
{
    let ghost pre = *state;
    let mut inner: StrMap<AllowanceInfo> = match state.allowances.take(owner.as_str()) {
        Some(m) => m,
        None => StrMap::new(),
    };
    proof {
        if pre.allowances@.contains_key(owner@) {
            assert(inner.wf());
        }
    }
    inner.insert(spender, info);
    state.allowances.insert(owner, inner);
    proof {
        assert(state.allowances@ =~= pre.allowances@.insert(owner@, inner));
        assert forall|o: Seq<char>|
            state.allowances@.contains_key(o) implies (#[trigger] state.allowances@[o]).wf() by {
            if o != owner@ {
                assert(pre.allowances@[o].wf());
            }
        }
        assert(spender_set(state.allowances@, owner@) =~= spender_set(
            pre.allowances@,
            owner@,
        ).insert(spender@));
    }
}

/// Deletes the allowance record for (owner, spender), if any.
fn remove_allowance(state: &mut FungibleLedger, owner: &str, spender: &str)
    requires
        old(state).wf(),
    ensures
        final(state).wf(),
        only_allowances_changed(*old(state), *final(state)),
        allowance_of(final(state).allowances@, owner@, spender@) == (AllowanceInfo {
            allowance: 0,
            expires: Expiration::Never,
        }),
        spender_set(final(state).allowances@, owner@) == spender_set(
            old(state).allowances@,
            owner@,
        ).remove(spender@),
        other_allowances_unchanged(
            old(state).allowances@,
            final(state).allowances@,
            owner@,
            spender@,
        ),
{
    let ghost pre = *state;
    match state.allowances.take(owner) {
        Some(mut inner) => {
            proof {
                assert(pre.allowances@[owner@].wf());
            }
            inner.remove(spender);
            state.allowances.insert(String::from_str(owner), inner);
            proof {
                assert(state.allowances@ =~= pre.allowances@.insert(owner@, inner));
                assert forall|o: Seq<char>|
                    state.allowances@.contains_key(o) implies (
                #[trigger] state.allowances@[o]).wf() by {
                    if o != owner@ {
                        assert(pre.allowances@[o].wf());
                    }
                }
                assert(spender_set(state.allowances@, owner@) =~= spender_set(
                    pre.allowances@,
                    owner@,
                ).remove(spender@));
            }
        },
        None => {
            proof {
                assert(spender_set(state.allowances@, owner@) =~= spender_set(
                    pre.allowances@,
                    owner@,
                ).remove(spender@));
            }
        },
    }
}

/// The allowance a fresh or expired record starts from.
pub open spec fn base_allowance(
    allowances: Map<Seq<char>, StrMap<AllowanceInfo>>,
    owner: Seq<char>,
    spender: Seq<char>,
    block: BlockInfo,
) -> AllowanceInfo {
    let a = allowance_of(allowances, owner, spender);
    if a.expires.spec_is_expired(block) {
        AllowanceInfo { allowance: 0, expires: Expiration::Never }
    } else {
        a
    }
}

/// What `handle_increase_allowance` guarantees: the spender's allowance
/// from the caller grows by `amount` on top of the live record (a fresh
/// one when the old record had expired), with the expiration replaced
/// when one is given.
pub open spec fn increase_allowance_post(
    pre: FungibleLedger,
    post: FungibleLedger,
    env: Env,
    spender: Seq<char>,
    amount: u128,
    expires: Option<Expiration>,
    r: Result<Response, Error>,
) -> bool {
    let owner = env.message.sender@;
    let base = base_allowance(pre.allowances@, owner, spender, env.block);
    match r {
        Ok(resp) => {
            &&& base.allowance + amount <= u128::MAX
            &&& only_allowances_changed(pre, post)
            &&& allowance_of(post.allowances@, owner, spender) == (AllowanceInfo {
                allowance: (base.allowance + amount) as u128,
                expires: match expires {
                    Some(e) => e,
                    None => base.expires,
                },
            })
            &&& spender_set(post.allowances@, owner) == spender_set(
                pre.allowances@,
                owner,
            ).insert(spender)
            &&& other_allowances_unchanged(pre.allowances@, post.allowances@, owner, spender)
            &&& resp.messages@.len() == 0
            &&& log_view(resp.log@) == seq![
                ("action"@, "increase_allowance"@),
                ("owner"@, owner),
                ("spender"@, spender),
                ("amount"@, dec_digits(amount as nat)),
            ]
        },
        Err(e) => {
            &&& post == pre
            &&& e == Error::CapExceeded
            &&& base.allowance + amount > u128::MAX
        },
    }
}

/// Grants `spender` an additional `amount` of the caller's tokens to
/// spend; an expired record is replaced rather than added to.
pub fn handle_increase_allowance(
    state: &mut FungibleLedger,
    env: &Env,
    spender: String,
    amount: u128,
    expires: Option<Expiration>,
) -> (r: Result<Response, Error>)
    requires
        old(state).wf(),
    ensures
        final(state).wf(),
        increase_allowance_post(*old(state), *final(state), *env, spender@, amount, expires, r),
{
    let cur = read_allowance(state, env.message.sender.as_str(), spender.as_str());
    let base = if cur.expires.is_expired(&env.block) {
        AllowanceInfo { allowance: 0, expires: Expiration::Never }
    } else {
        cur
    };
    if amount > u128::MAX - base.allowance {
        return Err(Error::CapExceeded);
    }
    let new_expires = match expires {
        Some(e) => e,
        None => base.expires,
    };
    set_allowance(
        state,
        env.message.sender.clone(),
        spender.clone(),
        AllowanceInfo { allowance: base.allowance + amount, expires: new_expires },
    );
    let mut log: Vec<Attr> = Vec::new();
    log.push(attr_str("action", "increase_allowance"));
    log.push(attr("owner", env.message.sender.clone()));
    log.push(attr("spender", spender));
    log.push(attr("amount", u128_to_string(amount)));
    let resp = Response { messages: Vec::new(), log };
    proof {
        assert(log_view(resp.log@) =~= seq![
            ("action"@, "increase_allowance"@),
            ("owner"@, env.message.sender@),
            ("spender"@, resp.log@[2].value@),
            ("amount"@, dec_digits(amount as nat)),
        ]);
    }
    Ok(resp)
}

/// What `handle_decrease_allowance` guarantees: the live allowance
/// shrinks by `amount`, with the record deleted outright once the result
/// would reach zero.
pub open spec fn decrease_allowance_post(
    pre: FungibleLedger,
    post: FungibleLedger,
    env: Env,
    spender: Seq<char>,
    amount: u128,
    expires: Option<Expiration>,
    r: Result<Response, Error>,
) -> bool {
    let owner = env.message.sender@;
    let base = base_allowance(pre.allowances@, owner, spender, env.block);
    match r {
        Ok(resp) => {
            &&& amount != 0
            &&& only_allowances_changed(pre, post)
            &&& (if base.allowance <= amount {
                allowance_of(post.allowances@, owner, spender) == (AllowanceInfo {
                    allowance: 0,
                    expires: Expiration::Never,
                }) && spender_set(post.allowances@, owner) == spender_set(
                    pre.allowances@,
                    owner,
                ).remove(spender)
            } else {
                allowance_of(post.allowances@, owner, spender) == (AllowanceInfo {
                    allowance: (base.allowance - amount) as u128,
                    expires: match expires {
                        Some(e) => e,
                        None => base.expires,
                    },
                }) && spender_set(post.allowances@, owner) == spender_set(
                    pre.allowances@,
                    owner,
                ).insert(spender)
            })
            &&& other_allowances_unchanged(pre.allowances@, post.allowances@, owner, spender)
            &&& resp.messages@.len() == 0
            &&& log_view(resp.log@) == seq![
                ("action"@, "decrease_allowance"@),
                ("owner"@, owner),
                ("spender"@, spender),
                ("amount"@, dec_digits(amount as nat)),
            ]
        },
        Err(e) => {
            &&& post == pre
            &&& e == Error::InvalidAmount
            &&& amount == 0
        },
    }
}

/// Lowers `spender`'s allowance from the caller by `amount`, deleting the
/// record when nothing would remain.
pub fn handle_decrease_allowance(
    state: &mut FungibleLedger,
    env: &Env,
    spender: String,
    amount: u128,
    expires: Option<Expiration>,
) -> (r: Result<Response, Error>)
    requires
        old(state).wf(),
    ensures
        final(state).wf(),
        decrease_allowance_post(*old(state), *final(state), *env, spender@, amount, expires, r),
{
    if amount == 0 {
        return Err(Error::InvalidAmount);
    }
    let cur = read_allowance(state, env.message.sender.as_str(), spender.as_str());
    let base = if cur.expires.is_expired(&env.block) {
        AllowanceInfo { allowance: 0, expires: Expiration::Never }
    } else {
        cur
    };
    if base.allowance <= amount {
        remove_allowance(state, env.message.sender.as_str(), spender.as_str());
    } else {
        let new_expires = match expires {
            Some(e) => e,
            None => base.expires,
        };
        set_allowance(
            state,
            env.message.sender.clone(),
            spender.clone(),
            AllowanceInfo { allowance: base.allowance - amount, expires: new_expires },
        );
    }
    let mut log: Vec<Attr> = Vec::new();
    log.push(attr_str("action", "decrease_allowance"));
    log.push(attr("owner", env.message.sender.clone()));
    log.push(attr("spender", spender));
    log.push(attr("amount", u128_to_string(amount)));
    let resp = Response { messages: Vec::new(), log };
    proof {
        assert(log_view(resp.log@) =~= seq![
            ("action"@, "decrease_allowance"@),
            ("owner"@, env.message.sender@),
            ("spender"@, resp.log@[2].value@),
            ("amount"@, dec_digits(amount as nat)),
        ]);
    }
    Ok(resp)
}

/// Whether a delegated spend of `amount` from `owner` by the caller is
/// possible in `pre`.
pub open spec fn spend_from_ok(
    pre: FungibleLedger,
    env: Env,
    owner: Seq<char>,
    amount: u128,
) -> bool {
    &&& amount != 0
    &&& live_allowance(pre.allowances@, owner, env.message.sender@, env.block) >= amount
    &&& bal(pre.balances@, owner) >= amount
}

/// How the allowance table looks after a successful delegated spend: the
/// allowance shrank by `amount`, and the record is gone once exhausted.
pub open spec fn allowance_spent(
    pre: FungibleLedger,
    post: FungibleLedger,
    owner: Seq<char>,
    spender: Seq<char>,
    amount: u128,
) -> bool {
    let a = allowance_of(pre.allowances@, owner, spender);
    &&& (if a.allowance == amount {
        allowance_of(post.allowances@, owner, spender) == (AllowanceInfo {
            allowance: 0,
            expires: Expiration::Never,
        }) && spender_set(post.allowances@, owner) == spender_set(
            pre.allowances@,
            owner,
        ).remove(spender)
    } else {
        allowance_of(post.allowances@, owner, spender) == (AllowanceInfo {
            allowance: (a.allowance - amount) as u128,
            expires: a.expires,
        }) && spender_set(post.allowances@, owner) == spender_set(
            pre.allowances@,
            owner,
        ).insert(spender)
    })
    &&& other_allowances_unchanged(pre.allowances@, post.allowances@, owner, spender)
}

/// The error a failed delegated spend returns, determined by the inputs.
pub open spec fn spend_from_err(
    pre: FungibleLedger,
    env: Env,
    owner: Seq<char>,
    amount: u128,
    e: Error,
) -> bool {
    &&& (e == Error::InvalidAmount <==> amount == 0)
    &&& (e == Error::Unauthorized <==> amount != 0 && live_allowance(
        pre.allowances@,
        owner,
        env.message.sender@,
        env.block,
    ) < amount)
    &&& (e == Error::Underflow <==> amount != 0 && live_allowance(
        pre.allowances@,
        owner,
        env.message.sender@,
        env.block,
    ) >= amount && bal(pre.balances@, owner) < amount)
    &&& (e == Error::InvalidAmount || e == Error::Unauthorized || e == Error::Underflow)
}

/// Checks and consumes the caller's allowance from `owner` and debits the
/// owner's balance; the shared first half of every `*_from` operation.
fn spend_allowance(state: &mut FungibleLedger, env: &Env, owner: &String, amount: u128) -> (r:
    Result<(), Error>)
    requires
        old(state).wf(),
    ensures
        final(state).tables_wf(),
        match r {
            Ok(_) => {
                &&& spend_from_ok(*old(state), *env, owner@, amount)
                &&& final(state).balances@ == debited(old(state).balances@, owner@, amount)
                &&& final(state).info == old(state).info
                &&& allowance_spent(
                    *old(state),
                    *final(state),
                    owner@,
                    env.message.sender@,
                    amount,
                )
                &&& sum_amounts_delta_spent(*old(state), *final(state), amount)
            },
            Err(e) => {
                &&& *final(state) == *old(state)
                &&& spend_from_err(*old(state), *env, owner@, amount, e)
            },
        },
{
    if amount == 0 {
        return Err(Error::InvalidAmount);
    }
    let cur = read_allowance(state, owner.as_str(), env.message.sender.as_str());
    let live = if cur.expires.is_expired(&env.block) {
        0
    } else {
        cur.allowance
    };
    if live < amount {
        return Err(Error::Unauthorized);
    }
    let owner_bal = balance_amount(&state.balances, owner.as_str());
    if owner_bal < amount {
        return Err(Error::Underflow);
    }
    if cur.allowance == amount {
        remove_allowance(state, owner.as_str(), env.message.sender.as_str());
    } else {
        set_allowance(
            state,
            owner.clone(),
            env.message.sender.clone(),
            AllowanceInfo { allowance: cur.allowance - amount, expires: cur.expires },
        );
    }
    sub_balance(&mut state.balances, owner.clone(), amount);
    Ok(())
}

/// The balance sum shrank by exactly the spent amount.
pub open spec fn sum_amounts_delta_spent(
    pre: FungibleLedger,
    post: FungibleLedger,
    amount: u128,
) -> bool {
    crate::fungible::sum_amounts(post.balances.entries@) == crate::fungible::sum_amounts(
        pre.balances.entries@,
    ) - amount
}

/// What `handle_transfer_from` guarantees: a transfer from `owner` to
/// `recipient`, paid for by the caller's allowance, which shrinks by the
/// same amount.
pub open spec fn transfer_from_post(
    pre: FungibleLedger,
    post: FungibleLedger,
    env: Env,
    owner: Seq<char>,
    recipient: Seq<char>,
    amount: u128,
    r: Result<Response, Error>,
) -> bool {
    let spender = env.message.sender@;
    match r {
        Ok(resp) => {
            &&& spend_from_ok(pre, env, owner, amount)
            &&& post.balances@ == credited(debited(pre.balances@, owner, amount), recipient, amount)
            &&& post.info == pre.info
            &&& allowance_spent(pre, post, owner, spender, amount)
            &&& resp.messages@.len() == 0
            &&& log_view(resp.log@) == seq![
                ("action"@, "transfer_from"@),
                ("from"@, owner),
                ("to"@, recipient),
                ("by"@, spender),
                ("amount"@, dec_digits(amount as nat)),
            ]
        },
        Err(e) => {
            &&& post == pre
            &&& spend_from_err(pre, env, owner, amount, e)
        },
    }
}

/// Moves `amount` from `owner` to `recipient` on the strength of the
/// caller's allowance; supply is unchanged.
pub fn handle_transfer_from(
    state: &mut FungibleLedger,
    env: &Env,
    owner: String,
    recipient: String,
    amount: u128,
) -> (r: Result<Response, Error>)
    requires
        old(state).wf(),
    ensures
        final(state).wf(),
        transfer_from_post(*old(state), *final(state), *env, owner@, recipient@, amount, r),
{
    match spend_allowance(state, env, &owner, amount) {
        Ok(_) => {},
        Err(e) => {
            return Err(e);
        },
    }
    proof {
        lemma_balance_le_sum(&state.balances, recipient@);
    }
    add_balance(&mut state.balances, recipient.clone(), amount);
    let mut log: Vec<Attr> = Vec::new();
    log.push(attr_str("action", "transfer_from"));
    log.push(attr("from", owner));
    log.push(attr("to", recipient));
    log.push(attr("by", env.message.sender.clone()));
    log.push(attr("amount", u128_to_string(amount)));
    let resp = Response { messages: Vec::new(), log };
    proof {
        assert(log_view(resp.log@) =~= seq![
            ("action"@, "transfer_from"@),
            ("from"@, resp.log@[1].value@),
            ("to"@, resp.log@[2].value@),
            ("by"@, env.message.sender@),
            ("amount"@, dec_digits(amount as nat)),
        ]);
    }
    Ok(resp)
}

/// What `handle_burn_from` guarantees: `owner`'s balance and the total
/// supply shrink together, paid for by the caller's allowance.
pub open spec fn burn_from_post(
    pre: FungibleLedger,
    post: FungibleLedger,
    env: Env,
    owner: Seq<char>,
    amount: u128,
    r: Result<Response, Error>,
) -> bool {
    let spender = env.message.sender@;
    match r {
        Ok(resp) => {
            &&& spend_from_ok(pre, env, owner, amount)
            &&& post.balances@ == debited(pre.balances@, owner, amount)
            &&& post.info.total_supply == pre.info.total_supply - amount
            &&& post.info.name == pre.info.name
            &&& post.info.symbol == pre.info.symbol
            &&& post.info.decimals == pre.info.decimals
            &&& post.info.mint == pre.info.mint
            &&& allowance_spent(pre, post, owner, spender, amount)
            &&& resp.messages@.len() == 0
            &&& log_view(resp.log@) == seq![
                ("action"@, "burn_from"@),
                ("from"@, owner),
                ("by"@, spender),
                ("amount"@, dec_digits(amount as nat)),
            ]
        },
        Err(e) => {
            &&& post == pre
            &&& spend_from_err(pre, env, owner, amount, e)
        },
    }
}

/// Destroys `amount` of `owner`'s tokens on the strength of the caller's
/// allowance; balance and supply shrink together.
pub fn handle_burn_from(
    state: &mut FungibleLedger,
    env: &Env,
    owner: String,
    amount: u128,
) -> (r: Result<Response, Error>)
    requires
        old(state).wf(),
    ensures
        final(state).wf(),
        burn_from_post(*old(state), *final(state), *env, owner@, amount, r),
{
    proof {
        lemma_balance_le_sum(&state.balances, owner@);
    }
    match spend_allowance(state, env, &owner, amount) {
        Ok(_) => {},
        Err(e) => {
            return Err(e);
        },
    }
    state.info.total_supply = state.info.total_supply - amount;
    let mut log: Vec<Attr> = Vec::new();
    log.push(attr_str("action", "burn_from"));
    log.push(attr("from", owner));
    log.push(attr("by", env.message.sender.clone()));
    log.push(attr("amount", u128_to_string(amount)));
    let resp = Response { messages: Vec::new(), log };
    proof {
        assert(log_view(resp.log@) =~= seq![
            ("action"@, "burn_from"@),
            ("from"@, resp.log@[1].value@),
            ("by"@, env.message.sender@),
            ("amount"@, dec_digits(amount as nat)),
        ]);
    }
    Ok(resp)
}

/// What `handle_send_from` guarantees: the transfer of
/// `handle_transfer_from` to a receiving contract, plus exactly one
/// outbound notification naming the caller as sender.
pub open spec fn send_from_post(
    pre: FungibleLedger,
    post: FungibleLedger,
    env: Env,
    owner: Seq<char>,
    contract: Seq<char>,
    amount: u128,
    msg: Option<Seq<u8>>,
    r: Result<Response, Error>,
) -> bool {
    let spender = env.message.sender@;
    match r {
        Ok(resp) => {
            &&& spend_from_ok(pre, env, owner, amount)
            &&& post.balances@ == credited(debited(pre.balances@, owner, amount), contract, amount)
            &&& post.info == pre.info
            &&& allowance_spent(pre, post, owner, spender, amount)
            &&& calls_view(resp.messages@) == seq![
                CallView::Notify { contract, sender: spender, amount, msg },
            ]
            &&& log_view(resp.log@) == seq![
                ("action"@, "send_from"@),
                ("from"@, owner),
                ("to"@, contract),
                ("by"@, spender),
                ("amount"@, dec_digits(amount as nat)),
            ]
        },
        Err(e) => {
            &&& post == pre
            &&& spend_from_err(pre, env, owner, amount, e)
        },
    }
}

/// Moves `amount` from `owner` to a receiving contract on the strength of
/// the caller's allowance and emits one notification naming the caller.
pub fn handle_send_from(
    state: &mut FungibleLedger,
    env: &Env,
    owner: String,
    contract: String,
    amount: u128,
    msg: Option<Vec<u8>>,
) -> (r: Result<Response, Error>)
    requires
        old(state).wf(),
    ensures
        final(state).wf(),
        send_from_post(
            *old(state),
            *final(state),
            *env,
            owner@,
            contract@,
            amount,
            match msg {
                Some(m) => Some(m@),
                None => None,
            },
            r,
        ),
{
    match spend_allowance(state, env, &owner, amount) {
        Ok(_) => {},
        Err(e) => {
            return Err(e);
        },
    }
    proof {
        lemma_balance_le_sum(&state.balances, contract@);
    }
    add_balance(&mut state.balances, contract.clone(), amount);
    let mut log: Vec<Attr> = Vec::new();
    log.push(attr_str("action", "send_from"));
    log.push(attr("from", owner));
    log.push(attr("to", contract.clone()));
    log.push(attr("by", env.message.sender.clone()));
    log.push(attr("amount", u128_to_string(amount)));
    let mut messages: Vec<OutboundCall> = Vec::new();
    messages.push(
        OutboundCall::Notify {
            contract,
            sender: env.message.sender.clone(),
            amount,
            msg,
        },
    );
    let resp = Response { messages, log };
    proof {
        assert(log_view(resp.log@) =~= seq![
            ("action"@, "send_from"@),
            ("from"@, resp.log@[1].value@),
            ("to"@, resp.log@[2].value@),
            ("by"@, env.message.sender@),
            ("amount"@, dec_digits(amount as nat)),
        ]);
        assert(calls_view(resp.messages@) =~= seq![resp.messages@[0]@]);
    }
    Ok(resp)
}

/// The allowance record for (owner, spender) as a query answer.
pub struct AllowanceResponse {
    pub allowance: u128,
    pub expires: Expiration,
}

/// Reads the stored allowance record for (owner, spender): zero and
/// never-expiring when absent. The record is reported as stored, even
/// when it has already expired.
pub fn query_allowance(state: &FungibleLedger, owner: &str, spender: &str) -> (r: AllowanceResponse)
    requires
        state.wf(),
    ensures
        r.allowance == allowance_of(state.allowances@, owner@, spender@).allowance,
        r.expires == allowance_of(state.allowances@, owner@, spender@).expires,
{
    let a = read_allowance(state, owner, spender);
    AllowanceResponse { allowance: a.allowance, expires: a.expires }
}

} // verus!
