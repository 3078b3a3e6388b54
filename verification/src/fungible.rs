//! The fungible-token ledger: balances, total supply, mint cap.
//!
//! The whole ledger state is one value, loaded and saved per call by the
//! host. Every mutating operation either returns a response and leaves the
//! ledger well-formed, or returns an error and leaves it untouched. The
//! central invariant is conservation of supply: the balances always sum
//! exactly to the recorded total supply, which never exceeds the mint cap
//! when one is configured.

use vstd::prelude::*;
use vstd::string::StringExecFns;

use crate::allowances::AllowanceInfo;
use crate::decimal::{dec_digits, u128_to_string};
use crate::env::{first_fund_of, fund_amount, Env};
use crate::error::Error;
use crate::lex::str_eq;
use crate::response::{attr, attr_str, calls_view, log_view, Attr, CallView, OutboundCall,
    Response};
use crate::strmap::{lemma_map_of_index, lemma_sorted_uniq, StrMap};

verus! {

/// One initial balance: an address and the amount credited to it.
pub struct InitialBalance {
    pub address: String,
    pub amount: u128,
}

/// The privileged minter and the optional hard cap on total supply.
pub struct MinterData {
    pub minter: String,
    pub cap: Option<u128>,
}

/// The token's metadata and running total supply.
pub struct TokenInfo {
    pub name: String,
    pub symbol: String,
    pub decimals: u8,
    pub total_supply: u128,
    pub mint: Option<MinterData>,
}

/// What a fungible ledger is created from.
pub struct InitMsg {
    pub name: String,
    pub symbol: String,
    pub decimals: u8,
    pub initial_balances: Vec<InitialBalance>,
    pub mint: Option<MinterData>,
}

/// The full state of the fungible ledger.
pub struct FungibleLedger {
    pub info: TokenInfo,
    pub balances: StrMap<u128>,
    pub allowances: StrMap<StrMap<AllowanceInfo>>,
}

/// The sum of all amounts in a balance table.
pub open spec fn sum_amounts(s: Seq<(String, u128)>) -> int
    decreases s.len(),
{
    if s.len() == 0 {
        0
    } else {
        sum_amounts(s.drop_last()) + s.last().1
    }
}

pub proof fn lemma_sum_nonneg(s: Seq<(String, u128)>)
    ensures
        sum_amounts(s) >= 0,
    decreases s.len(),
{
    if s.len() > 0 {
        lemma_sum_nonneg(s.drop_last());
    }
}

/// Each single amount is at most the sum of all of them.
pub proof fn lemma_sum_bound(s: Seq<(String, u128)>, i: int)
    requires
        0 <= i < s.len(),
    ensures
        s[i].1 <= sum_amounts(s),
    decreases s.len(),
{
    lemma_sum_nonneg(s.drop_last());
    if i < s.len() - 1 {
        lemma_sum_bound(s.drop_last(), i);
    }
}

pub proof fn lemma_sum_update(s: Seq<(String, u128)>, i: int, p: (String, u128))
    requires
        0 <= i < s.len(),
    ensures
        sum_amounts(s.update(i, p)) == sum_amounts(s) - s[i].1 + p.1,
    decreases s.len(),
{
    let t = s.update(i, p);
    if i == s.len() - 1 {
        assert(t.drop_last() =~= s.drop_last());
    } else {
        assert(t.drop_last() =~= s.drop_last().update(i, p));
        assert(t.last() == s.last());
        lemma_sum_update(s.drop_last(), i, p);
    }
}

pub proof fn lemma_sum_insert(s: Seq<(String, u128)>, i: int, p: (String, u128))
    requires
        0 <= i <= s.len(),
    ensures
        sum_amounts(s.insert(i, p)) == sum_amounts(s) + p.1,
    decreases s.len(),
{
    let t = s.insert(i, p);
    if i == s.len() {
        assert(t.drop_last() =~= s);
        assert(t.last() == p);
    } else {
        assert(t.drop_last() =~= s.drop_last().insert(i, p));
        assert(t.last() == s.last());
        lemma_sum_insert(s.drop_last(), i, p);
    }
}

/// The balance a map holds for an address; absent means zero.
pub open spec fn bal(m: Map<Seq<char>, u128>, a: Seq<char>) -> u128 {
    if m.contains_key(a) {
        m[a]
    } else {
        0
    }
}

/// The balance table after debiting an address.
pub open spec fn debited(m: Map<Seq<char>, u128>, a: Seq<char>, amount: u128) -> Map<
    Seq<char>,
    u128,
> {
    m.insert(a, (bal(m, a) - amount) as u128)
}

/// The balance table after crediting an address.
pub open spec fn credited(m: Map<Seq<char>, u128>, a: Seq<char>, amount: u128) -> Map<
    Seq<char>,
    u128,
> {
    m.insert(a, (bal(m, a) + amount) as u128)
}

impl FungibleLedger {
    /// The balance of an address, zero when it has none recorded.
    pub open spec fn balance_of(&self, a: Seq<char>) -> u128 {
        bal(self.balances@, a)
    }

    /// The configured mint cap, if any.
    pub open spec fn spec_cap(&self) -> Option<u128> {
        match self.info.mint {
            Some(m) => m.cap,
            None => None,
        }
    }

    /// The stored tables themselves are sorted maps.
    pub open spec fn tables_wf(&self) -> bool {
        &&& self.balances.wf()
        &&& self.allowances.wf()
        &&& forall|o: Seq<char>|
            self.allowances@.contains_key(o) ==> (#[trigger] self.allowances@[o]).wf()
    }

    /// Well-formed: the tables are sorted, the balances sum exactly to the
    /// total supply, and the supply respects the cap when one is set.
    pub open spec fn wf(&self) -> bool {
        &&& self.tables_wf()
        &&& sum_amounts(self.balances.entries@) == self.info.total_supply as int
        &&& match self.spec_cap() {
            Some(c) => self.info.total_supply <= c,
            None => true,
        }
    }
}

/// Reads the balance of `addr`.
pub fn balance_amount(balances: &StrMap<u128>, addr: &str) -> (r: u128)
    requires
        balances.wf(),
    ensures
        r == bal(balances@, addr@),
{
    match balances.get(addr) {
        Some(v) => *v,
        None => 0,
    }
}

/// Credits `amount` to `addr`, creating the entry at first credit.
pub fn add_balance(balances: &mut StrMap<u128>, addr: String, amount: u128)
    requires
        old(balances).wf(),
        bal(old(balances)@, addr@) + amount <= u128::MAX,
    ensures
        final(balances).wf(),
        final(balances)@ == credited(old(balances)@, addr@, amount),
        sum_amounts(final(balances).entries@) == sum_amounts(old(balances).entries@) + amount,
{
    let ghost s0 = balances.entries@;
    let ghost a = addr@;
    let cur = balance_amount(balances, addr.as_str());
    let ghost kv = (addr, (cur + amount) as u128);
    proof {
        lemma_sorted_uniq(s0);
    }
    balances.insert(addr, cur + amount);
    proof {
        if map_contains(s0, a) {
            let i = choose|i: int|
                0 <= i < s0.len() && s0[i].0@ == a && balances.entries@ == #[trigger] s0.update(
                    i,
                    kv,
                );
            lemma_map_of_index(s0, i);
            lemma_sum_update(s0, i, kv);
        } else {
            let i = choose|i: int|
                0 <= i <= s0.len() && balances.entries@ == #[trigger] s0.insert(i, kv);
            lemma_sum_insert(s0, i, kv);
        }
    }
}

/// Whether the entries hold the key; a shorthand for proofs.
pub open spec fn map_contains(s: Seq<(String, u128)>, a: Seq<char>) -> bool {
    crate::strmap::map_of(s).contains_key(a)
}

/// Debits `amount` from `addr`, which must cover it.
pub fn sub_balance(balances: &mut StrMap<u128>, addr: String, amount: u128)
    requires
        old(balances).wf(),
        amount >= 1,
        bal(old(balances)@, addr@) >= amount,
    ensures
        final(balances).wf(),
        final(balances)@ == debited(old(balances)@, addr@, amount),
        sum_amounts(final(balances).entries@) == sum_amounts(old(balances).entries@) - amount,
{
    let ghost s0 = balances.entries@;
    let ghost a = addr@;
    let cur = balance_amount(balances, addr.as_str());
    let ghost kv = (addr, (cur - amount) as u128);
    proof {
        lemma_sorted_uniq(s0);
    }
    balances.insert(addr, cur - amount);
    proof {
        let i = choose|i: int|
            0 <= i < s0.len() && s0[i].0@ == a && balances.entries@ == #[trigger] s0.update(i, kv);
        lemma_map_of_index(s0, i);
        lemma_sum_update(s0, i, kv);
    }
}

/// A recorded balance never exceeds the sum of all balances.
pub proof fn lemma_balance_le_sum(balances: &StrMap<u128>, a: Seq<char>)
    requires
        balances.wf(),
    ensures
        bal(balances@, a) <= sum_amounts(balances.entries@),
{
    lemma_sum_nonneg(balances.entries@);
    if balances@.contains_key(a) {
        lemma_sorted_uniq(balances.entries@);
        crate::strmap::lemma_map_of_contains(balances.entries@, a);
        let i = choose|i: int|
            0 <= i < balances.entries@.len() && (#[trigger] balances.entries@[i].0@) == a;
        lemma_map_of_index(balances.entries@, i);
        lemma_sum_bound(balances.entries@, i);
    }
}

/// What `handle_transfer` guarantees: on success the sender was debited
/// and the recipient credited with supply unchanged; on failure the exact
/// error is determined by the inputs and nothing changed.
pub open spec fn transfer_post(
    pre: FungibleLedger,
    post: FungibleLedger,
    env: Env,
    recipient: Seq<char>,
    amount: u128,
    r: Result<Response, Error>,
) -> bool {
    let sender = env.message.sender@;
    match r {
        Ok(resp) => {
            &&& amount != 0
            &&& pre.balance_of(sender) >= amount
            &&& post.balances@ == credited(debited(pre.balances@, sender, amount), recipient, amount)
            &&& post.info == pre.info
            &&& post.allowances == pre.allowances
            &&& resp.messages@.len() == 0
            &&& log_view(resp.log@) == seq![
                ("action"@, "transfer"@),
                ("from"@, sender),
                ("to"@, recipient),
                ("amount"@, dec_digits(amount as nat)),
            ]
        },
        Err(e) => {
            &&& post == pre
            &&& (e == Error::InvalidAmount <==> amount == 0)
            &&& (e == Error::Underflow <==> amount != 0 && pre.balance_of(sender) < amount)
            &&& (e == Error::InvalidAmount || e == Error::Underflow)
        },
    }
}

/// Moves `amount` from the caller to `recipient`; supply is unchanged.
pub fn handle_transfer(
    state: &mut FungibleLedger,
    env: &Env,
    recipient: String,
    amount: u128,
) -> (r: Result<Response, Error>)
    requires
        old(state).wf(),
    ensures
        final(state).wf(),
        transfer_post(*old(state), *final(state), *env, recipient@, amount, r),
{
    if amount == 0 {
        return Err(Error::InvalidAmount);
    }
    let sender_bal = balance_amount(&state.balances, env.message.sender.as_str());
    if sender_bal < amount {
        return Err(Error::Underflow);
    }
    proof {
        lemma_balance_le_sum(&state.balances, recipient@);
    }
    sub_balance(&mut state.balances, env.message.sender.clone(), amount);
    proof {
        lemma_balance_le_sum(&state.balances, recipient@);
    }
    add_balance(&mut state.balances, recipient.clone(), amount);
    let mut log: Vec<Attr> = Vec::new();
    log.push(attr_str("action", "transfer"));
    log.push(attr("from", env.message.sender.clone()));
    log.push(attr("to", recipient));
    log.push(attr("amount", u128_to_string(amount)));
    let resp = Response { messages: Vec::new(), log };
    proof {
        assert(log_view(resp.log@) =~= seq![
            ("action"@, "transfer"@),
            ("from"@, env.message.sender@),
            ("to"@, recipient@),
            ("amount"@, dec_digits(amount as nat)),
        ]);
    }
    Ok(resp)
}

/// What `handle_burn` guarantees: on success the caller's balance and the
/// total supply both shrink by `amount`; on failure nothing changed.
pub open spec fn burn_post(
    pre: FungibleLedger,
    post: FungibleLedger,
    env: Env,
    amount: u128,
    r: Result<Response, Error>,
) -> bool {
    let sender = env.message.sender@;
    match r {
        Ok(resp) => {
            &&& amount != 0
            &&& pre.balance_of(sender) >= amount
            &&& post.balances@ == debited(pre.balances@, sender, amount)
            &&& post.info.total_supply == pre.info.total_supply - amount
            &&& post.info.name == pre.info.name
            &&& post.info.symbol == pre.info.symbol
            &&& post.info.decimals == pre.info.decimals
            &&& post.info.mint == pre.info.mint
            &&& post.allowances == pre.allowances
            &&& resp.messages@.len() == 0
            &&& log_view(resp.log@) == seq![
                ("action"@, "burn"@),
                ("from"@, sender),
                ("amount"@, dec_digits(amount as nat)),
            ]
        },
        Err(e) => {
            &&& post == pre
            &&& (e == Error::InvalidAmount <==> amount == 0)
            &&& (e == Error::Underflow <==> amount != 0 && pre.balance_of(sender) < amount)
            &&& (e == Error::InvalidAmount || e == Error::Underflow)
        },
    }
}

/// Destroys `amount` of the caller's tokens; balance and supply shrink
/// together.
pub fn handle_burn(state: &mut FungibleLedger, env: &Env, amount: u128) -> (r: Result<
    Response,
    Error,
>)
    requires
        old(state).wf(),
    ensures
        final(state).wf(),
        burn_post(*old(state), *final(state), *env, amount, r),
{
    if amount == 0 {
        return Err(Error::InvalidAmount);
    }
    let sender_bal = balance_amount(&state.balances, env.message.sender.as_str());
    if sender_bal < amount {
        return Err(Error::Underflow);
    }
    proof {
        lemma_balance_le_sum(&state.balances, env.message.sender@);
    }
    sub_balance(&mut state.balances, env.message.sender.clone(), amount);
    state.info.total_supply = state.info.total_supply - amount;
    let mut log: Vec<Attr> = Vec::new();
    log.push(attr_str("action", "burn"));
    log.push(attr("from", env.message.sender.clone()));
    log.push(attr("amount", u128_to_string(amount)));
    let resp = Response { messages: Vec::new(), log };
    proof {
        assert(log_view(resp.log@) =~= seq![
            ("action"@, "burn"@),
            ("from"@, env.message.sender@),
            ("amount"@, dec_digits(amount as nat)),
        ]);
    }
    Ok(resp)
}

/// Whether the caller is the configured minter.
pub open spec fn is_minter(pre: FungibleLedger, sender: Seq<char>) -> bool {
    match pre.info.mint {
        Some(m) => m.minter@ == sender,
        None => false,
    }
}

/// Whether minting `amount` would overflow the amount type or exceed the
/// configured cap.
pub open spec fn mint_exceeds(pre: FungibleLedger, amount: u128) -> bool {
    pre.info.total_supply + amount > u128::MAX || (match pre.spec_cap() {
        Some(c) => pre.info.total_supply + amount > c,
        None => false,
    })
}

/// What `handle_mint` guarantees: only the minter can mint, the cap is
/// never exceeded, and supply and recipient balance grow together.
pub open spec fn mint_post(
    pre: FungibleLedger,
    post: FungibleLedger,
    env: Env,
    recipient: Seq<char>,
    amount: u128,
    r: Result<Response, Error>,
) -> bool {
    let sender = env.message.sender@;
    match r {
        Ok(resp) => {
            &&& amount != 0
            &&& is_minter(pre, sender)
            &&& !mint_exceeds(pre, amount)
            &&& post.balances@ == credited(pre.balances@, recipient, amount)
            &&& post.info.total_supply == pre.info.total_supply + amount
            &&& post.info.name == pre.info.name
            &&& post.info.symbol == pre.info.symbol
            &&& post.info.decimals == pre.info.decimals
            &&& post.info.mint == pre.info.mint
            &&& post.allowances == pre.allowances
            &&& resp.messages@.len() == 0
            &&& log_view(resp.log@) == seq![
                ("action"@, "mint"@),
                ("to"@, recipient),
                ("amount"@, dec_digits(amount as nat)),
            ]
        },
        Err(e) => {
            &&& post == pre
            &&& (e == Error::InvalidAmount <==> amount == 0)
            &&& (e == Error::Unauthorized <==> amount != 0 && !is_minter(pre, sender))
            &&& (e == Error::CapExceeded <==> amount != 0 && is_minter(pre, sender)
                && mint_exceeds(pre, amount))
            &&& (e == Error::InvalidAmount || e == Error::Unauthorized || e == Error::CapExceeded)
        },
    }
}

/// Creates `amount` new tokens for `recipient`; only the configured
/// minter may call, and the cap is enforced.
pub fn handle_mint(
    state: &mut FungibleLedger,
    env: &Env,
    recipient: String,
    amount: u128,
) -> (r: Result<Response, Error>)
    requires
        old(state).wf(),
    ensures
        final(state).wf(),
        mint_post(*old(state), *final(state), *env, recipient@, amount, r),
{
    if amount == 0 {
        return Err(Error::InvalidAmount);
    }
    let authorized = match &state.info.mint {
        Some(m) => str_eq(m.minter.as_str(), env.message.sender.as_str()),
        None => false,
    };
    if !authorized {
        return Err(Error::Unauthorized);
    }
    if amount > u128::MAX - state.info.total_supply {
        return Err(Error::CapExceeded);
    }
    let new_supply = state.info.total_supply + amount;
    let over_cap = match &state.info.mint {
        Some(m) => match m.cap {
            Some(c) => new_supply > c,
            None => false,
        },
        None => false,
    };
    if over_cap {
        return Err(Error::CapExceeded);
    }
    proof {
        lemma_balance_le_sum(&state.balances, recipient@);
    }
    state.info.total_supply = new_supply;
    add_balance(&mut state.balances, recipient.clone(), amount);
    let mut log: Vec<Attr> = Vec::new();
    log.push(attr_str("action", "mint"));
    log.push(attr("to", recipient));
    log.push(attr("amount", u128_to_string(amount)));
    let resp = Response { messages: Vec::new(), log };
    proof {
        assert(log_view(resp.log@) =~= seq![
            ("action"@, "mint"@),
            ("to"@, recipient@),
            ("amount"@, dec_digits(amount as nat)),
        ]);
    }
    Ok(resp)
}

/// What `handle_send` guarantees: the same balance move as a transfer,
/// plus exactly one outbound notification to the receiving contract.
pub open spec fn send_post(
    pre: FungibleLedger,
    post: FungibleLedger,
    env: Env,
    contract: Seq<char>,
    amount: u128,
    msg: Option<Seq<u8>>,
    r: Result<Response, Error>,
) -> bool {
    let sender = env.message.sender@;
    let deposit = first_fund_of(env.message.sent_funds@, "uusd"@);
    match r {
        Ok(resp) => {
            &&& amount != 0
            &&& pre.balance_of(sender) >= amount
            &&& post.balances@ == credited(debited(pre.balances@, sender, amount), contract, amount)
            &&& post.info == pre.info
            &&& post.allowances == pre.allowances
            &&& calls_view(resp.messages@) == seq![
                CallView::Notify { contract, sender, amount, msg },
            ]
            &&& log_view(resp.log@) == seq![
                ("action"@, "send"@),
                ("from"@, sender),
                ("to"@, contract),
                ("amount"@, dec_digits(amount as nat)),
                ("deposit_amount"@, dec_digits(deposit as nat)),
            ]
        },
        Err(e) => {
            &&& post == pre
            &&& (e == Error::InvalidAmount <==> amount == 0)
            &&& (e == Error::Underflow <==> amount != 0 && pre.balance_of(sender) < amount)
            &&& (e == Error::InvalidAmount || e == Error::Underflow)
        },
    }
}

/// Moves `amount` to a receiving contract and emits one notification
/// carrying the sender, the amount and the opaque payload; any attached
/// stablecoin funds are observed for the log only.
pub fn handle_send(
    state: &mut FungibleLedger,
    env: &Env,
    contract: String,
    amount: u128,
    msg: Option<Vec<u8>>,
) -> (r: Result<Response, Error>)
    requires
        old(state).wf(),
    ensures
        final(state).wf(),
        send_post(
            *old(state),
            *final(state),
            *env,
            contract@,
            amount,
            match msg {
                Some(m) => Some(m@),
                None => None,
            },
            r,
        ),
{
    if amount == 0 {
        return Err(Error::InvalidAmount);
    }
    let sender_bal = balance_amount(&state.balances, env.message.sender.as_str());
    if sender_bal < amount {
        return Err(Error::Underflow);
    }
    proof {
        lemma_balance_le_sum(&state.balances, contract@);
    }
    sub_balance(&mut state.balances, env.message.sender.clone(), amount);
    proof {
        lemma_balance_le_sum(&state.balances, contract@);
    }
    add_balance(&mut state.balances, contract.clone(), amount);
    let deposit_amount = fund_amount(&env.message.sent_funds, "uusd");
    let mut log: Vec<Attr> = Vec::new();
    log.push(attr_str("action", "send"));
    log.push(attr("from", env.message.sender.clone()));
    log.push(attr("to", contract.clone()));
    log.push(attr("amount", u128_to_string(amount)));
    log.push(attr("deposit_amount", u128_to_string(deposit_amount)));
    let mut messages: Vec<OutboundCall> = Vec::new();
    messages.push(
        OutboundCall::Notify {
            contract,
            sender: env.message.sender.clone(),
            amount,
            msg,
        },
    );
    let resp = Response { messages, log };
    proof {
        assert(log_view(resp.log@) =~= seq![
            ("action"@, "send"@),
            ("from"@, env.message.sender@),
            ("to"@, resp.messages@[0]->Notify_contract@),
            ("amount"@, dec_digits(amount as nat)),
            ("deposit_amount"@, dec_digits(first_fund_of(env.message.sent_funds@, "uusd"@) as nat)),
        ]);
        assert(calls_view(resp.messages@) =~= seq![resp.messages@[0]@]);
    }
    Ok(resp)
}

/// The mathematical total of a list of initial balances.
pub open spec fn amounts_total(coins: Seq<InitialBalance>) -> int
    decreases coins.len(),
{
    if coins.len() == 0 {
        0
    } else {
        amounts_total(coins.drop_last()) + coins.last().amount
    }
}

pub proof fn lemma_amounts_total_nonneg(coins: Seq<InitialBalance>)
    ensures
        amounts_total(coins) >= 0,
    decreases coins.len(),
{
    if coins.len() > 0 {
        lemma_amounts_total_nonneg(coins.drop_last());
    }
}

pub proof fn lemma_amounts_total_split(coins: Seq<InitialBalance>, k: int)
    requires
        0 <= k <= coins.len(),
    ensures
        amounts_total(coins) == amounts_total(coins.take(k)) + amounts_total(coins.skip(k)),
    decreases coins.len(),
{
    if k == coins.len() {
        assert(coins.take(k) =~= coins);
        assert(coins.skip(k).len() == 0);
    } else {
        let dl = coins.drop_last();
        assert(coins.take(k) =~= dl.take(k));
        assert(coins.skip(k).drop_last() =~= dl.skip(k));
        assert(coins.skip(k).last() == coins.last());
        lemma_amounts_total_split(dl, k);
    }
}

/// The balance table after crediting every listed account in order.
pub open spec fn credited_all(m: Map<Seq<char>, u128>, coins: Seq<InitialBalance>) -> Map<
    Seq<char>,
    u128,
>
    decreases coins.len(),
{
    if coins.len() == 0 {
        m
    } else {
        credited(credited_all(m, coins.drop_last()), coins.last().address@, coins.last().amount)
    }
}

/// Credits every listed account into a fresh balance table and returns
/// the total credited; fails closed when the total does not fit the
/// amount type.
pub fn create_accounts(balances: &mut StrMap<u128>, accounts: &Vec<InitialBalance>) -> (r: Result<
    u128,
    Error,
>)
    requires
        old(balances).wf(),
        old(balances).entries@.len() == 0,
    ensures
        final(balances).wf(),
        match r {
            Ok(total) => {
                &&& amounts_total(accounts@) <= u128::MAX
                &&& total == amounts_total(accounts@)
                &&& final(balances)@ == credited_all(old(balances)@, accounts@)
                &&& sum_amounts(final(balances).entries@) == total as int
            },
            Err(e) => e == Error::CapExceeded && amounts_total(accounts@) > u128::MAX,
        },
{
    let ghost m0 = balances@;
    let n = accounts.len();
    let mut total: u128 = 0;
    let mut i: usize = 0;
    proof {
        assert(accounts@.take(0).len() == 0);
    }
    while i < n
        invariant
            0 <= i <= n,
            n == accounts@.len(),
            balances.wf(),
            m0 == old(balances)@,
            total as int == amounts_total(accounts@.take(i as int)),
            balances@ == credited_all(m0, accounts@.take(i as int)),
            sum_amounts(balances.entries@) == total as int,
        decreases n - i,
    {
        let ghost prefix = accounts@.take(i as int);
        proof {
            assert(accounts@.take(i + 1).drop_last() =~= prefix);
            assert(accounts@.take(i + 1).last() == accounts@[i as int]);
        }
        let amount = accounts[i].amount;
        if amount > u128::MAX - total {
            proof {
                lemma_amounts_total_split(accounts@, i + 1);
                lemma_amounts_total_nonneg(accounts@.skip(i + 1));
            }
            return Err(Error::CapExceeded);
        }
        proof {
            lemma_balance_le_sum(balances, accounts@[i as int].address@);
        }
        add_balance(balances, accounts[i].address.clone(), amount);
        total = total + amount;
        i += 1;
    }
    proof {
        assert(accounts@.take(n as int) =~= accounts@);
    }
    Ok(total)
}

/// Creates the fungible ledger: credits the initial balances, checks the
/// cap against the initial supply, and records the metadata.
pub fn init(msg: InitMsg) -> (r: Result<FungibleLedger, Error>)
    ensures
        match r {
            Ok(state) => {
                &&& state.wf()
                &&& state.info.name == msg.name
                &&& state.info.symbol == msg.symbol
                &&& state.info.decimals == msg.decimals
                &&& state.info.mint == msg.mint
                &&& state.info.total_supply == amounts_total(msg.initial_balances@)
                &&& state.balances@ == credited_all(
                    Map::<Seq<char>, u128>::empty(),
                    msg.initial_balances@,
                )
                &&& state.allowances@ == Map::<Seq<char>, StrMap<AllowanceInfo>>::empty()
            },
            Err(e) => {
                &&& e == Error::CapExceeded
                &&& (amounts_total(msg.initial_balances@) > u128::MAX || (match msg.mint {
                    Some(m) => match m.cap {
                        Some(c) => amounts_total(msg.initial_balances@) > c,
                        None => false,
                    },
                    None => false,
                }))
            },
        },
{
    let mut balances = StrMap::<u128>::new();
    let total = match create_accounts(&mut balances, &msg.initial_balances) {
        Ok(t) => t,
        Err(e) => {
            return Err(e);
        },
    };
    let over_cap = match &msg.mint {
        Some(m) => match m.cap {
            Some(c) => total > c,
            None => false,
        },
        None => false,
    };
    if over_cap {
        return Err(Error::CapExceeded);
    }
    Ok(
        FungibleLedger {
            info: TokenInfo {
                name: msg.name,
                symbol: msg.symbol,
                decimals: msg.decimals,
                total_supply: total,
                mint: msg.mint,
            },
            balances,
            allowances: StrMap::new(),
        },
    )
}

/// The balance of one address.
pub struct BalanceResponse {
    pub balance: u128,
}

/// The token's metadata and current supply.
pub struct TokenInfoResponse {
    pub name: String,
    pub symbol: String,
    pub decimals: u8,
    pub total_supply: u128,
}

/// The configured minter and cap.
pub struct MinterResponse {
    pub minter: String,
    pub cap: Option<u128>,
}

/// Reads the balance of `address`; absent addresses hold zero.
pub fn query_balance(state: &FungibleLedger, address: &str) -> (r: BalanceResponse)
    requires
        state.wf(),
    ensures
        r.balance == state.balance_of(address@),
{
    BalanceResponse { balance: balance_amount(&state.balances, address) }
}

/// Reads the token metadata and total supply.
pub fn query_token_info(state: &FungibleLedger) -> (r: TokenInfoResponse)
    ensures
        r.name == state.info.name,
        r.symbol == state.info.symbol,
        r.decimals == state.info.decimals,
        r.total_supply == state.info.total_supply,
{
    TokenInfoResponse {
        name: state.info.name.clone(),
        symbol: state.info.symbol.clone(),
        decimals: state.info.decimals,
        total_supply: state.info.total_supply,
    }
}

/// Reads the minter configuration, if any.
pub fn query_minter(state: &FungibleLedger) -> (r: Option<MinterResponse>)
    ensures
        match state.info.mint {
            Some(m) => r matches Some(resp) && resp.minter == m.minter && resp.cap == m.cap,
            None => r is None,
        },
{
    match &state.info.mint {
        Some(m) => Some(MinterResponse { minter: m.minter.clone(), cap: m.cap }),
        None => None,
    }
}

/// What `handle_deposit` guarantees: one deposit order to the treasury
/// contract, logging any attached stablecoin funds; no ledger change.
pub open spec fn deposit_post(env: Env, contract: Seq<char>, r: Result<Response, Error>) -> bool {
    let deposit = first_fund_of(env.message.sent_funds@, "uusd"@);
    match r {
        Ok(resp) => {
            &&& calls_view(resp.messages@) == seq![CallView::DepositStable { contract }]
            &&& log_view(resp.log@) == seq![
                ("action"@, "deposit"@),
                ("from"@, env.message.sender@),
                ("to"@, contract),
                ("deposit_amount"@, dec_digits(deposit as nat)),
            ]
        },
        Err(_) => false,
    }
}

/// Emits one stablecoin-deposit order to the named treasury contract; the
/// ledger itself is untouched.
pub fn handle_deposit(env: &Env, contract: String) -> (r: Result<Response, Error>)
    ensures
        deposit_post(*env, contract@, r),
{
    let deposit_amount = fund_amount(&env.message.sent_funds, "uusd");
    let mut log: Vec<Attr> = Vec::new();
    log.push(attr_str("action", "deposit"));
    log.push(attr("from", env.message.sender.clone()));
    log.push(attr("to", contract.clone()));
    log.push(attr("deposit_amount", u128_to_string(deposit_amount)));
    let mut messages: Vec<OutboundCall> = Vec::new();
    messages.push(crate::deposit::DepositStableMsg {}.into_cosmos_msg(contract));
    let resp = Response { messages, log };
    proof {
        assert(log_view(resp.log@) =~= seq![
            ("action"@, "deposit"@),
            ("from"@, env.message.sender@),
            ("to"@, resp.log@[2].value@),
            ("deposit_amount"@, dec_digits(first_fund_of(env.message.sent_funds@, "uusd"@) as nat)),
        ]);
        assert(calls_view(resp.messages@) =~= seq![resp.messages@[0]@]);
    }
    Ok(resp)
}

/// What `handle_increment` guarantees: one increment order to the counter
/// contract, logging any attached stablecoin funds; no ledger change.
pub open spec fn increment_post(env: Env, contract: Seq<char>, r: Result<Response, Error>) -> bool {
    let deposit = first_fund_of(env.message.sent_funds@, "uusd"@);
    match r {
        Ok(resp) => {
            &&& calls_view(resp.messages@) == seq![CallView::Increment { contract }]
            &&& log_view(resp.log@) == seq![
                ("action"@, "increment"@),
                ("from"@, env.message.sender@),
                ("to"@, contract),
                ("deposit_amount"@, dec_digits(deposit as nat)),
            ]
        },
        Err(_) => false,
    }
}

/// Emits one increment order to the named counter contract; the ledger
/// itself is untouched.
pub fn handle_increment(env: &Env, contract: String) -> (r: Result<Response, Error>)
    ensures
        increment_post(*env, contract@, r),
{
    let deposit_amount = fund_amount(&env.message.sent_funds, "uusd");
    let mut log: Vec<Attr> = Vec::new();
    log.push(attr_str("action", "increment"));
    log.push(attr("from", env.message.sender.clone()));
    log.push(attr("to", contract.clone()));
    log.push(attr("deposit_amount", u128_to_string(deposit_amount)));
    let mut messages: Vec<OutboundCall> = Vec::new();
    messages.push(crate::increment::IncrementMsg {}.into_cosmos_msg(contract));
    let resp = Response { messages, log };
    proof {
        assert(log_view(resp.log@) =~= seq![
            ("action"@, "increment"@),
            ("from"@, env.message.sender@),
            ("to"@, resp.log@[2].value@),
            ("deposit_amount"@, dec_digits(first_fund_of(env.message.sent_funds@, "uusd"@) as nat)),
        ]);
        assert(calls_view(resp.messages@) =~= seq![resp.messages@[0]@]);
    }
    Ok(resp)
}

/// Every command the fungible ledger accepts.
pub enum HandleMsg {
    Transfer { recipient: String, amount: u128 },
    Burn { amount: u128 },
    Send { contract: String, amount: u128, msg: Option<Vec<u8>> },
    Increment { contract: String },
    DepositStable { contract: String },
    Mint { recipient: String, amount: u128 },
    IncreaseAllowance { spender: String, amount: u128, expires: Option<crate::expiration::Expiration> },
    DecreaseAllowance { spender: String, amount: u128, expires: Option<crate::expiration::Expiration> },
    TransferFrom { owner: String, recipient: String, amount: u128 },
    BurnFrom { owner: String, amount: u128 },
    SendFrom { owner: String, contract: String, amount: u128, msg: Option<Vec<u8>> },
}

/// The view of an optional opaque payload.
pub open spec fn msg_view(msg: Option<Vec<u8>>) -> Option<Seq<u8>> {
    match msg {
        Some(m) => Some(m@),
        None => None,
    }
}

/// Routes one command to the operation that handles it; the single entry
/// point for mutating calls on the fungible ledger.
pub fn handle(state: &mut FungibleLedger, env: &Env, msg: HandleMsg) -> (r: Result<
    Response,
    Error,
>)
    requires
        old(state).wf(),
    ensures
        final(state).wf(),
        match msg {
            HandleMsg::Transfer { recipient, amount } => transfer_post(
                *old(state),
                *final(state),
                *env,
                recipient@,
                amount,
                r,
            ),
            HandleMsg::Burn { amount } => burn_post(*old(state), *final(state), *env, amount, r),
            HandleMsg::Send { contract, amount, msg } => send_post(
                *old(state),
                *final(state),
                *env,
                contract@,
                amount,
                msg_view(msg),
                r,
            ),
            HandleMsg::Increment { contract } => increment_post(*env, contract@, r)
                && *final(state) == *old(state),
            HandleMsg::DepositStable { contract } => deposit_post(*env, contract@, r)
                && *final(state) == *old(state),
            HandleMsg::Mint { recipient, amount } => mint_post(
                *old(state),
                *final(state),
                *env,
                recipient@,
                amount,
                r,
            ),
            HandleMsg::IncreaseAllowance { spender, amount, expires } =>
                crate::allowances::increase_allowance_post(
                *old(state),
                *final(state),
                *env,
                spender@,
                amount,
                expires,
                r,
            ),
            HandleMsg::DecreaseAllowance { spender, amount, expires } =>
                crate::allowances::decrease_allowance_post(
                *old(state),
                *final(state),
                *env,
                spender@,
                amount,
                expires,
                r,
            ),
            HandleMsg::TransferFrom { owner, recipient, amount } =>
                crate::allowances::transfer_from_post(
                *old(state),
                *final(state),
                *env,
                owner@,
                recipient@,
                amount,
                r,
            ),
            HandleMsg::BurnFrom { owner, amount } => crate::allowances::burn_from_post(
                *old(state),
                *final(state),
                *env,
                owner@,
                amount,
                r,
            ),
            HandleMsg::SendFrom { owner, contract, amount, msg } =>
                crate::allowances::send_from_post(
                *old(state),
                *final(state),
                *env,
                owner@,
                contract@,
                amount,
                msg_view(msg),
                r,
            ),
        },
{
    match msg {
        HandleMsg::Transfer { recipient, amount } => handle_transfer(state, env, recipient, amount),
        HandleMsg::Burn { amount } => handle_burn(state, env, amount),
        HandleMsg::Send { contract, amount, msg } => handle_send(state, env, contract, amount, msg),
        HandleMsg::Increment { contract } => handle_increment(env, contract),
        HandleMsg::DepositStable { contract } => handle_deposit(env, contract),
        HandleMsg::Mint { recipient, amount } => handle_mint(state, env, recipient, amount),
        HandleMsg::IncreaseAllowance { spender, amount, expires } =>
            crate::allowances::handle_increase_allowance(state, env, spender, amount, expires),
        HandleMsg::DecreaseAllowance { spender, amount, expires } =>
            crate::allowances::handle_decrease_allowance(state, env, spender, amount, expires),
        HandleMsg::TransferFrom { owner, recipient, amount } =>
            crate::allowances::handle_transfer_from(state, env, owner, recipient, amount),
        HandleMsg::BurnFrom { owner, amount } => crate::allowances::handle_burn_from(
            state,
            env,
            owner,
            amount,
        ),
        HandleMsg::SendFrom { owner, contract, amount, msg } =>
            crate::allowances::handle_send_from(state, env, owner, contract, amount, msg),
    }
}

/// Every read-only question the fungible ledger answers.
pub enum QueryMsg {
    Balance { address: String },
    TokenInfo {},
    Minter {},
    Allowance { owner: String, spender: String },
    AllAllowances { owner: String, start_after: Option<String>, limit: Option<u32> },
    AllAccounts { start_after: Option<String>, limit: Option<u32> },
}

/// The typed answer to a query; the host serializes it.
pub enum QueryAnswer {
    Balance(BalanceResponse),
    TokenInfo(TokenInfoResponse),
    Minter(Option<MinterResponse>),
    Allowance(crate::allowances::AllowanceResponse),
    AllAllowances(crate::enumerable::AllAllowancesResponse),
    AllAccounts(crate::enumerable::AllAccountsResponse),
}

/// Routes one query to the reader that answers it; queries never write.
pub fn query(state: &FungibleLedger, msg: QueryMsg) -> (r: QueryAnswer)
    requires
        state.wf(),
    ensures
        match msg {
            QueryMsg::Balance { address } => r matches QueryAnswer::Balance(b) && b.balance
                == state.balance_of(address@),
            QueryMsg::TokenInfo {} => r matches QueryAnswer::TokenInfo(t) && t.name
                == state.info.name && t.symbol == state.info.symbol && t.decimals
                == state.info.decimals && t.total_supply == state.info.total_supply,
            QueryMsg::Minter {} => r matches QueryAnswer::Minter(m) && (match state.info.mint {
                Some(md) => m matches Some(resp) && resp.minter == md.minter && resp.cap == md.cap,
                None => m is None,
            }),
            QueryMsg::Allowance { owner, spender } => r matches QueryAnswer::Allowance(a) && {
                let stored = crate::allowances::allowance_of(state.allowances@, owner@, spender@);
                a.allowance == stored.allowance && a.expires == stored.expires
            },
            QueryMsg::AllAllowances { owner, start_after, limit } => r matches
                QueryAnswer::AllAllowances(a) && crate::enumerable::allowance_items_view(
                a.allowances@,
            ) == crate::strmap::pairs_page(
                crate::enumerable::owner_allowance_pairs(*state, owner@),
                crate::enumerable::start_view(start_after),
                crate::enumerable::spec_effective_limit(limit),
            ),
            QueryMsg::AllAccounts { start_after, limit } => r matches QueryAnswer::AllAccounts(a)
                && crate::strmap::key_views(a.accounts@) == crate::strmap::keys_page(
                state.balances.spec_keys(),
                crate::enumerable::start_view(start_after),
                crate::enumerable::spec_effective_limit(limit),
            ),
        },
{
    match msg {
        QueryMsg::Balance { address } => QueryAnswer::Balance(
            query_balance(state, address.as_str()),
        ),
        QueryMsg::TokenInfo {} => QueryAnswer::TokenInfo(query_token_info(state)),
        QueryMsg::Minter {} => QueryAnswer::Minter(query_minter(state)),
        QueryMsg::Allowance { owner, spender } => QueryAnswer::Allowance(
            crate::allowances::query_allowance(state, owner.as_str(), spender.as_str()),
        ),
        QueryMsg::AllAllowances { owner, start_after, limit } => QueryAnswer::AllAllowances(
            crate::enumerable::query_all_allowances(state, owner.as_str(), start_after, limit),
        ),
        QueryMsg::AllAccounts { start_after, limit } => QueryAnswer::AllAccounts(
            crate::enumerable::query_all_accounts(state, start_after, limit),
        ),
    }
}

/// Conservation of supply: in every well-formed ledger the balances sum
/// exactly to the recorded total supply, and the supply never exceeds the
/// configured mint cap. Every operation of this module requires and
/// re-establishes well-formedness, so this holds at every observation
/// point of any sequence of operations.
pub proof fn lemma_supply_conservation(state: FungibleLedger)
    requires
        state.wf(),
    ensures
        sum_amounts(state.balances.entries@) == state.info.total_supply as int,
        match state.spec_cap() {
            Some(c) => state.info.total_supply <= c,
            None => true,
        },
        state.info.total_supply >= 0,
{
}

} // verus!

