use token_ledgers::env::{BlockInfo, Coin, Env, MessageInfo};
use token_ledgers::error::Error;
use token_ledgers::expiration::Expiration;
use token_ledgers::fungible::{handle, init, query, query_balance, query_minter, query_token_info,
    InitialBalance, FungibleLedger, HandleMsg, InitMsg, MinterData, QueryAnswer, QueryMsg};
use token_ledgers::migrate::{migrate, ContractVersion};
use token_ledgers::response::OutboundCall;

fn mock_env(sender: &str) -> Env {
    Env {
        block: BlockInfo { height: 12345, time: 1571797419 },
        message: MessageInfo { sender: sender.to_string(), sent_funds: vec![] },
        contract: "cosmos2contract".to_string(),
    }
}

fn mock_env_with_funds(sender: &str, funds: Vec<Coin>) -> Env {
    Env {
        block: BlockInfo { height: 12345, time: 1571797419 },
        message: MessageInfo { sender: sender.to_string(), sent_funds: funds },
        contract: "cosmos2contract".to_string(),
    }
}

fn get_balance(state: &FungibleLedger, addr: &str) -> u128 {
    query_balance(state, addr).balance
}

fn do_init(addr: &str, amount: u128) -> FungibleLedger {
    do_init_full(addr, amount, None)
}

fn do_init_with_minter(addr: &str, amount: u128, minter: &str, cap: Option<u128>) -> FungibleLedger {
    do_init_full(addr, amount, Some(MinterData { minter: minter.to_string(), cap }))
}

fn do_init_full(addr: &str, amount: u128, mint: Option<MinterData>) -> FungibleLedger {
    let minter_config = match &mint {
        Some(m) => Some((m.minter.clone(), m.cap)),
        None => None,
    };
    let msg = InitMsg {
        name: "Auto Gen".to_string(),
        symbol: "AUTO".to_string(),
        decimals: 3,
        initial_balances: vec![InitialBalance { address: addr.to_string(), amount }],
        mint,
    };
    let state = init(msg).unwrap();
    let meta = query_token_info(&state);
    assert_eq!(meta.name, "Auto Gen".to_string());
    assert_eq!(meta.symbol, "AUTO".to_string());
    assert_eq!(meta.decimals, 3);
    assert_eq!(meta.total_supply, amount);
    assert_eq!(get_balance(&state, addr), amount);
    match (query_minter(&state), minter_config) {
        (Some(resp), Some((minter, cap))) => {
            assert_eq!(resp.minter, minter);
            assert_eq!(resp.cap, cap);
        }
        (None, None) => {}
        _ => panic!("minter config mismatch"),
    }
    state
}

#[test]
fn proper_initialization() {
    let amount: u128 = 11223344;
    let msg = InitMsg {
        name: "Cash Token".to_string(),
        symbol: "CASH".to_string(),
        decimals: 9,
        initial_balances: vec![InitialBalance { address: "addr0000".to_string(), amount }],
        mint: None,
    };
    let state = init(msg).unwrap();
    let info = query_token_info(&state);
    assert_eq!(info.name, "Cash Token".to_string());
    assert_eq!(info.symbol, "CASH".to_string());
    assert_eq!(info.decimals, 9);
    assert_eq!(info.total_supply, amount);
    assert_eq!(get_balance(&state, "addr0000"), 11223344);
}

#[test]
fn init_mintable() {
    let amount: u128 = 11223344;
    let minter = "asmodat";
    let limit: u128 = 511223344;
    let msg = InitMsg {
        name: "Cash Token".to_string(),
        symbol: "CASH".to_string(),
        decimals: 9,
        initial_balances: vec![InitialBalance { address: "addr0000".to_string(), amount }],
        mint: Some(MinterData { minter: minter.to_string(), cap: Some(limit) }),
    };
    let state = init(msg).unwrap();
    let info = query_token_info(&state);
    assert_eq!(info.name, "Cash Token".to_string());
    assert_eq!(info.symbol, "CASH".to_string());
    assert_eq!(info.decimals, 9);
    assert_eq!(info.total_supply, amount);
    assert_eq!(get_balance(&state, "addr0000"), 11223344);
    let m = query_minter(&state).unwrap();
    assert_eq!(m.minter, "asmodat".to_string());
    assert_eq!(m.cap, Some(limit));
}

#[test]
fn init_mintable_over_cap() {
    let amount: u128 = 11223344;
    let limit: u128 = 11223300;
    let msg = InitMsg {
        name: "Cash Token".to_string(),
        symbol: "CASH".to_string(),
        decimals: 9,
        initial_balances: vec![InitialBalance { address: "addr0000".to_string(), amount }],
        mint: Some(MinterData { minter: "asmodat".to_string(), cap: Some(limit) }),
    };
    match init(msg) {
        Err(Error::CapExceeded) => {}
        _ => panic!("initial supply greater than cap must be rejected"),
    }
}

#[test]
fn can_mint_by_minter() {
    let genesis = "genesis";
    let amount: u128 = 11223344;
    let minter = "asmodat";
    let limit: u128 = 511223344;
    let mut state = do_init_with_minter(genesis, amount, minter, Some(limit));

    // minter can mint coins to some winner
    let winner = "lucky";
    let prize: u128 = 222_222_222;
    let env = mock_env(minter);
    let msg = HandleMsg::Mint { recipient: winner.to_string(), amount: prize };
    let res = handle(&mut state, &env, msg).unwrap();
    assert_eq!(res.messages.len(), 0);
    assert_eq!(get_balance(&state, genesis), amount);
    assert_eq!(get_balance(&state, winner), prize);

    // but cannot mint nothing
    let msg = HandleMsg::Mint { recipient: winner.to_string(), amount: 0 };
    match handle(&mut state, &mock_env(minter), msg) {
        Err(Error::InvalidAmount) => {}
        _ => panic!("zero mint must be rejected"),
    }

    // but if it exceeds cap (even over multiple rounds), it fails
    let msg = HandleMsg::Mint { recipient: winner.to_string(), amount: 333_222_222 };
    match handle(&mut state, &mock_env(minter), msg) {
        Err(Error::CapExceeded) => {}
        _ => panic!("minting cannot exceed the cap"),
    }
}

#[test]
fn others_cannot_mint() {
    let mut state = do_init_with_minter("genesis", 1234, "minter", None);
    let msg = HandleMsg::Mint { recipient: "lucky".to_string(), amount: 222 };
    match handle(&mut state, &mock_env("anyone else"), msg) {
        Err(Error::Unauthorized) => {}
        _ => panic!("expected unauthorized error"),
    }
}

#[test]
fn no_one_mints_if_minter_unset() {
    let mut state = do_init("genesis", 1234);
    let msg = HandleMsg::Mint { recipient: "lucky".to_string(), amount: 222 };
    match handle(&mut state, &mock_env("genesis"), msg) {
        Err(Error::Unauthorized) => {}
        _ => panic!("expected unauthorized error"),
    }
}

#[test]
fn init_multiple_accounts() {
    let amount1: u128 = 11223344;
    let addr1 = "addr0001";
    let amount2: u128 = 7890987;
    let addr2 = "addr0002";
    let msg = InitMsg {
        name: "Bash Shell".to_string(),
        symbol: "BASH".to_string(),
        decimals: 6,
        initial_balances: vec![
            InitialBalance { address: addr1.to_string(), amount: amount1 },
            InitialBalance { address: addr2.to_string(), amount: amount2 },
        ],
        mint: None,
    };
    let state = init(msg).unwrap();
    let info = query_token_info(&state);
    assert_eq!(info.name, "Bash Shell".to_string());
    assert_eq!(info.symbol, "BASH".to_string());
    assert_eq!(info.decimals, 6);
    assert_eq!(info.total_supply, amount1 + amount2);
    assert_eq!(get_balance(&state, addr1), amount1);
    assert_eq!(get_balance(&state, addr2), amount2);
}

#[test]
fn queries_work() {
    let addr1 = "addr0001";
    let amount1: u128 = 12340000;
    let state = do_init(addr1, amount1);

    let loaded = query_token_info(&state);
    assert_eq!(loaded.total_supply, amount1);

    // check balance query (full)
    match query(&state, QueryMsg::Balance { address: addr1.to_string() }) {
        QueryAnswer::Balance(b) => assert_eq!(b.balance, amount1),
        _ => panic!("wrong answer kind"),
    }

    // check balance query (empty)
    match query(&state, QueryMsg::Balance { address: "addr0002".to_string() }) {
        QueryAnswer::Balance(b) => assert_eq!(b.balance, 0),
        _ => panic!("wrong answer kind"),
    }
}

#[test]
fn transfer() {
    let addr1 = "addr0001";
    let addr2 = "addr0002";
    let amount1: u128 = 12340000;
    let transfer: u128 = 76543;
    let too_much: u128 = 12340321;
    let mut state = do_init(addr1, amount1);

    // cannot transfer nothing
    let msg = HandleMsg::Transfer { recipient: addr2.to_string(), amount: 0 };
    match handle(&mut state, &mock_env(addr1), msg) {
        Err(Error::InvalidAmount) => {}
        _ => panic!("zero transfer must be rejected"),
    }

    // cannot send more than we have
    let msg = HandleMsg::Transfer { recipient: addr2.to_string(), amount: too_much };
    match handle(&mut state, &mock_env(addr1), msg) {
        Err(Error::Underflow) => {}
        _ => panic!("expected underflow"),
    }

    // cannot send from empty account
    let msg = HandleMsg::Transfer { recipient: addr1.to_string(), amount: transfer };
    match handle(&mut state, &mock_env(addr2), msg) {
        Err(Error::Underflow) => {}
        _ => panic!("expected underflow"),
    }

    // valid transfer
    let msg = HandleMsg::Transfer { recipient: addr2.to_string(), amount: transfer };
    let res = handle(&mut state, &mock_env(addr1), msg).unwrap();
    assert_eq!(res.messages.len(), 0);

    let remainder = amount1 - transfer;
    assert_eq!(get_balance(&state, addr1), remainder);
    assert_eq!(get_balance(&state, addr2), transfer);
    assert_eq!(query_token_info(&state).total_supply, amount1);
}

#[test]
fn burn() {
    let addr1 = "addr0001";
    let amount1: u128 = 12340000;
    let burn: u128 = 76543;
    let too_much: u128 = 12340321;
    let mut state = do_init(addr1, amount1);

    // cannot burn nothing
    match handle(&mut state, &mock_env(addr1), HandleMsg::Burn { amount: 0 }) {
        Err(Error::InvalidAmount) => {}
        _ => panic!("zero burn must be rejected"),
    }
    assert_eq!(query_token_info(&state).total_supply, amount1);

    // cannot burn more than we have
    match handle(&mut state, &mock_env(addr1), HandleMsg::Burn { amount: too_much }) {
        Err(Error::Underflow) => {}
        _ => panic!("expected underflow"),
    }
    assert_eq!(query_token_info(&state).total_supply, amount1);

    // valid burn reduces total supply
    let res = handle(&mut state, &mock_env(addr1), HandleMsg::Burn { amount: burn }).unwrap();
    assert_eq!(res.messages.len(), 0);

    let remainder = amount1 - burn;
    assert_eq!(get_balance(&state, addr1), remainder);
    assert_eq!(query_token_info(&state).total_supply, remainder);
}

#[test]
fn send() {
    let addr1 = "addr0001";
    let contract = "addr0002";
    let amount1: u128 = 12340000;
    let transfer: u128 = 76543;
    let too_much: u128 = 12340321;
    let send_msg: Vec<u8> = br#"{"some":123}"#.to_vec();
    let mut state = do_init(addr1, amount1);

    // cannot send nothing
    let msg = HandleMsg::Send {
        contract: contract.to_string(),
        amount: 0,
        msg: Some(send_msg.clone()),
    };
    match handle(&mut state, &mock_env(addr1), msg) {
        Err(Error::InvalidAmount) => {}
        _ => panic!("zero send must be rejected"),
    }

    // cannot send more than we have
    let msg = HandleMsg::Send {
        contract: contract.to_string(),
        amount: too_much,
        msg: Some(send_msg.clone()),
    };
    match handle(&mut state, &mock_env(addr1), msg) {
        Err(Error::Underflow) => {}
        _ => panic!("expected underflow"),
    }

    // valid transfer, with 2 native tokens attached
    let env = mock_env_with_funds(addr1, vec![Coin { denom: "token".to_string(), amount: 2 }]);
    let msg = HandleMsg::Send {
        contract: contract.to_string(),
        amount: transfer,
        msg: Some(send_msg.clone()),
    };
    let res = handle(&mut state, &env, msg).unwrap();
    assert_eq!(res.messages.len(), 1);

    // ensure proper send message sent
    match &res.messages[0] {
        OutboundCall::Notify { contract: c, sender, amount, msg } => {
            assert_eq!(c, &contract.to_string());
            assert_eq!(sender, &addr1.to_string());
            assert_eq!(*amount, transfer);
            assert_eq!(msg, &Some(send_msg.clone()));
        }
        _ => panic!("expected a notify call"),
    }

    // ensure balance is properly transferred
    let remainder = amount1 - transfer;
    assert_eq!(get_balance(&state, addr1), remainder);
    assert_eq!(get_balance(&state, contract), transfer);
    assert_eq!(query_token_info(&state).total_supply, amount1);
}

#[test]
fn migrate_from_v01() {
    // the recorded legacy version line may be migrated from
    let stored = ContractVersion {
        contract: "crates.io:token-ledgers".to_string(),
        version: "v0.1.0".to_string(),
    };
    let fresh = migrate(&stored, "crates.io:token-ledgers", "0.2.2").unwrap();
    assert_eq!(fresh.contract, "crates.io:token-ledgers".to_string());
    assert_eq!(fresh.version, "0.2.2".to_string());

    // another contract's state cannot be migrated
    let other = ContractVersion {
        contract: "crates.io:other".to_string(),
        version: "v0.1.0".to_string(),
    };
    match migrate(&other, "crates.io:token-ledgers", "0.2.2") {
        Err(Error::VersionMismatch) => {}
        _ => panic!("expected version mismatch"),
    }

    // an unknown version line cannot be migrated
    let unknown = ContractVersion {
        contract: "crates.io:token-ledgers".to_string(),
        version: "0.2.0".to_string(),
    };
    match migrate(&unknown, "crates.io:token-ledgers", "0.2.2") {
        Err(Error::VersionMismatch) => {}
        _ => panic!("expected version mismatch"),
    }
}

#[test]
fn increase_decrease_allowances() {
    let owner = "addr0001";
    let spender = "addr0002";
    let mut state = do_init(owner, 12340000);
    let env = mock_env(owner);

    // no allowance to start with
    match query(&state, QueryMsg::Allowance { owner: owner.to_string(), spender: spender.to_string() }) {
        QueryAnswer::Allowance(a) => {
            assert_eq!(a.allowance, 0);
            assert_eq!(a.expires, Expiration::Never);
        }
        _ => panic!("wrong answer kind"),
    }

    // set and then add to the allowance
    let msg = HandleMsg::IncreaseAllowance {
        spender: spender.to_string(),
        amount: 7777,
        expires: None,
    };
    handle(&mut state, &env, msg).unwrap();
    let msg = HandleMsg::IncreaseAllowance {
        spender: spender.to_string(),
        amount: 223,
        expires: Some(Expiration::AtHeight(99999)),
    };
    handle(&mut state, &env, msg).unwrap();
    match query(&state, QueryMsg::Allowance { owner: owner.to_string(), spender: spender.to_string() }) {
        QueryAnswer::Allowance(a) => {
            assert_eq!(a.allowance, 8000);
            assert_eq!(a.expires, Expiration::AtHeight(99999));
        }
        _ => panic!("wrong answer kind"),
    }

    // decrease part of it
    let msg = HandleMsg::DecreaseAllowance {
        spender: spender.to_string(),
        amount: 3000,
        expires: None,
    };
    handle(&mut state, &env, msg).unwrap();
    match query(&state, QueryMsg::Allowance { owner: owner.to_string(), spender: spender.to_string() }) {
        QueryAnswer::Allowance(a) => {
            assert_eq!(a.allowance, 5000);
            assert_eq!(a.expires, Expiration::AtHeight(99999));
        }
        _ => panic!("wrong answer kind"),
    }

    // decreasing by zero is rejected
    let msg = HandleMsg::DecreaseAllowance { spender: spender.to_string(), amount: 0, expires: None };
    match handle(&mut state, &env, msg) {
        Err(Error::InvalidAmount) => {}
        _ => panic!("zero decrease must be rejected"),
    }

    // decreasing below zero deletes the record
    let msg = HandleMsg::DecreaseAllowance {
        spender: spender.to_string(),
        amount: 9999,
        expires: None,
    };
    handle(&mut state, &env, msg).unwrap();
    match query(&state, QueryMsg::Allowance { owner: owner.to_string(), spender: spender.to_string() }) {
        QueryAnswer::Allowance(a) => {
            assert_eq!(a.allowance, 0);
            assert_eq!(a.expires, Expiration::Never);
        }
        _ => panic!("wrong answer kind"),
    }
    match query(
        &state,
        QueryMsg::AllAllowances { owner: owner.to_string(), start_after: None, limit: None },
    ) {
        QueryAnswer::AllAllowances(a) => assert_eq!(a.allowances.len(), 0),
        _ => panic!("wrong answer kind"),
    }
}

#[test]
fn transfer_from_respects_allowance() {
    let owner = "addr0001";
    let spender = "addr0002";
    let rcpt = "addr0003";
    let start: u128 = 999999;
    let mut state = do_init(owner, start);

    // grant an allowance
    let msg = HandleMsg::IncreaseAllowance {
        spender: spender.to_string(),
        amount: 77777,
        expires: None,
    };
    handle(&mut state, &mock_env(owner), msg).unwrap();

    // a zero delegated transfer is rejected
    let msg = HandleMsg::TransferFrom {
        owner: owner.to_string(),
        recipient: rcpt.to_string(),
        amount: 0,
    };
    match handle(&mut state, &mock_env(spender), msg) {
        Err(Error::InvalidAmount) => {}
        _ => panic!("zero transfer_from must be rejected"),
    }

    // valid transfer_from, deducted from the allowance
    let msg = HandleMsg::TransferFrom {
        owner: owner.to_string(),
        recipient: rcpt.to_string(),
        amount: 44444,
    };
    handle(&mut state, &mock_env(spender), msg).unwrap();
    assert_eq!(get_balance(&state, owner), start - 44444);
    assert_eq!(get_balance(&state, rcpt), 44444);
    match query(&state, QueryMsg::Allowance { owner: owner.to_string(), spender: spender.to_string() }) {
        QueryAnswer::Allowance(a) => assert_eq!(a.allowance, 77777 - 44444),
        _ => panic!("wrong answer kind"),
    }

    // cannot spend past the remaining allowance
    let msg = HandleMsg::TransferFrom {
        owner: owner.to_string(),
        recipient: rcpt.to_string(),
        amount: 33334,
    };
    match handle(&mut state, &mock_env(spender), msg) {
        Err(Error::Unauthorized) => {}
        _ => panic!("spending past the allowance must be rejected"),
    }

    // an uninvolved account has no allowance at all
    let msg = HandleMsg::TransferFrom {
        owner: owner.to_string(),
        recipient: rcpt.to_string(),
        amount: 1,
    };
    match handle(&mut state, &mock_env(rcpt), msg) {
        Err(Error::Unauthorized) => {}
        _ => panic!("expected unauthorized error"),
    }

    // spending the exact remainder removes the record
    let msg = HandleMsg::TransferFrom {
        owner: owner.to_string(),
        recipient: rcpt.to_string(),
        amount: 33333,
    };
    handle(&mut state, &mock_env(spender), msg).unwrap();
    match query(
        &state,
        QueryMsg::AllAllowances { owner: owner.to_string(), start_after: None, limit: None },
    ) {
        QueryAnswer::AllAllowances(a) => assert_eq!(a.allowances.len(), 0),
        _ => panic!("wrong answer kind"),
    }
    assert_eq!(query_token_info(&state).total_supply, start);
}

#[test]
fn expired_allowance_cannot_spend() {
    let owner = "addr0001";
    let spender = "addr0002";
    let mut state = do_init(owner, 10000);

    // the grant expires at a height below the current mock height
    let msg = HandleMsg::IncreaseAllowance {
        spender: spender.to_string(),
        amount: 5000,
        expires: Some(Expiration::AtHeight(12346)),
    };
    handle(&mut state, &mock_env(owner), msg).unwrap();

    let mut env = mock_env(spender);
    env.block.height = 20000;
    let msg = HandleMsg::TransferFrom {
        owner: owner.to_string(),
        recipient: spender.to_string(),
        amount: 100,
    };
    match handle(&mut state, &env, msg) {
        Err(Error::Unauthorized) => {}
        _ => panic!("an expired allowance must not spend"),
    }

    // increasing an expired allowance starts from a fresh record
    let mut env = mock_env(owner);
    env.block.height = 20000;
    let msg = HandleMsg::IncreaseAllowance { spender: spender.to_string(), amount: 42, expires: None };
    handle(&mut state, &env, msg).unwrap();
    match query(&state, QueryMsg::Allowance { owner: owner.to_string(), spender: spender.to_string() }) {
        QueryAnswer::Allowance(a) => {
            assert_eq!(a.allowance, 42);
            assert_eq!(a.expires, Expiration::Never);
        }
        _ => panic!("wrong answer kind"),
    }
}

#[test]
fn burn_from_and_send_from() {
    let owner = "addr0001";
    let spender = "addr0002";
    let contract = "addr0003";
    let start: u128 = 100000;
    let mut state = do_init(owner, start);
    let msg = HandleMsg::IncreaseAllowance {
        spender: spender.to_string(),
        amount: 60000,
        expires: None,
    };
    handle(&mut state, &mock_env(owner), msg).unwrap();

    // burn_from lowers balance and supply together
    let msg = HandleMsg::BurnFrom { owner: owner.to_string(), amount: 20000 };
    handle(&mut state, &mock_env(spender), msg).unwrap();
    assert_eq!(get_balance(&state, owner), 80000);
    assert_eq!(query_token_info(&state).total_supply, 80000);

    // send_from moves tokens and notifies, naming the spender
    let payload: Vec<u8> = b"{}".to_vec();
    let msg = HandleMsg::SendFrom {
        owner: owner.to_string(),
        contract: contract.to_string(),
        amount: 30000,
        msg: Some(payload.clone()),
    };
    let res = handle(&mut state, &mock_env(spender), msg).unwrap();
    assert_eq!(res.messages.len(), 1);
    match &res.messages[0] {
        OutboundCall::Notify { contract: c, sender, amount, msg } => {
            assert_eq!(c, &contract.to_string());
            assert_eq!(sender, &spender.to_string());
            assert_eq!(*amount, 30000);
            assert_eq!(msg, &Some(payload));
        }
        _ => panic!("expected a notify call"),
    }
    assert_eq!(get_balance(&state, owner), 50000);
    assert_eq!(get_balance(&state, contract), 30000);

    // allowance is exhausted: 60000 - 20000 - 30000 = 10000 left
    match query(&state, QueryMsg::Allowance { owner: owner.to_string(), spender: spender.to_string() }) {
        QueryAnswer::Allowance(a) => assert_eq!(a.allowance, 10000),
        _ => panic!("wrong answer kind"),
    }

    // owner balance is the hard limit even with allowance left
    let msg = HandleMsg::IncreaseAllowance {
        spender: spender.to_string(),
        amount: 1000000,
        expires: None,
    };
    handle(&mut state, &mock_env(owner), msg).unwrap();
    let msg = HandleMsg::BurnFrom { owner: owner.to_string(), amount: 60000 };
    match handle(&mut state, &mock_env(spender), msg) {
        Err(Error::Underflow) => {}
        _ => panic!("expected underflow"),
    }
}

#[test]
fn all_accounts_pagination() {
    let msg = InitMsg {
        name: "Paging".to_string(),
        symbol: "PAGE".to_string(),
        decimals: 0,
        initial_balances: vec![
            InitialBalance { address: "carl".to_string(), amount: 3 },
            InitialBalance { address: "alice".to_string(), amount: 1 },
            InitialBalance { address: "bob".to_string(), amount: 2 },
        ],
        mint: None,
    };
    let state = init(msg).unwrap();

    // accounts come back in ascending order regardless of insertion order
    match query(&state, QueryMsg::AllAccounts { start_after: None, limit: None }) {
        QueryAnswer::AllAccounts(a) => {
            assert_eq!(a.accounts, vec!["alice".to_string(), "bob".to_string(), "carl".to_string()]);
        }
        _ => panic!("wrong answer kind"),
    }

    // and pagination starts strictly after the given key
    match query(
        &state,
        QueryMsg::AllAccounts { start_after: Some("alice".to_string()), limit: Some(1) },
    ) {
        QueryAnswer::AllAccounts(a) => assert_eq!(a.accounts, vec!["bob".to_string()]),
        _ => panic!("wrong answer kind"),
    }
}

#[test]
fn all_allowances_pagination() {
    let owner = "addr0001";
    let mut state = do_init(owner, 1000);
    for (spender, amount) in [("zeta", 30u128), ("alpha", 10u128), ("mid", 20u128)] {
        let msg = HandleMsg::IncreaseAllowance {
            spender: spender.to_string(),
            amount,
            expires: None,
        };
        handle(&mut state, &mock_env(owner), msg).unwrap();
    }
    match query(
        &state,
        QueryMsg::AllAllowances { owner: owner.to_string(), start_after: None, limit: Some(2) },
    ) {
        QueryAnswer::AllAllowances(a) => {
            assert_eq!(a.allowances.len(), 2);
            assert_eq!(a.allowances[0].spender, "alpha".to_string());
            assert_eq!(a.allowances[0].allowance, 10);
            assert_eq!(a.allowances[1].spender, "mid".to_string());
            assert_eq!(a.allowances[1].allowance, 20);
        }
        _ => panic!("wrong answer kind"),
    }
    match query(
        &state,
        QueryMsg::AllAllowances {
            owner: owner.to_string(),
            start_after: Some("mid".to_string()),
            limit: None,
        },
    ) {
        QueryAnswer::AllAllowances(a) => {
            assert_eq!(a.allowances.len(), 1);
            assert_eq!(a.allowances[0].spender, "zeta".to_string());
            assert_eq!(a.allowances[0].allowance, 30);
        }
        _ => panic!("wrong answer kind"),
    }
}

#[test]
fn deposit_and_increment_orders() {
    let env = mock_env_with_funds(
        "addr0001",
        vec![Coin { denom: "uusd".to_string(), amount: 55 }],
    );
    let res =
        token_ledgers::fungible::handle_deposit(&env, "treasury".to_string()).unwrap();
    assert_eq!(res.messages.len(), 1);
    match &res.messages[0] {
        OutboundCall::DepositStable { contract } => assert_eq!(contract, &"treasury".to_string()),
        _ => panic!("expected a deposit order"),
    }
    assert_eq!(res.log[3].key, "deposit_amount".to_string());
    assert_eq!(res.log[3].value, "55".to_string());

    let res =
        token_ledgers::fungible::handle_increment(&env, "counter".to_string()).unwrap();
    assert_eq!(res.messages.len(), 1);
    match &res.messages[0] {
        OutboundCall::Increment { contract } => assert_eq!(contract, &"counter".to_string()),
        _ => panic!("expected an increment order"),
    }
}
