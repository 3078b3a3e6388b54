use token_ledgers::env::{BlockInfo, Env, MessageInfo};
use token_ledgers::error::Error;
use token_ledgers::expiration::Expiration;
use token_ledgers::nft::{init, InitMsg, NftRegistry, Rank};
use token_ledgers::nft_msg::{handle, query, HandleMsg, QueryAnswer, QueryMsg};
use token_ledgers::nft_query::{query_all_base_tokens, query_base_tokens, query_contract_info,
    query_minter, query_nft_info, query_owner_of};
use token_ledgers::response::OutboundCall;

const MINTER: &str = "cosmos2contract";
const NAME: &str = "Lebron Token";
const SYMBOL: &str = "LBJ";
const BASE_CAP: u128 = 2;
const SILVER_CAP: u128 = 2;
const GOLD_CAP: u128 = 2;

fn mock_env(sender: &str) -> Env {
    Env {
        block: BlockInfo { height: 12345, time: 1571797419 },
        message: MessageInfo { sender: sender.to_string(), sent_funds: vec![] },
        contract: "cosmos2contract".to_string(),
    }
}

fn setup_contract() -> NftRegistry {
    init(InitMsg {
        name: NAME.to_string(),
        symbol: SYMBOL.to_string(),
        minter: MINTER.to_string(),
        base_cap: BASE_CAP,
        silver_cap: SILVER_CAP,
        gold_cap: GOLD_CAP,
    })
}

#[test]
fn contract_proper_initialization() {
    let state = setup_contract();

    let res = query_minter(&state);
    assert_eq!(MINTER, res.minter.as_str());
    let info = query_contract_info(&state);
    assert_eq!(info.name, NAME.to_string());
    assert_eq!(info.symbol, SYMBOL.to_string());
    assert_eq!(info.base_cap, BASE_CAP);
    assert_eq!(info.silver_cap, SILVER_CAP);
    assert_eq!(info.gold_cap, GOLD_CAP);

    let client_info = token_ledgers::nft_query::query_contract_info_response(&state);
    assert_eq!(client_info.name, NAME.to_string());
    assert_eq!(client_info.symbol, SYMBOL.to_string());

    let count = query_base_tokens(&state);
    assert_eq!(0, count.count);

    // list the token_ids
    let tokens = query_all_base_tokens(&state, None, None);
    assert_eq!(0, tokens.tokens.len());
}

#[test]
fn minting() {
    let mut state = setup_contract();

    let mint_msg = HandleMsg::Mint { owner: "medusa".to_string(), rank: Rank::Base };

    // random cannot mint
    match handle(&mut state, &mock_env("random"), mint_msg) {
        Err(Error::Unauthorized) => {}
        _ => panic!("expected unauthorized error"),
    }

    // minter can mint; the identifier is derived from symbol, rank, serial
    let mint_msg = HandleMsg::Mint { owner: "medusa".to_string(), rank: Rank::Base };
    let res = handle(&mut state, &mock_env(MINTER), mint_msg).unwrap();
    assert_eq!(res.log[2].key, "token_id".to_string());
    assert_eq!(res.log[2].value, "LBJB1".to_string());

    // ensure num tokens increases
    let count = query_base_tokens(&state);
    assert_eq!(1, count.count);

    // unknown nft returns error
    match query_nft_info(&state, "unknown") {
        Err(Error::NotFound) => {}
        _ => panic!("unknown token must not be found"),
    }

    // this nft info is correct
    let info = query_nft_info(&state, "LBJB1").unwrap();
    assert_eq!(info.rank, Rank::Base);

    // owner info is correct
    let owner = query_owner_of(&state, "LBJB1").unwrap();
    assert_eq!(owner.owner, "medusa".to_string());
    assert_eq!(owner.approvals.len(), 0);

    // minting with an already-used derived token_id fails: wind the rank
    // counter back so the next derived identifier collides
    let mut collided = setup_contract();
    let mint_msg = HandleMsg::Mint { owner: "medusa".to_string(), rank: Rank::Base };
    handle(&mut collided, &mock_env(MINTER), mint_msg).unwrap();
    collided.base_count = 0;
    let mint_msg = HandleMsg::Mint { owner: "hercules".to_string(), rank: Rank::Base };
    match handle(&mut collided, &mock_env(MINTER), mint_msg) {
        Err(Error::AlreadyExists) => {}
        _ => panic!("a used token_id must be rejected"),
    }

    // a second mint below the cap succeeds
    let mint_msg = HandleMsg::Mint { owner: "hercules".to_string(), rank: Rank::Base };
    handle(&mut state, &mock_env(MINTER), mint_msg).unwrap();

    // cannot mint more than the cap
    let mint_msg = HandleMsg::Mint { owner: "hercules".to_string(), rank: Rank::Base };
    match handle(&mut state, &mock_env(MINTER), mint_msg) {
        Err(Error::CapExceeded) => {}
        _ => panic!("minting cannot exceed the cap"),
    }

    // list the token_ids
    let tokens = query_all_base_tokens(&state, None, None);
    assert_eq!(2, tokens.tokens.len());
    assert_eq!(vec!["LBJB1".to_string(), "LBJB2".to_string()], tokens.tokens);
}

#[test]
fn update_nft() {
    let mut state = setup_contract();

    // Mint a token
    let mint_msg = HandleMsg::Mint { owner: "venus".to_string(), rank: Rank::Base };
    handle(&mut state, &mock_env(MINTER), mint_msg).unwrap();
    let token_id = "LBJB1";

    // random cannot transfer
    let transfer_msg = HandleMsg::TransferNft {
        recipient: "random".to_string(),
        token_id: token_id.to_string(),
    };
    match handle(&mut state, &mock_env("random"), transfer_msg) {
        Err(Error::Unauthorized) => {}
        _ => panic!("expected unauthorized error"),
    }

    // owner can transfer
    let transfer_msg = HandleMsg::TransferNft {
        recipient: "random".to_string(),
        token_id: token_id.to_string(),
    };
    let res = handle(&mut state, &mock_env("venus"), transfer_msg).unwrap();
    assert_eq!(res.messages.len(), 0);
    let pairs: Vec<(String, String)> =
        res.log.iter().map(|a| (a.key.clone(), a.value.clone())).collect();
    assert_eq!(
        pairs,
        vec![
            ("action".to_string(), "transfer_nft".to_string()),
            ("sender".to_string(), "venus".to_string()),
            ("recipient".to_string(), "random".to_string()),
            ("token_id".to_string(), token_id.to_string()),
        ]
    );
    assert_eq!(query_owner_of(&state, token_id).unwrap().owner, "random".to_string());
}

#[test]
fn sending_nft() {
    let mut state = setup_contract();

    let mint_msg = HandleMsg::Mint { owner: "venus".to_string(), rank: Rank::Base };
    handle(&mut state, &mock_env(MINTER), mint_msg).unwrap();
    let token_id = "LBJB1";

    let payload: Vec<u8> = b"You now have the melting power".to_vec();

    // random cannot send
    let send_msg = HandleMsg::SendNft {
        contract: "another_contract".to_string(),
        token_id: token_id.to_string(),
        msg: Some(payload.clone()),
    };
    match handle(&mut state, &mock_env("random"), send_msg) {
        Err(Error::Unauthorized) => {}
        _ => panic!("expected unauthorized error"),
    }

    // but owner can: the supplied call is relayed unchanged
    let send_msg = HandleMsg::SendNft {
        contract: "another_contract".to_string(),
        token_id: token_id.to_string(),
        msg: Some(payload.clone()),
    };
    let res = handle(&mut state, &mock_env("venus"), send_msg).unwrap();
    assert_eq!(res.messages.len(), 1);
    match &res.messages[0] {
        OutboundCall::Relay { encoded } => assert_eq!(encoded, &payload),
        _ => panic!("expected a relayed call"),
    }
    let pairs: Vec<(String, String)> =
        res.log.iter().map(|a| (a.key.clone(), a.value.clone())).collect();
    assert_eq!(
        pairs,
        vec![
            ("action".to_string(), "send_nft".to_string()),
            ("sender".to_string(), "venus".to_string()),
            ("recipient".to_string(), "another_contract".to_string()),
            ("token_id".to_string(), token_id.to_string()),
        ]
    );
    assert_eq!(query_owner_of(&state, token_id).unwrap().owner, "another_contract".to_string());
}

#[test]
fn approving_revoking() {
    let mut state = setup_contract();

    // Mint a token
    let mint_msg = HandleMsg::Mint { owner: "demeter".to_string(), rank: Rank::Base };
    handle(&mut state, &mock_env(MINTER), mint_msg).unwrap();
    let token_id = "LBJB1";

    // Give random transferring power
    let approve_msg = HandleMsg::Approve {
        spender: "random".to_string(),
        token_id: token_id.to_string(),
        expires: None,
    };
    let res = handle(&mut state, &mock_env("demeter"), approve_msg).unwrap();
    let pairs: Vec<(String, String)> =
        res.log.iter().map(|a| (a.key.clone(), a.value.clone())).collect();
    assert_eq!(
        pairs,
        vec![
            ("action".to_string(), "approve".to_string()),
            ("sender".to_string(), "demeter".to_string()),
            ("spender".to_string(), "random".to_string()),
            ("token_id".to_string(), token_id.to_string()),
        ]
    );

    // random can now transfer
    let transfer_msg = HandleMsg::TransferNft {
        recipient: "person".to_string(),
        token_id: token_id.to_string(),
    };
    handle(&mut state, &mock_env("random"), transfer_msg).unwrap();

    // Approvals are removed / cleared
    match query(&state, QueryMsg::OwnerOf { token_id: token_id.to_string() }).unwrap() {
        QueryAnswer::OwnerOf(res) => {
            assert_eq!(res.owner, "person".to_string());
            assert_eq!(res.approvals.len(), 0);
        }
        _ => panic!("wrong answer kind"),
    }

    // Approve, revoke, and check for empty, to test revoke
    let approve_msg = HandleMsg::Approve {
        spender: "random".to_string(),
        token_id: token_id.to_string(),
        expires: None,
    };
    handle(&mut state, &mock_env("person"), approve_msg).unwrap();
    let revoke_msg = HandleMsg::Revoke {
        spender: "random".to_string(),
        token_id: token_id.to_string(),
    };
    handle(&mut state, &mock_env("person"), revoke_msg).unwrap();

    // Approvals are now removed / cleared
    match query(&state, QueryMsg::OwnerOf { token_id: token_id.to_string() }).unwrap() {
        QueryAnswer::OwnerOf(res) => {
            assert_eq!(res.owner, "person".to_string());
            assert_eq!(res.approvals.len(), 0);
        }
        _ => panic!("wrong answer kind"),
    }

    // approving with an already-past expiration fails
    let approve_msg = HandleMsg::Approve {
        spender: "random".to_string(),
        token_id: token_id.to_string(),
        expires: Some(Expiration::AtHeight(12345)),
    };
    match handle(&mut state, &mock_env("person"), approve_msg) {
        Err(Error::InvalidExpiration) => {}
        _ => panic!("an elapsed expiration must be rejected"),
    }
}

#[test]
fn approving_all_revoking_all() {
    let mut state = setup_contract();

    // Mint a couple tokens (from the same owner)
    let mint_msg1 = HandleMsg::Mint { owner: "demeter".to_string(), rank: Rank::Base };
    handle(&mut state, &mock_env(MINTER), mint_msg1).unwrap();
    let mint_msg2 = HandleMsg::Mint { owner: "demeter".to_string(), rank: Rank::Base };
    handle(&mut state, &mock_env(MINTER), mint_msg2).unwrap();
    let token_id1 = "LBJB1";
    let token_id2 = "LBJB2";

    // paginate the token_ids
    let tokens = query_all_base_tokens(&state, None, Some(1));
    assert_eq!(1, tokens.tokens.len());
    assert_eq!(vec![token_id1.to_string()], tokens.tokens);
    let tokens = query_all_base_tokens(&state, Some(token_id1.to_string()), Some(3));
    assert_eq!(1, tokens.tokens.len());
    assert_eq!(vec![token_id2.to_string()], tokens.tokens);

    // demeter gives random full (operator) power over her tokens
    let approve_all_msg = HandleMsg::ApproveAll { operator: "random".to_string(), expires: None };
    let res = handle(&mut state, &mock_env("demeter"), approve_all_msg).unwrap();
    let pairs: Vec<(String, String)> =
        res.log.iter().map(|a| (a.key.clone(), a.value.clone())).collect();
    assert_eq!(
        pairs,
        vec![
            ("action".to_string(), "approve_all".to_string()),
            ("sender".to_string(), "demeter".to_string()),
            ("operator".to_string(), "random".to_string()),
        ]
    );

    // random can now transfer
    let transfer_msg = HandleMsg::TransferNft {
        recipient: "person".to_string(),
        token_id: token_id1.to_string(),
    };
    handle(&mut state, &mock_env("random"), transfer_msg).unwrap();

    // random can now send
    let inner_msg: Vec<u8> = b"You now also have the growing power".to_vec();
    let send_msg = HandleMsg::SendNft {
        contract: "another_contract".to_string(),
        token_id: token_id2.to_string(),
        msg: Some(inner_msg),
    };
    handle(&mut state, &mock_env("random"), send_msg).unwrap();

    // Approve_all, revoke_all, and check for empty, to test revoke_all
    let approve_all_msg = HandleMsg::ApproveAll { operator: "operator".to_string(), expires: None };
    // person is now the owner of the tokens
    handle(&mut state, &mock_env("person"), approve_all_msg).unwrap();

    match query(
        &state,
        QueryMsg::ApprovedForAll { owner: "person".to_string(), start_after: None, limit: None },
    )
        .unwrap()
    {
        QueryAnswer::ApprovedForAll(res) => {
            assert_eq!(res.operators.len(), 1);
            assert_eq!(res.operators[0].spender, "operator".to_string());
            assert_eq!(res.operators[0].expires, Expiration::Never);
        }
        _ => panic!("wrong answer kind"),
    }

    // second approval
    let buddy_expires = Expiration::AtHeight(1234567);
    let approve_all_msg = HandleMsg::ApproveAll {
        operator: "buddy".to_string(),
        expires: Some(buddy_expires),
    };
    handle(&mut state, &mock_env("person"), approve_all_msg).unwrap();

    // and paginate queries
    match query(
        &state,
        QueryMsg::ApprovedForAll { owner: "person".to_string(), start_after: None, limit: Some(1) },
    )
        .unwrap()
    {
        QueryAnswer::ApprovedForAll(res) => {
            assert_eq!(res.operators.len(), 1);
            assert_eq!(res.operators[0].spender, "buddy".to_string());
            assert_eq!(res.operators[0].expires, buddy_expires);
        }
        _ => panic!("wrong answer kind"),
    }
    match query(
        &state,
        QueryMsg::ApprovedForAll {
            owner: "person".to_string(),
            start_after: Some("buddy".to_string()),
            limit: Some(2),
        },
    )
        .unwrap()
    {
        QueryAnswer::ApprovedForAll(res) => {
            assert_eq!(res.operators.len(), 1);
            assert_eq!(res.operators[0].spender, "operator".to_string());
            assert_eq!(res.operators[0].expires, Expiration::Never);
        }
        _ => panic!("wrong answer kind"),
    }

    let revoke_all_msg = HandleMsg::RevokeAll { operator: "operator".to_string() };
    handle(&mut state, &mock_env("person"), revoke_all_msg).unwrap();

    // Grants are removed / cleared without affecting others
    match query(
        &state,
        QueryMsg::ApprovedForAll { owner: "person".to_string(), start_after: None, limit: None },
    )
        .unwrap()
    {
        QueryAnswer::ApprovedForAll(res) => {
            assert_eq!(res.operators.len(), 1);
            assert_eq!(res.operators[0].spender, "buddy".to_string());
            assert_eq!(res.operators[0].expires, buddy_expires);
        }
        _ => panic!("wrong answer kind"),
    }
}

#[test]
fn update_minter_rotates_identity() {
    let mut state = setup_contract();

    // only the current minter may rotate
    let msg = HandleMsg::UpdateMinter { minter: "usurper".to_string() };
    match handle(&mut state, &mock_env("random"), msg) {
        Err(Error::Unauthorized) => {}
        _ => panic!("expected unauthorized error"),
    }

    let msg = HandleMsg::UpdateMinter { minter: "heir".to_string() };
    handle(&mut state, &mock_env(MINTER), msg).unwrap();
    assert_eq!(query_minter(&state).minter, "heir".to_string());

    // the old minter has lost the right; note the registry's own identity
    // can still mint, so rotate to a neutral example address first
    let msg = HandleMsg::Mint { owner: "medusa".to_string(), rank: Rank::Base };
    let mut env = mock_env("old_minter_gone");
    env.contract = "some_registry".to_string();
    match handle(&mut state, &env, msg) {
        Err(Error::Unauthorized) => {}
        _ => panic!("expected unauthorized error"),
    }
}
