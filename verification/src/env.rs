//! The execution context a call runs in.
//!
//! The host hands every call the current block height and time, the
//! caller's address, any native funds attached to the call, and the
//! ledger's own address (which doubles as the sentinel burn address of the
//! token registry).

use vstd::prelude::*;

verus! {

/// Height and time of the block the call executes in.
#[derive(Clone, Copy, PartialEq, Eq, Structural, Debug)]
pub struct BlockInfo {
    pub height: u64,
    pub time: u64,
}

/// One denomination of native funds.
pub struct Coin {
    pub denom: String,
    pub amount: u128,
}

/// The caller and the funds it attached.
pub struct MessageInfo {
    pub sender: String,
    pub sent_funds: Vec<Coin>,
}

/// Everything the host supplies about the current call.
pub struct Env {
    pub block: BlockInfo,
    pub message: MessageInfo,
    /// The address of this ledger itself.
    pub contract: String,
}

/// The amount of the first coin of the given denomination, zero when none
/// is attached.
pub open spec fn first_fund_of(funds: Seq<Coin>, denom: Seq<char>) -> u128
    decreases funds.len(),
{
    if funds.len() == 0 {
        0
    } else if funds[0].denom@ == denom {
        funds[0].amount
    } else {
        first_fund_of(funds.drop_first(), denom)
    }
}

/// Finds the amount of the first attached coin of denomination `denom`.
pub fn fund_amount(funds: &Vec<Coin>, denom: &str) -> (r: u128)
    ensures
        r == first_fund_of(funds@, denom@),
{
    proof {
        assert(funds@.skip(0) =~= funds@);
    }
    let n = funds.len();
    let mut i: usize = 0;
    while i < n
        invariant
            0 <= i <= n,
            n == funds@.len(),
            first_fund_of(funds@, denom@) == first_fund_of(funds@.skip(i as int), denom@),
        decreases n - i,
    {
        proof {
            assert(funds@.skip(i as int)[0] == funds@[i as int]);
            assert(funds@.skip(i as int).drop_first() =~= funds@.skip(i + 1));
        }
        if crate::lex::str_eq(funds[i].denom.as_str(), denom) {
            return funds[i].amount;
        }
        i += 1;
    }
    proof {
        assert(funds@.skip(n as int).len() == 0);
    }
    0
}

} // verus!
