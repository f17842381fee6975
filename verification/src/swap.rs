//! The swap builder: given a resolved router, path and price policy, it
//! derives the deadline, encodes the router call and produces the unsigned
//! transaction. The minimum-output bound is the caller's slippage policy;
//! nothing here guesses one.
use vstd::prelude::*;

use crate::abi::{encode_swap_exact_eth_call, spec_swap_exact_eth_call};
use crate::tx::{
    assemble, boost_gas_price, spec_assemble, CallKind, UnsignedTransaction, GAS_PRICE_MULTIPLIER,
    SWAP_GAS_LIMIT,
};

verus! {

/// How long a swap stays valid once built: twenty minutes of chain-epoch
/// seconds.
pub const DEADLINE_WINDOW_SECS: u64 = 1200;

/// The deadline of a swap built now: exactly the fixed window from now.
pub fn swap_deadline(now: u64) -> (r: u64)
    requires
        now + DEADLINE_WINDOW_SECS <= u64::MAX,
    ensures
        r == now + DEADLINE_WINDOW_SECS,
{
    now + DEADLINE_WINDOW_SECS
}

/// Builds the unsigned transaction for swapping `amount_in` of the native
/// currency along `path` through the router: the router is the
/// destination, the swapped amount rides in the value field, the deadline
/// is the fixed window from `now`, and the fetched gas price is boosted by
/// the fixed multiplier.
pub fn build_swap(
    trader: &Vec<u8>,
    chain_id: u64,
    router: Vec<u8>,
    path: Vec<Vec<u8>>,
    amount_in: u128,
    min_amount_out: u128,
    now: u64,
    nonce: u64,
    gas_price: u128,
) -> (r: UnsignedTransaction)
    requires
        trader@.len() == 20,
        router@.len() == 20,
        forall|i: int| 0 <= i < path@.len() ==> (#[trigger] path@[i])@.len() == 20,
        path@.len() <= 0xffff,
        now + DEADLINE_WINDOW_SECS <= u64::MAX,
        gas_price <= u128::MAX / GAS_PRICE_MULTIPLIER,
    ensures
        r@ == spec_assemble(
            CallKind::ContractCall,
            router@,
            amount_in as nat,
            spec_swap_exact_eth_call(
                min_amount_out as nat,
                path.deep_view(),
                trader@,
                (now + DEADLINE_WINDOW_SECS) as nat,
            ),
            nonce as nat,
            (gas_price * GAS_PRICE_MULTIPLIER) as nat,
            SWAP_GAS_LIMIT as nat,
            chain_id as nat,
        ),
        r.wf(),
{
    let deadline = swap_deadline(now);
    let data = encode_swap_exact_eth_call(min_amount_out, &path, trader, deadline);
    let boosted = boost_gas_price(gas_price);
    assemble(
        CallKind::ContractCall,
        router,
        amount_in,
        Some(data),
        nonce,
        boosted,
        SWAP_GAS_LIMIT,
        chain_id,
    )
}

} // verus!
