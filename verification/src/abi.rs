//! Contract ABI encoding and decoding for the fixed interface subset the
//! wallet speaks: ERC20 reads and transfers, the pair factory lookup, pair
//! reserve reads, and the router's swap and quoting calls.
//!
//! A call is a four-byte selector followed by 32-byte argument words;
//! dynamic arguments (the swap path) stand behind a head offset. Responses
//! are decoded from the same word layout. Token symbols are handed around
//! as raw bytes; rendering them as text is the caller's affair.
use vstd::prelude::*;

use crate::bytes::{
    be_bytes, be_val, lemma_be_val_append, lemma_be_val_be_bytes, lemma_be_val_bound,
    lemma_pow256_16, lemma_pow256_mono, pow256, push_all, push_be_bytes, read_be_u128,
};
use crate::WalletError;

verus! {

/// A 32-byte ABI word holding the unsigned integer `v`.
pub open spec fn abi_word(v: nat) -> Seq<u8> {
    be_bytes(v, 32)
}

/// A 32-byte ABI word holding a 20-byte address, left-padded with zeros.
pub open spec fn abi_address_word(a: Seq<u8>) -> Seq<u8> {
    be_bytes(0, 12) + a
}

/// The concatenated address words of a swap path.
pub open spec fn abi_address_words(path: Seq<Seq<u8>>) -> Seq<u8>
    decreases path.len(),
{
    if path.len() == 0 {
        Seq::empty()
    } else {
        abi_address_words(path.drop_last()) + abi_address_word(path.last())
    }
}

/// `decimals()`
pub open spec fn spec_decimals_call() -> Seq<u8> {
    seq![0x31u8, 0x3cu8, 0xe5u8, 0x67u8]
}

/// `symbol()`
pub open spec fn spec_symbol_call() -> Seq<u8> {
    seq![0x95u8, 0xd8u8, 0x9bu8, 0x41u8]
}

/// `totalSupply()`
pub open spec fn spec_total_supply_call() -> Seq<u8> {
    seq![0x18u8, 0x16u8, 0x0du8, 0xddu8]
}

/// `balanceOf(address)`
pub open spec fn spec_balance_of_call(owner: Seq<u8>) -> Seq<u8> {
    seq![0x70u8, 0xa0u8, 0x82u8, 0x31u8] + abi_address_word(owner)
}

/// `allowance(address,address)`
pub open spec fn spec_allowance_call(owner: Seq<u8>, spender: Seq<u8>) -> Seq<u8> {
    seq![0xddu8, 0x62u8, 0xedu8, 0x3eu8] + abi_address_word(owner) + abi_address_word(spender)
}

/// `transfer(address,uint256)`
pub open spec fn spec_transfer_call(to: Seq<u8>, amount: nat) -> Seq<u8> {
    seq![0xa9u8, 0x05u8, 0x9cu8, 0xbbu8] + abi_address_word(to) + abi_word(amount)
}

/// `approve(address,uint256)`
pub open spec fn spec_approve_call(spender: Seq<u8>, amount: nat) -> Seq<u8> {
    seq![0x09u8, 0x5eu8, 0xa7u8, 0xb3u8] + abi_address_word(spender) + abi_word(amount)
}

/// `transferFrom(address,address,uint256)`
pub open spec fn spec_transfer_from_call(from: Seq<u8>, to: Seq<u8>, amount: nat) -> Seq<u8> {
    seq![0x23u8, 0xb8u8, 0x72u8, 0xddu8] + abi_address_word(from) + abi_address_word(to)
        + abi_word(amount)
}

/// Factory `getPair(address,address)`
pub open spec fn spec_get_pair_call(token_a: Seq<u8>, token_b: Seq<u8>) -> Seq<u8> {
    seq![0xe6u8, 0xa4u8, 0x39u8, 0x05u8] + abi_address_word(token_a) + abi_address_word(token_b)
}

/// Pair `token0()`
pub open spec fn spec_token0_call() -> Seq<u8> {
    seq![0x0du8, 0xfeu8, 0x16u8, 0x81u8]
}

/// Pair `token1()`
pub open spec fn spec_token1_call() -> Seq<u8> {
    seq![0xd2u8, 0x12u8, 0x20u8, 0xa7u8]
}

/// Pair `getReserves()`
pub open spec fn spec_get_reserves_call() -> Seq<u8> {
    seq![0x09u8, 0x02u8, 0xf1u8, 0xacu8]
}

/// Router `quote(uint256,uint256,uint256)`
pub open spec fn spec_quote_call(amount_a: nat, reserve_a: nat, reserve_b: nat) -> Seq<u8> {
    seq![0xadu8, 0x61u8, 0x5du8, 0xecu8] + abi_word(amount_a) + abi_word(reserve_a) + abi_word(
        reserve_b,
    )
}

/// Router `getAmountOut(uint256,uint256,uint256)`
pub open spec fn spec_get_amount_out_call(amount_in: nat, reserve_in: nat, reserve_out: nat) -> Seq<
    u8,
> {
    seq![0x05u8, 0x4du8, 0x50u8, 0xd4u8] + abi_word(amount_in) + abi_word(reserve_in) + abi_word(
        reserve_out,
    )
}

/// Router `getAmountIn(uint256,uint256,uint256)`
pub open spec fn spec_get_amount_in_call(amount_out: nat, reserve_in: nat, reserve_out: nat) -> Seq<
    u8,
> {
    seq![0x85u8, 0xf8u8, 0xc2u8, 0x59u8] + abi_word(amount_out) + abi_word(reserve_in) + abi_word(
        reserve_out,
    )
}

/// A router swap call with one amount argument before the path: the
/// selector, the amount, the path offset `0x80`, the recipient and the
/// deadline as head words, then the path length and its addresses.
pub open spec fn spec_router_swap_one_amount(
    sel: Seq<u8>,
    amount: nat,
    path: Seq<Seq<u8>>,
    to: Seq<u8>,
    deadline: nat,
) -> Seq<u8> {
    sel + abi_word(amount) + abi_word(0x80) + abi_address_word(to) + abi_word(deadline) + abi_word(
        path.len() as nat,
    ) + abi_address_words(path)
}

/// A router swap call with two amount arguments before the path: the
/// selector, both amounts, the path offset `0xa0`, the recipient and the
/// deadline as head words, then the path length and its addresses.
pub open spec fn spec_router_swap_two_amounts(
    sel: Seq<u8>,
    amount_a: nat,
    amount_b: nat,
    path: Seq<Seq<u8>>,
    to: Seq<u8>,
    deadline: nat,
) -> Seq<u8> {
    sel + abi_word(amount_a) + abi_word(amount_b) + abi_word(0xa0) + abi_address_word(to)
        + abi_word(deadline) + abi_word(path.len() as nat) + abi_address_words(path)
}

/// Router `swapExactETHForTokens(uint256,address[],address,uint256)`
pub open spec fn spec_swap_exact_eth_call(
    min_out: nat,
    path: Seq<Seq<u8>>,
    to: Seq<u8>,
    deadline: nat,
) -> Seq<u8> {
    spec_router_swap_one_amount(seq![0x7fu8, 0xf3u8, 0x6au8, 0xb5u8], min_out, path, to, deadline)
}

/// Router `swapETHForExactTokens(uint256,address[],address,uint256)`
pub open spec fn spec_swap_eth_for_exact_tokens_call(
    amount_out: nat,
    path: Seq<Seq<u8>>,
    to: Seq<u8>,
    deadline: nat,
) -> Seq<u8> {
    spec_router_swap_one_amount(
        seq![0xfbu8, 0x3bu8, 0xdbu8, 0x41u8],
        amount_out,
        path,
        to,
        deadline,
    )
}

/// Router `swapExactTokensForTokens(uint256,uint256,address[],address,uint256)`
pub open spec fn spec_swap_exact_tokens_call(
    amount_in: nat,
    min_out: nat,
    path: Seq<Seq<u8>>,
    to: Seq<u8>,
    deadline: nat,
) -> Seq<u8> {
    spec_router_swap_two_amounts(
        seq![0x38u8, 0xedu8, 0x17u8, 0x39u8],
        amount_in,
        min_out,
        path,
        to,
        deadline,
    )
}

/// Router `swapTokensForExactTokens(uint256,uint256,address[],address,uint256)`
pub open spec fn spec_swap_tokens_for_exact_tokens_call(
    amount_out: nat,
    max_in: nat,
    path: Seq<Seq<u8>>,
    to: Seq<u8>,
    deadline: nat,
) -> Seq<u8> {
    spec_router_swap_two_amounts(
        seq![0x88u8, 0x03u8, 0xdbu8, 0xeeu8],
        amount_out,
        max_in,
        path,
        to,
        deadline,
    )
}

/// Router `swapExactTokensForETH(uint256,uint256,address[],address,uint256)`
pub open spec fn spec_swap_exact_tokens_for_eth_call(
    amount_in: nat,
    min_out: nat,
    path: Seq<Seq<u8>>,
    to: Seq<u8>,
    deadline: nat,
) -> Seq<u8> {
    spec_router_swap_two_amounts(
        seq![0x18u8, 0xcbu8, 0xafu8, 0xe5u8],
        amount_in,
        min_out,
        path,
        to,
        deadline,
    )
}

/// Router `swapTokensForExactETH(uint256,uint256,address[],address,uint256)`
pub open spec fn spec_swap_tokens_for_exact_eth_call(
    amount_out: nat,
    max_in: nat,
    path: Seq<Seq<u8>>,
    to: Seq<u8>,
    deadline: nat,
) -> Seq<u8> {
    spec_router_swap_two_amounts(
        seq![0x4au8, 0x25u8, 0xd9u8, 0x4au8],
        amount_out,
        max_in,
        path,
        to,
        deadline,
    )
}

/// Appends the ABI word of `v` to `out`.
pub fn push_abi_word(out: &mut Vec<u8>, v: u128)
    ensures
        final(out)@ == old(out)@ + abi_word(v as nat),
{
    push_be_bytes(out, v, 32);
}

/// Appends the ABI word of a 20-byte address to `out`.
pub fn push_abi_address(out: &mut Vec<u8>, a: &Vec<u8>)
    requires
        a@.len() == 20,
    ensures
        final(out)@ == old(out)@ + abi_address_word(a@),
{
    push_be_bytes(out, 0, 12);
    push_all(out, a);
    assert(final(out)@ =~= old(out)@ + abi_address_word(a@));
}

/// Appends the address words of every path entry, in order.
pub fn push_abi_path(out: &mut Vec<u8>, path: &Vec<Vec<u8>>)
    requires
        forall|i: int| 0 <= i < path@.len() ==> (#[trigger] path@[i])@.len() == 20,
    ensures
        final(out)@ == old(out)@ + abi_address_words(path.deep_view()),
{
    let mut i: usize = 0;
    while i < path.len()
        invariant
            i <= path@.len(),
            forall|j: int| 0 <= j < path@.len() ==> (#[trigger] path@[j])@.len() == 20,
            out@ == old(out)@ + abi_address_words(path.deep_view().take(i as int)),
        decreases path@.len() - i,
    {
        push_abi_address(out, &path[i]);
        i = i + 1;
        proof {
            assert(path.deep_view().take(i as int).drop_last() =~= path.deep_view().take(
                i as int - 1,
            ));
            assert(path.deep_view().take(i as int).last() == path@[i as int - 1]@);
            assert(out@ =~= old(out)@ + abi_address_words(path.deep_view().take(i as int)));
        }
    }
    proof {
        assert(path.deep_view().take(path@.len() as int) =~= path.deep_view());
    }
}

pub fn encode_decimals_call() -> (r: Vec<u8>)
    ensures
        r@ == spec_decimals_call(),
{
    let mut out: Vec<u8> = Vec::new();
    out.push(0x31);
    out.push(0x3c);
    out.push(0xe5);
    out.push(0x67);
    proof {
        assert(out@ =~= spec_decimals_call());
    }
    out
}

pub fn encode_symbol_call() -> (r: Vec<u8>)
    ensures
        r@ == spec_symbol_call(),
{
    let mut out: Vec<u8> = Vec::new();
    out.push(0x95);
    out.push(0xd8);
    out.push(0x9b);
    out.push(0x41);
    proof {
        assert(out@ =~= spec_symbol_call());
    }
    out
}

pub fn encode_total_supply_call() -> (r: Vec<u8>)
    ensures
        r@ == spec_total_supply_call(),
{
    let mut out: Vec<u8> = Vec::new();
    out.push(0x18);
    out.push(0x16);
    out.push(0x0d);
    out.push(0xdd);
    proof {
        assert(out@ =~= spec_total_supply_call());
    }
    out
}

pub fn encode_balance_of_call(owner: &Vec<u8>) -> (r: Vec<u8>)
    requires
        owner@.len() == 20,
    ensures
        r@ == spec_balance_of_call(owner@),
{
    let mut out: Vec<u8> = Vec::new();
    out.push(0x70);
    out.push(0xa0);
    out.push(0x82);
    out.push(0x31);
    assert(out@ =~= seq![0x70u8, 0xa0u8, 0x82u8, 0x31u8]);
    push_abi_address(&mut out, owner);
    out
}

pub fn encode_allowance_call(owner: &Vec<u8>, spender: &Vec<u8>) -> (r: Vec<u8>)
    requires
        owner@.len() == 20,
        spender@.len() == 20,
    ensures
        r@ == spec_allowance_call(owner@, spender@),
{
    let mut out: Vec<u8> = Vec::new();
    out.push(0xdd);
    out.push(0x62);
    out.push(0xed);
    out.push(0x3e);
    assert(out@ =~= seq![0xddu8, 0x62u8, 0xedu8, 0x3eu8]);
    push_abi_address(&mut out, owner);
    push_abi_address(&mut out, spender);
    assert(out@ =~= spec_allowance_call(owner@, spender@));
    out
}

pub fn encode_transfer_call(to: &Vec<u8>, amount: u128) -> (r: Vec<u8>)
    requires
        to@.len() == 20,
    ensures
        r@ == spec_transfer_call(to@, amount as nat),
{
    let mut out: Vec<u8> = Vec::new();
    out.push(0xa9);
    out.push(0x05);
    out.push(0x9c);
    out.push(0xbb);
    assert(out@ =~= seq![0xa9u8, 0x05u8, 0x9cu8, 0xbbu8]);
    push_abi_address(&mut out, to);
    push_abi_word(&mut out, amount);
    assert(out@ =~= spec_transfer_call(to@, amount as nat));
    out
}

pub fn encode_approve_call(spender: &Vec<u8>, amount: u128) -> (r: Vec<u8>)
    requires
        spender@.len() == 20,
    ensures
        r@ == spec_approve_call(spender@, amount as nat),
{
    let mut out: Vec<u8> = Vec::new();
    out.push(0x09);
    out.push(0x5e);
    out.push(0xa7);
    out.push(0xb3);
    assert(out@ =~= seq![0x09u8, 0x5eu8, 0xa7u8, 0xb3u8]);
    push_abi_address(&mut out, spender);
    push_abi_word(&mut out, amount);
    assert(out@ =~= spec_approve_call(spender@, amount as nat));
    out
}

pub fn encode_transfer_from_call(from: &Vec<u8>, to: &Vec<u8>, amount: u128) -> (r: Vec<u8>)
    requires
        from@.len() == 20,
        to@.len() == 20,
    ensures
        r@ == spec_transfer_from_call(from@, to@, amount as nat),
{
    let mut out: Vec<u8> = Vec::new();
    out.push(0x23);
    out.push(0xb8);
    out.push(0x72);
    out.push(0xdd);
    assert(out@ =~= seq![0x23u8, 0xb8u8, 0x72u8, 0xddu8]);
    push_abi_address(&mut out, from);
    push_abi_address(&mut out, to);
    push_abi_word(&mut out, amount);
    assert(out@ =~= spec_transfer_from_call(from@, to@, amount as nat));
    out
}

pub fn encode_get_pair_call(token_a: &Vec<u8>, token_b: &Vec<u8>) -> (r: Vec<u8>)
    requires
        token_a@.len() == 20,
        token_b@.len() == 20,
    ensures
        r@ == spec_get_pair_call(token_a@, token_b@),
{
    let mut out: Vec<u8> = Vec::new();
    out.push(0xe6);
    out.push(0xa4);
    out.push(0x39);
    out.push(0x05);
    assert(out@ =~= seq![0xe6u8, 0xa4u8, 0x39u8, 0x05u8]);
    push_abi_address(&mut out, token_a);
    push_abi_address(&mut out, token_b);
    assert(out@ =~= spec_get_pair_call(token_a@, token_b@));
    out
}

pub fn encode_token0_call() -> (r: Vec<u8>)
    ensures
        r@ == spec_token0_call(),
{
    let mut out: Vec<u8> = Vec::new();
    out.push(0x0d);
    out.push(0xfe);
    out.push(0x16);
    out.push(0x81);
    proof {
        assert(out@ =~= spec_token0_call());
    }
    out
}

pub fn encode_token1_call() -> (r: Vec<u8>)
    ensures
        r@ == spec_token1_call(),
{
    let mut out: Vec<u8> = Vec::new();
    out.push(0xd2);
    out.push(0x12);
    out.push(0x20);
    out.push(0xa7);
    proof {
        assert(out@ =~= spec_token1_call());
    }
    out
}

pub fn encode_get_reserves_call() -> (r: Vec<u8>)
    ensures
        r@ == spec_get_reserves_call(),
{
    let mut out: Vec<u8> = Vec::new();
    out.push(0x09);
    out.push(0x02);
    out.push(0xf1);
    out.push(0xac);
    proof {
        assert(out@ =~= spec_get_reserves_call());
    }
    out
}

pub fn encode_quote_call(amount_a: u128, reserve_a: u128, reserve_b: u128) -> (r: Vec<u8>)
    ensures
        r@ == spec_quote_call(amount_a as nat, reserve_a as nat, reserve_b as nat),
{
    let mut out: Vec<u8> = Vec::new();
    out.push(0xad);
    out.push(0x61);
    out.push(0x5d);
    out.push(0xec);
    assert(out@ =~= seq![0xadu8, 0x61u8, 0x5du8, 0xecu8]);
    push_abi_word(&mut out, amount_a);
    push_abi_word(&mut out, reserve_a);
    push_abi_word(&mut out, reserve_b);
    assert(out@ =~= spec_quote_call(amount_a as nat, reserve_a as nat, reserve_b as nat));
    out
}

pub fn encode_get_amount_out_call(amount_in: u128, reserve_in: u128, reserve_out: u128) -> (r: Vec<
    u8,
>)
    ensures
        r@ == spec_get_amount_out_call(amount_in as nat, reserve_in as nat, reserve_out as nat),
{
    let mut out: Vec<u8> = Vec::new();
    out.push(0x05);
    out.push(0x4d);
    out.push(0x50);
    out.push(0xd4);
    assert(out@ =~= seq![0x05u8, 0x4du8, 0x50u8, 0xd4u8]);
    push_abi_word(&mut out, amount_in);
    push_abi_word(&mut out, reserve_in);
    push_abi_word(&mut out, reserve_out);
    assert(out@ =~= spec_get_amount_out_call(
        amount_in as nat,
        reserve_in as nat,
        reserve_out as nat,
    ));
    out
}

pub fn encode_get_amount_in_call(amount_out: u128, reserve_in: u128, reserve_out: u128) -> (r: Vec<
    u8,
>)
    ensures
        r@ == spec_get_amount_in_call(amount_out as nat, reserve_in as nat, reserve_out as nat),
{
    let mut out: Vec<u8> = Vec::new();
    out.push(0x85);
    out.push(0xf8);
    out.push(0xc2);
    out.push(0x59);
    assert(out@ =~= seq![0x85u8, 0xf8u8, 0xc2u8, 0x59u8]);
    push_abi_word(&mut out, amount_out);
    push_abi_word(&mut out, reserve_in);
    push_abi_word(&mut out, reserve_out);
    assert(out@ =~= spec_get_amount_in_call(
        amount_out as nat,
        reserve_in as nat,
        reserve_out as nat,
    ));
    out
}

/// Encodes a router swap call with one amount argument before the path.
fn encode_router_swap_one_amount(
    sel: &Vec<u8>,
    amount: u128,
    path: &Vec<Vec<u8>>,
    to: &Vec<u8>,
    deadline: u64,
) -> (r: Vec<u8>)
    requires
        sel@.len() == 4,
        to@.len() == 20,
        forall|i: int| 0 <= i < path@.len() ==> (#[trigger] path@[i])@.len() == 20,
        path@.len() <= 0xffff,
    ensures
        r@ == spec_router_swap_one_amount(
            sel@,
            amount as nat,
            path.deep_view(),
            to@,
            deadline as nat,
        ),
{
    let mut out: Vec<u8> = Vec::new();
    push_all(&mut out, sel);
    push_abi_word(&mut out, amount);
    push_abi_word(&mut out, 0x80);
    push_abi_address(&mut out, to);
    push_abi_word(&mut out, deadline as u128);
    push_abi_word(&mut out, path.len() as u128);
    push_abi_path(&mut out, path);
    assert(out@ =~= spec_router_swap_one_amount(
        sel@,
        amount as nat,
        path.deep_view(),
        to@,
        deadline as nat,
    ));
    out
}

/// Encodes a router swap call with two amount arguments before the path.
fn encode_router_swap_two_amounts(
    sel: &Vec<u8>,
    amount_a: u128,
    amount_b: u128,
    path: &Vec<Vec<u8>>,
    to: &Vec<u8>,
    deadline: u64,
) -> (r: Vec<u8>)
    requires
        sel@.len() == 4,
        to@.len() == 20,
        forall|i: int| 0 <= i < path@.len() ==> (#[trigger] path@[i])@.len() == 20,
        path@.len() <= 0xffff,
    ensures
        r@ == spec_router_swap_two_amounts(
            sel@,
            amount_a as nat,
            amount_b as nat,
            path.deep_view(),
            to@,
            deadline as nat,
        ),
{
    let mut out: Vec<u8> = Vec::new();
    push_all(&mut out, sel);
    push_abi_word(&mut out, amount_a);
    push_abi_word(&mut out, amount_b);
    push_abi_word(&mut out, 0xa0);
    push_abi_address(&mut out, to);
    push_abi_word(&mut out, deadline as u128);
    push_abi_word(&mut out, path.len() as u128);
    push_abi_path(&mut out, path);
    assert(out@ =~= spec_router_swap_two_amounts(
        sel@,
        amount_a as nat,
        amount_b as nat,
        path.deep_view(),
        to@,
        deadline as nat,
    ));
    out
}

/// Copies four selector bytes into a vector.
fn selector_vec(s0: u8, s1: u8, s2: u8, s3: u8) -> (r: Vec<u8>)
    ensures
        r@ == seq![s0, s1, s2, s3],
{
    let mut out: Vec<u8> = Vec::new();
    out.push(s0);
    out.push(s1);
    out.push(s2);
    out.push(s3);
    proof {
        assert(out@ =~= seq![s0, s1, s2, s3]);
    }
    out
}

pub fn encode_swap_exact_eth_call(
    min_out: u128,
    path: &Vec<Vec<u8>>,
    to: &Vec<u8>,
    deadline: u64,
) -> (r: Vec<u8>)
    requires
        to@.len() == 20,
        forall|i: int| 0 <= i < path@.len() ==> (#[trigger] path@[i])@.len() == 20,
        path@.len() <= 0xffff,
    ensures
        r@ == spec_swap_exact_eth_call(min_out as nat, path.deep_view(), to@, deadline as nat),
{
    let sel = selector_vec(0x7f, 0xf3, 0x6a, 0xb5);
    encode_router_swap_one_amount(&sel, min_out, path, to, deadline)
}

pub fn encode_swap_eth_for_exact_tokens_call(
    amount_out: u128,
    path: &Vec<Vec<u8>>,
    to: &Vec<u8>,
    deadline: u64,
) -> (r: Vec<u8>)
    requires
        to@.len() == 20,
        forall|i: int| 0 <= i < path@.len() ==> (#[trigger] path@[i])@.len() == 20,
        path@.len() <= 0xffff,
    ensures
        r@ == spec_swap_eth_for_exact_tokens_call(
            amount_out as nat,
            path.deep_view(),
            to@,
            deadline as nat,
        ),
{
    let sel = selector_vec(0xfb, 0x3b, 0xdb, 0x41);
    encode_router_swap_one_amount(&sel, amount_out, path, to, deadline)
}

pub fn encode_swap_exact_tokens_call(
    amount_in: u128,
    min_out: u128,
    path: &Vec<Vec<u8>>,
    to: &Vec<u8>,
    deadline: u64,
) -> (r: Vec<u8>)
    requires
        to@.len() == 20,
        forall|i: int| 0 <= i < path@.len() ==> (#[trigger] path@[i])@.len() == 20,
        path@.len() <= 0xffff,
    ensures
        r@ == spec_swap_exact_tokens_call(
            amount_in as nat,
            min_out as nat,
            path.deep_view(),
            to@,
            deadline as nat,
        ),
{
    let sel = selector_vec(0x38, 0xed, 0x17, 0x39);
    encode_router_swap_two_amounts(&sel, amount_in, min_out, path, to, deadline)
}

pub fn encode_swap_tokens_for_exact_tokens_call(
    amount_out: u128,
    max_in: u128,
    path: &Vec<Vec<u8>>,
    to: &Vec<u8>,
    deadline: u64,
) -> (r: Vec<u8>)
    requires
        to@.len() == 20,
        forall|i: int| 0 <= i < path@.len() ==> (#[trigger] path@[i])@.len() == 20,
        path@.len() <= 0xffff,
    ensures
        r@ == spec_swap_tokens_for_exact_tokens_call(
            amount_out as nat,
            max_in as nat,
            path.deep_view(),
            to@,
            deadline as nat,
        ),
{
    let sel = selector_vec(0x88, 0x03, 0xdb, 0xee);
    encode_router_swap_two_amounts(&sel, amount_out, max_in, path, to, deadline)
}

pub fn encode_swap_exact_tokens_for_eth_call(
    amount_in: u128,
    min_out: u128,
    path: &Vec<Vec<u8>>,
    to: &Vec<u8>,
    deadline: u64,
) -> (r: Vec<u8>)
    requires
        to@.len() == 20,
        forall|i: int| 0 <= i < path@.len() ==> (#[trigger] path@[i])@.len() == 20,
        path@.len() <= 0xffff,
    ensures
        r@ == spec_swap_exact_tokens_for_eth_call(
            amount_in as nat,
            min_out as nat,
            path.deep_view(),
            to@,
            deadline as nat,
        ),
{
    let sel = selector_vec(0x18, 0xcb, 0xaf, 0xe5);
    encode_router_swap_two_amounts(&sel, amount_in, min_out, path, to, deadline)
}

pub fn encode_swap_tokens_for_exact_eth_call(
    amount_out: u128,
    max_in: u128,
    path: &Vec<Vec<u8>>,
    to: &Vec<u8>,
    deadline: u64,
) -> (r: Vec<u8>)
    requires
        to@.len() == 20,
        forall|i: int| 0 <= i < path@.len() ==> (#[trigger] path@[i])@.len() == 20,
        path@.len() <= 0xffff,
    ensures
        r@ == spec_swap_tokens_for_exact_eth_call(
            amount_out as nat,
            max_in as nat,
            path.deep_view(),
            to@,
            deadline as nat,
        ),
{
    let sel = selector_vec(0x4a, 0x25, 0xd9, 0x4a);
    encode_router_swap_two_amounts(&sel, amount_out, max_in, path, to, deadline)
}

/// A byte string has value zero exactly when every byte is zero.
pub proof fn lemma_be_val_zero_iff(s: Seq<u8>)
    ensures
        be_val(s) == 0 <==> (forall|i: int| 0 <= i < s.len() ==> s[i] == 0),
    decreases s.len(),
{
    if s.len() > 0 {
        lemma_be_val_zero_iff(s.drop_last());
        if be_val(s) == 0 {
            assert(be_val(s.drop_last()) == 0 && s.last() == 0);
            assert forall|i: int| 0 <= i < s.len() implies s[i] == 0 by {
                if i < s.len() - 1 {
                    assert(s.drop_last()[i] == 0);
                    assert(s[i] == s.drop_last()[i]);
                } else {
                    assert(s[i] == s.last());
                }
            }
        } else {
            if forall|i: int| 0 <= i < s.len() ==> s[i] == 0 {
                assert forall|i: int|
                    0 <= i < s.drop_last().len() implies #[trigger] s.drop_last()[i] == 0 by {
                    assert(s[i] == 0);
                }
                assert(be_val(s.drop_last()) == 0);
                assert(s.last() == s[s.len() - 1]);
                assert(s.last() == 0);
                assert(be_val(s) == 0);
            }
        }
    }
}

/// Reads the 32-byte word at `at`, accepting it only when its value fits in
/// `numbytes` bytes; the machine-width guard behind every typed decode.
fn read_word_fitting(d: &Vec<u8>, at: usize, numbytes: usize) -> (r: Option<u128>)
    requires
        at + 32 <= d@.len(),
        1 <= numbytes <= 16,
    ensures
        match r {
            Some(v) => v as nat == be_val(d@.subrange(at as int, at + 32)) && (v as nat) < pow256(
                numbytes as nat,
            ),
            None => be_val(d@.subrange(at as int, at + 32)) >= pow256(numbytes as nat),
        },
{
    let blen = d.len();
    let prefix = 32 - numbytes;
    let ghost word = d@.subrange(at as int, at + 32);
    let ghost head = d@.subrange(at as int, at + prefix);
    let ghost tail = d@.subrange(at + prefix, at + 32);
    proof {
        assert(word =~= head + tail);
        lemma_be_val_append(head, tail);
        lemma_be_val_bound(tail);
    }
    let mut i: usize = 0;
    while i < prefix
        invariant
            i <= prefix,
            prefix == 32 - numbytes,
            1 <= numbytes <= 16,
            at + 32 <= blen,
            blen == d@.len(),
            head == d@.subrange(at as int, at + prefix),
            forall|j: int| 0 <= j < i ==> head[j] == 0,
        decreases prefix - i,
    {
        if d[at + i] != 0 {
            proof {
                let word = d@.subrange(at as int, at + 32);
                let head = d@.subrange(at as int, at + prefix);
                let tail = d@.subrange(at + prefix, at + 32);
                assert(word =~= head + tail);
                lemma_be_val_append(head, tail);
                assert(head[i as int] != 0);
                lemma_be_val_zero_iff(head);
                assert(be_val(head) >= 1);
                crate::bytes::lemma_pow256_pos(numbytes as nat);
                assert(be_val(head) * pow256(numbytes as nat) >= pow256(numbytes as nat))
                    by (nonlinear_arith)
                    requires
                        be_val(head) >= 1,
                        pow256(numbytes as nat) >= 1,
                ;
            }
            return None;
        }
        i = i + 1;
    }
    proof {
        lemma_be_val_zero_iff(head);
        assert(be_val(head) == 0);
    }
    let v = read_be_u128(d, at + prefix, numbytes);
    Some(v)
}

/// What a 32-byte unsigned-integer response decodes to.
pub open spec fn spec_decode_uint(d: Seq<u8>) -> Option<nat> {
    if d.len() == 32 {
        Some(be_val(d))
    } else {
        None
    }
}

/// What an `uint8` response (such as `decimals()`) decodes to.
pub open spec fn spec_decode_uint8(d: Seq<u8>) -> Option<nat> {
    if d.len() == 32 && be_val(d) < 256 {
        Some(be_val(d))
    } else {
        None
    }
}

/// What an address response (such as `getPair`'s) decodes to: the low 20
/// bytes of the word; the padding bytes are not validated.
pub open spec fn spec_decode_address(d: Seq<u8>) -> Option<Seq<u8>> {
    if d.len() == 32 {
        Some(d.subrange(12, 32))
    } else {
        None
    }
}

/// What a `getReserves()` response decodes to: three words.
pub open spec fn spec_decode_reserves(d: Seq<u8>) -> Option<(nat, nat, nat)> {
    if d.len() == 96 {
        Some(
            (be_val(d.subrange(0, 32)), be_val(d.subrange(32, 64)), be_val(d.subrange(64, 96))),
        )
    } else {
        None
    }
}

/// What a `string` response (such as `symbol()`'s) decodes to: a head
/// offset of 32, a length word, then that many bytes.
pub open spec fn spec_decode_string(d: Seq<u8>) -> Option<Seq<u8>> {
    if d.len() >= 64 && be_val(d.subrange(0, 32)) == 32 && 64 + be_val(d.subrange(32, 64))
        <= d.len() {
        Some(d.subrange(64, 64 + be_val(d.subrange(32, 64)) as int))
    } else {
        None
    }
}

/// Decodes an unsigned-integer response word. Fails with a codec error on a
/// malformed length, or when the value exceeds the machine width kept here.
pub fn decode_uint_response(d: &Vec<u8>) -> (r: Result<u128, WalletError>)
    ensures
        match r {
            Ok(v) => spec_decode_uint(d@) == Some(v as nat),
            Err(e) => e == WalletError::Codec && (spec_decode_uint(d@) is None || spec_decode_uint(
                d@,
            )->Some_0 >= pow256(16)),
        },
{
    if d.len() != 32 {
        return Err(WalletError::Codec);
    }
    proof {
        assert(d@.subrange(0, 32) =~= d@);
    }
    match read_word_fitting(d, 0, 16) {
        Some(v) => Ok(v),
        None => Err(WalletError::Codec),
    }
}

/// Decodes a `decimals()` response: an `uint8` held in one word.
pub fn decode_decimals_response(d: &Vec<u8>) -> (r: Result<u8, WalletError>)
    ensures
        match r {
            Ok(v) => spec_decode_uint8(d@) == Some(v as nat),
            Err(e) => e == WalletError::Codec && spec_decode_uint8(d@) is None,
        },
{
    if d.len() != 32 {
        return Err(WalletError::Codec);
    }
    proof {
        assert(d@.subrange(0, 32) =~= d@);
        assert(pow256(1) == 256) by {
            reveal_with_fuel(pow256, 2);
        };
    }
    match read_word_fitting(d, 0, 1) {
        Some(v) => Ok(v as u8),
        None => Err(WalletError::Codec),
    }
}

/// Decodes an address response word to its low 20 bytes.
pub fn decode_address_response(d: &Vec<u8>) -> (r: Result<Vec<u8>, WalletError>)
    ensures
        match r {
            Ok(a) => spec_decode_address(d@) == Some(a@) && a@.len() == 20,
            Err(e) => e == WalletError::Codec && spec_decode_address(d@) is None,
        },
{
    if d.len() != 32 {
        return Err(WalletError::Codec);
    }
    let mut a: Vec<u8> = Vec::new();
    let mut i: usize = 12;
    while i < 32
        invariant
            12 <= i <= 32,
            d@.len() == 32,
            a@ == d@.subrange(12, i as int),
        decreases 32 - i,
    {
        a.push(d[i]);
        i = i + 1;
        assert(a@ =~= d@.subrange(12, i as int));
    }
    Ok(a)
}

/// Decodes a `getReserves()` response into the two reserves and the last
/// update timestamp. Fails with a codec error on a malformed length or when
/// a word exceeds the width kept here.
pub fn decode_reserves_response(d: &Vec<u8>) -> (r: Result<(u128, u128, u32), WalletError>)
    ensures
        match r {
            Ok((r0, r1, ts)) => spec_decode_reserves(d@) == Some(
                (r0 as nat, r1 as nat, ts as nat),
            ),
            Err(e) => e == WalletError::Codec && (spec_decode_reserves(d@) is None
                || spec_decode_reserves(d@)->Some_0.0 >= pow256(16) || spec_decode_reserves(
                d@,
            )->Some_0.1 >= pow256(16) || spec_decode_reserves(d@)->Some_0.2 >= pow256(4)),
        },
{
    if d.len() != 96 {
        return Err(WalletError::Codec);
    }
    let r0 = match read_word_fitting(d, 0, 16) {
        Some(v) => v,
        None => {
            return Err(WalletError::Codec);
        },
    };
    let r1 = match read_word_fitting(d, 32, 16) {
        Some(v) => v,
        None => {
            return Err(WalletError::Codec);
        },
    };
    let ts = match read_word_fitting(d, 64, 4) {
        Some(v) => v as u32,
        None => {
            return Err(WalletError::Codec);
        },
    };
    proof {
        crate::bytes::lemma_pow256_mono(4, 16);
        reveal_with_fuel(pow256, 5);
    }
    Ok((r0, r1, ts))
}

/// Decodes a `string` response (such as `symbol()`'s) to its raw bytes.
pub fn decode_string_response(d: &Vec<u8>) -> (r: Result<Vec<u8>, WalletError>)
    ensures
        match r {
            Ok(s) => spec_decode_string(d@) == Some(s@),
            Err(e) => e == WalletError::Codec && spec_decode_string(d@) is None,
        },
{
    let dlen = d.len();
    if dlen < 64 {
        return Err(WalletError::Codec);
    }
    let off = match read_word_fitting(d, 0, 16) {
        Some(v) => v,
        None => {
            proof {
                lemma_pow256_16();
            }
            return Err(WalletError::Codec);
        },
    };
    if off != 32 {
        return Err(WalletError::Codec);
    }
    let len = match read_word_fitting(d, 32, 16) {
        Some(v) => v,
        None => {
            // The length word exceeds sixteen bytes, so it certainly
            // exceeds what the response itself could hold.
            proof {
                lemma_pow256_16();
            }
            return Err(WalletError::Codec);
        },
    };
    if (len as u128) > (dlen as u128) {
        return Err(WalletError::Codec);
    }
    let len = len as usize;
    if len > dlen - 64 {
        return Err(WalletError::Codec);
    }
    let mut s: Vec<u8> = Vec::new();
    let mut i: usize = 0;
    while i < len
        invariant
            i <= len,
            64 + len <= dlen,
            dlen == d@.len(),
            s@ == d@.subrange(64, 64 + i as int),
        decreases len - i,
    {
        s.push(d[64 + i]);
        i = i + 1;
        assert(s@ =~= d@.subrange(64, 64 + i as int));
    }
    Ok(s)
}

/// Builds a one-word unsigned-integer response, the inverse of
/// `decode_uint_response` on values that fit.
pub fn encode_uint_response(v: u128) -> (r: Vec<u8>)
    ensures
        r@ == abi_word(v as nat),
        spec_decode_uint(r@) == Some(v as nat),
{
    let mut out: Vec<u8> = Vec::new();
    push_abi_word(&mut out, v);
    proof {
        crate::bytes::lemma_be_bytes_len(v as nat, 32);
        lemma_pow256_16();
        lemma_pow256_mono(16, 32);
        lemma_be_val_be_bytes(v as nat, 32);
    }
    out
}

/// Builds a one-word address response, the inverse of
/// `decode_address_response`.
pub fn encode_address_response(a: &Vec<u8>) -> (r: Vec<u8>)
    requires
        a@.len() == 20,
    ensures
        r@ == abi_address_word(a@),
        spec_decode_address(r@) == Some(a@),
{
    let mut out: Vec<u8> = Vec::new();
    push_abi_address(&mut out, a);
    proof {
        crate::bytes::lemma_be_bytes_len(0, 12);
        assert(out@.subrange(12, 32) =~= a@);
    }
    out
}

/// Builds a three-word `getReserves()` response, the inverse of
/// `decode_reserves_response`.
pub fn encode_reserves_response(r0: u128, r1: u128, ts: u32) -> (r: Vec<u8>)
    ensures
        spec_decode_reserves(r@) == Some((r0 as nat, r1 as nat, ts as nat)),
{
    let mut out: Vec<u8> = Vec::new();
    push_abi_word(&mut out, r0);
    push_abi_word(&mut out, r1);
    push_abi_word(&mut out, ts as u128);
    proof {
        lemma_pow256_16();
        crate::bytes::lemma_pow256_mono(4, 16);
        reveal_with_fuel(pow256, 5);
        lemma_words_3(r0 as nat, r1 as nat, ts as nat);
        assert(out@ =~= abi_word(r0 as nat) + abi_word(r1 as nat) + abi_word(ts as nat));
    }
    out
}

/// The three words of a reserves response read back as their values.
proof fn lemma_words_3(a: nat, b: nat, c: nat)
    requires
        a < pow256(16),
        b < pow256(16),
        c < pow256(16),
    ensures
        ({
            let d = abi_word(a) + abi_word(b) + abi_word(c);
            d.len() == 96 && be_val(d.subrange(0, 32)) == a && be_val(d.subrange(32, 64)) == b
                && be_val(d.subrange(64, 96)) == c
        }),
{
    let d = abi_word(a) + abi_word(b) + abi_word(c);
    lemma_be_bytes_len_3(a, b, c);
    lemma_pow256_16();
    lemma_pow256_mono(16, 32);
    assert(d.subrange(0, 32) =~= abi_word(a));
    assert(d.subrange(32, 64) =~= abi_word(b));
    assert(d.subrange(64, 96) =~= abi_word(c));
    lemma_be_val_be_bytes(a, 32);
    lemma_be_val_be_bytes(b, 32);
    lemma_be_val_be_bytes(c, 32);
}

proof fn lemma_be_bytes_len_3(a: nat, b: nat, c: nat)
    ensures
        abi_word(a).len() == 32,
        abi_word(b).len() == 32,
        abi_word(c).len() == 32,
{
    crate::bytes::lemma_be_bytes_len(a, 32);
    crate::bytes::lemma_be_bytes_len(b, 32);
    crate::bytes::lemma_be_bytes_len(c, 32);
}

/// Builds a padded `string` response, the inverse of
/// `decode_string_response`.
pub fn encode_string_response(s: &Vec<u8>) -> (r: Vec<u8>)
    requires
        s@.len() <= 0xffffffff,
    ensures
        spec_decode_string(r@) == Some(s@),
{
    let slen = s.len();
    let pad = (32 - (slen % 32)) % 32;
    let mut out: Vec<u8> = Vec::new();
    push_abi_word(&mut out, 32);
    push_abi_word(&mut out, slen as u128);
    push_all(&mut out, s);
    push_be_bytes(&mut out, 0, pad);
    proof {
        let d = out@;
        crate::bytes::lemma_be_bytes_len(32, 32);
        crate::bytes::lemma_be_bytes_len(slen as nat, 32);
        crate::bytes::lemma_be_bytes_len(0, pad as nat);
        lemma_pow256_16();
        lemma_pow256_mono(16, 32);
        lemma_be_val_be_bytes(32, 32);
        lemma_be_val_be_bytes(slen as nat, 32);
        assert(d.subrange(0, 32) =~= abi_word(32));
        assert(d.subrange(32, 64) =~= abi_word(slen as nat));
        assert(d.subrange(64, 64 + slen as int) =~= s@);
    }
    out
}

/// The `uint` response round trip: encoding a value and decoding it again
/// yields the value, for every value a word can carry.
pub proof fn lemma_uint_response_round_trip(v: nat)
    requires
        v < pow256(32),
    ensures
        spec_decode_uint(abi_word(v)) == Some(v),
{
    crate::bytes::lemma_be_bytes_len(v, 32);
    lemma_be_val_be_bytes(v, 32);
}

/// The `uint8` response round trip: a `decimals()` value encoded as a word
/// decodes back to itself.
pub proof fn lemma_uint8_response_round_trip(v: nat)
    requires
        v < 256,
    ensures
        spec_decode_uint8(abi_word(v)) == Some(v),
{
    lemma_pow256_16();
    lemma_pow256_mono(16, 32);
    crate::bytes::lemma_be_bytes_len(v, 32);
    lemma_be_val_be_bytes(v, 32);
}

/// The address response round trip: encoding an address and decoding it
/// again yields the address.
pub proof fn lemma_address_response_round_trip(a: Seq<u8>)
    requires
        a.len() == 20,
    ensures
        spec_decode_address(abi_address_word(a)) == Some(a),
{
    crate::bytes::lemma_be_bytes_len(0, 12);
    assert(abi_address_word(a).subrange(12, 32) =~= a);
}

} // verus!
