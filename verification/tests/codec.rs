use sha3::{Digest, Keccak256};
use trader::abi::{
    decode_address_response, decode_decimals_response, decode_reserves_response,
    decode_string_response, decode_uint_response, encode_address_response, encode_allowance_call,
    encode_approve_call, encode_balance_of_call, encode_decimals_call, encode_get_amount_in_call,
    encode_get_amount_out_call, encode_get_pair_call, encode_get_reserves_call, encode_quote_call,
    encode_reserves_response, encode_string_response, encode_swap_eth_for_exact_tokens_call,
    encode_swap_exact_eth_call, encode_swap_exact_tokens_call,
    encode_swap_exact_tokens_for_eth_call, encode_swap_tokens_for_exact_eth_call,
    encode_swap_tokens_for_exact_tokens_call, encode_symbol_call, encode_token0_call,
    encode_token1_call,
    encode_total_supply_call, encode_transfer_call, encode_transfer_from_call,
    encode_uint_response,
};
use trader::WalletError;

fn selector(signature: &str) -> Vec<u8> {
    let digest = Keccak256::digest(signature.as_bytes());
    digest[0..4].to_vec()
}

fn addr(fill: u8) -> Vec<u8> {
    vec![fill; 20]
}

#[test]
fn erc20_selectors_match_their_signatures() {
    assert_eq!(encode_decimals_call()[0..4].to_vec(), selector("decimals()"));
    assert_eq!(encode_symbol_call()[0..4].to_vec(), selector("symbol()"));
    assert_eq!(encode_total_supply_call()[0..4].to_vec(), selector("totalSupply()"));
    assert_eq!(encode_balance_of_call(&addr(0x11))[0..4].to_vec(), selector("balanceOf(address)"));
    assert_eq!(
        encode_allowance_call(&addr(0x11), &addr(0x22))[0..4].to_vec(),
        selector("allowance(address,address)")
    );
    assert_eq!(encode_transfer_call(&addr(0x11), 1)[0..4].to_vec(), selector("transfer(address,uint256)"));
    assert_eq!(encode_approve_call(&addr(0x11), 1)[0..4].to_vec(), selector("approve(address,uint256)"));
    assert_eq!(
        encode_transfer_from_call(&addr(0x11), &addr(0x22), 1)[0..4].to_vec(),
        selector("transferFrom(address,address,uint256)")
    );
}

#[test]
fn amm_selectors_match_their_signatures() {
    assert_eq!(
        encode_get_pair_call(&addr(0x11), &addr(0x22))[0..4].to_vec(),
        selector("getPair(address,address)")
    );
    assert_eq!(encode_token0_call()[0..4].to_vec(), selector("token0()"));
    assert_eq!(encode_token1_call()[0..4].to_vec(), selector("token1()"));
    assert_eq!(encode_get_reserves_call()[0..4].to_vec(), selector("getReserves()"));
    assert_eq!(encode_quote_call(1, 2, 3)[0..4].to_vec(), selector("quote(uint256,uint256,uint256)"));
    assert_eq!(
        encode_get_amount_out_call(1, 2, 3)[0..4].to_vec(),
        selector("getAmountOut(uint256,uint256,uint256)")
    );
    assert_eq!(
        encode_get_amount_in_call(1, 2, 3)[0..4].to_vec(),
        selector("getAmountIn(uint256,uint256,uint256)")
    );
    assert_eq!(
        encode_swap_exact_eth_call(0, &vec![addr(0x11), addr(0x22)], &addr(0x33), 1)[0..4].to_vec(),
        selector("swapExactETHForTokens(uint256,address[],address,uint256)")
    );
    assert_eq!(
        encode_swap_exact_tokens_call(1, 0, &vec![addr(0x11), addr(0x22)], &addr(0x33), 1)[0..4].to_vec(),
        selector("swapExactTokensForTokens(uint256,uint256,address[],address,uint256)")
    );
    assert_eq!(
        encode_swap_tokens_for_exact_tokens_call(1, 9, &vec![addr(0x11), addr(0x22)], &addr(0x33), 1)[0..4]
            .to_vec(),
        selector("swapTokensForExactTokens(uint256,uint256,address[],address,uint256)")
    );
    assert_eq!(
        encode_swap_exact_tokens_for_eth_call(1, 0, &vec![addr(0x11), addr(0x22)], &addr(0x33), 1)[0..4]
            .to_vec(),
        selector("swapExactTokensForETH(uint256,uint256,address[],address,uint256)")
    );
    assert_eq!(
        encode_swap_tokens_for_exact_eth_call(1, 9, &vec![addr(0x11), addr(0x22)], &addr(0x33), 1)[0..4]
            .to_vec(),
        selector("swapTokensForExactETH(uint256,uint256,address[],address,uint256)")
    );
    assert_eq!(
        encode_swap_eth_for_exact_tokens_call(1, &vec![addr(0x11), addr(0x22)], &addr(0x33), 1)[0..4]
            .to_vec(),
        selector("swapETHForExactTokens(uint256,address[],address,uint256)")
    );
}

#[test]
fn balance_of_call_pads_the_owner_into_one_word() {
    let call = encode_balance_of_call(&addr(0xab));
    assert_eq!(call.len(), 36);
    assert_eq!(call[4..16].to_vec(), vec![0u8; 12]);
    assert_eq!(call[16..36].to_vec(), addr(0xab));
}

#[test]
fn swap_call_layout_holds_offset_deadline_and_path() {
    let path = vec![addr(0x11), addr(0x22)];
    let to = addr(0x33);
    let deadline: u64 = 1_700_001_200;
    let call = encode_swap_exact_eth_call(777, &path, &to, deadline);
    assert_eq!(call.len(), 4 + 7 * 32);
    // head word 1: the minimum output
    assert_eq!(call[4 + 31], 777u16.to_be_bytes()[1]);
    assert_eq!(call[4 + 30], 777u16.to_be_bytes()[0]);
    // head word 2: the offset of the path, 0x80
    assert_eq!(call[4 + 63], 0x80);
    // head word 3: the recipient
    assert_eq!(call[4 + 76..4 + 96].to_vec(), to);
    // head word 4: the deadline
    assert_eq!(call[4 + 120..4 + 128].to_vec(), deadline.to_be_bytes().to_vec());
    // tail: the path length, then its addresses
    assert_eq!(call[4 + 159], 2);
    assert_eq!(call[4 + 172..4 + 192].to_vec(), path[0]);
    assert_eq!(call[4 + 204..4 + 224].to_vec(), path[1]);
}

#[test]
fn uint_response_round_trips() {
    let word = encode_uint_response(123_456_789_000_000_000_000_000_000u128);
    assert_eq!(word.len(), 32);
    assert_eq!(decode_uint_response(&word), Ok(123_456_789_000_000_000_000_000_000u128));
}

#[test]
fn uint_response_with_wrong_length_fails() {
    let word = vec![0u8; 31];
    assert_eq!(decode_uint_response(&word), Err(WalletError::Codec));
}

#[test]
fn erc20_info_response_round_trips() {
    // decimals(): a synthetic uint8 response decodes to the original value
    let decimals_word = encode_uint_response(18);
    assert_eq!(decode_decimals_response(&decimals_word), Ok(18u8));
    // symbol(): a synthetic string response decodes to the original bytes
    let symbol_response = encode_string_response(&b"WETH".to_vec());
    assert_eq!(decode_string_response(&symbol_response), Ok(b"WETH".to_vec()));
}

#[test]
fn decimals_above_one_byte_fail() {
    let word = encode_uint_response(256);
    assert_eq!(decode_decimals_response(&word), Err(WalletError::Codec));
}

#[test]
fn address_response_round_trips() {
    let pair = addr(0x5a);
    let word = encode_address_response(&pair);
    assert_eq!(word.len(), 32);
    assert_eq!(decode_address_response(&word), Ok(pair));
}

#[test]
fn string_response_is_padded_to_words() {
    let symbol_response = encode_string_response(&b"WETH".to_vec());
    assert_eq!(symbol_response.len(), 96);
    assert_eq!(symbol_response[31], 0x20);
    assert_eq!(symbol_response[63], 4);
    assert_eq!(symbol_response[64..68].to_vec(), b"WETH".to_vec());
    assert_eq!(symbol_response[68..96].to_vec(), vec![0u8; 28]);
}

#[test]
fn string_response_too_short_fails() {
    let d = vec![0u8; 63];
    assert_eq!(decode_string_response(&d), Err(WalletError::Codec));
}

#[test]
fn reserves_response_round_trips() {
    let r0: u128 = 2_000_000_000_000_000_000_000u128;
    let r1: u128 = 1_000_000_000_000_000_000u128;
    let ts: u32 = 1_700_000_000;
    let response = encode_reserves_response(r0, r1, ts);
    assert_eq!(response.len(), 96);
    assert_eq!(decode_reserves_response(&response), Ok((r0, r1, ts)));
}

#[test]
fn reserves_response_with_wrong_length_fails() {
    let d = vec![0u8; 64];
    assert_eq!(decode_reserves_response(&d), Err(WalletError::Codec));
}
