use k256::ecdsa::signature::hazmat::PrehashVerifier;
use k256::ecdsa::{Signature, SigningKey, VerifyingKey};
use trader::agent::prepare_send;
use trader::hex::decode_hex;
use trader::swap::{build_swap, swap_deadline};
use trader::tx::{assemble, sighash, sign_with_key_bytes, CallKind, UnsignedTransaction};

fn hex(s: &str) -> Vec<u8> {
    decode_hex(&s.as_bytes().to_vec()).expect("test constant is valid hexadecimal")
}

/// Reads the RLP items of one encoded list: each item as its raw payload
/// bytes. The test oracle for what the library emits.
fn rlp_list_items(buf: &[u8]) -> Vec<Vec<u8>> {
    let b0 = buf[0] as usize;
    let payload_start = if b0 >= 0xf8 { 1 + (b0 - 0xf7) } else { 1 };
    let mut items: Vec<Vec<u8>> = Vec::new();
    let mut i = payload_start;
    while i < buf.len() {
        let h = buf[i] as usize;
        if h < 0x80 {
            items.push(vec![buf[i]]);
            i += 1;
        } else if h <= 0xb7 {
            let len = h - 0x80;
            items.push(buf[i + 1..i + 1 + len].to_vec());
            i += 1 + len;
        } else {
            let ll = h - 0xb7;
            let mut len = 0usize;
            for j in 0..ll {
                len = len * 256 + buf[i + 1 + j] as usize;
            }
            items.push(buf[i + 1 + ll..i + 1 + ll + len].to_vec());
            i += 1 + ll + len;
        }
    }
    items
}

fn be_value(bytes: &[u8]) -> u128 {
    let mut v = 0u128;
    for b in bytes {
        v = v * 256 + *b as u128;
    }
    v
}

#[test]
fn replay_protected_sighash_matches_the_known_vector() {
    let to = hex("3535353535353535353535353535353535353535");
    let tx = assemble(
        CallKind::PlainTransfer,
        to,
        1_000_000_000_000_000_000,
        None,
        9,
        20_000_000_000,
        21000,
        1,
    );
    let digest = sighash(&tx);
    assert_eq!(digest, hex("daf5a779ae972f972197303d7b574746c7ef83eadac0f2791ad23db92e4c8e53"));
}

#[test]
fn signed_transfer_matches_the_known_vector() {
    let key = hex("4646464646464646464646464646464646464646464646464646464646464646");
    let to = hex("3535353535353535353535353535353535353535");
    let tx = assemble(
        CallKind::PlainTransfer,
        to,
        1_000_000_000_000_000_000,
        None,
        9,
        20_000_000_000,
        21000,
        1,
    );
    let signed = sign_with_key_bytes(key, tx).expect("a valid key signs");
    let expected = hex(
        "f86c098504a817c800825208943535353535353535353535353535353535353535880de0b6b3a76400008025a028ef61340bd939bc2195fe537567866003e1a15d3c71ff63e1590620aa636276a067cbe9d8997f761aecb703304b3800ccf555c9f3dc64214b297fb1966a3b6d83",
    );
    assert_eq!(signed.raw, expected);
}

#[test]
fn signed_transfer_fields_and_signature_check_out() {
    let key = hex("4646464646464646464646464646464646464646464646464646464646464646");
    let to = hex("1111111111111111111111111111111111111111");
    let chain_id: u64 = 11155111;
    let tx = prepare_send(to.clone(), 1000, 5, 100, chain_id);
    assert_eq!(tx.gas_limit, 21000);
    assert!(tx.input.is_empty());
    let digest = sighash(&tx);
    let signed = sign_with_key_bytes(key.clone(), tx).expect("a valid key signs");

    // the decoded fields match the inputs exactly
    let items = rlp_list_items(&signed.raw);
    assert_eq!(items.len(), 9);
    assert_eq!(be_value(&items[0]), 5); // nonce
    assert_eq!(be_value(&items[1]), 100); // gas price
    assert_eq!(be_value(&items[2]), 21000); // gas limit
    assert_eq!(items[3], to); // destination
    assert_eq!(be_value(&items[4]), 1000); // value
    assert!(items[5].is_empty()); // no call data
    let v = be_value(&items[6]);
    let parity = v - (chain_id as u128 * 2 + 35);
    assert!(parity == 0 || parity == 1); // chain-id-bound recovery value

    // the signature verifies against the wallet's public key
    let sk = SigningKey::from_slice(&key).unwrap();
    let vk: VerifyingKey = *sk.verifying_key();
    let mut sig_bytes = signed.sig_r.clone();
    sig_bytes.extend_from_slice(&signed.sig_s);
    let sig = Signature::from_slice(&sig_bytes).unwrap();
    vk.verify_prehash(&digest, &sig).expect("the signature verifies");
}

#[test]
fn sequential_sends_differ_only_in_nonce_and_signature() {
    let key = hex("4646464646464646464646464646464646464646464646464646464646464646");
    let to = hex("2222222222222222222222222222222222222222");
    let tx1 = prepare_send(to.clone(), 1000, 7, 100, 11155111);
    let tx2 = prepare_send(to.clone(), 1000, 8, 100, 11155111);
    assert!(tx1.nonce < tx2.nonce);
    assert_eq!(tx1.gas_price, tx2.gas_price);
    assert_eq!(tx1.gas_limit, tx2.gas_limit);
    assert_eq!(tx1.to, tx2.to);
    assert_eq!(tx1.value, tx2.value);
    assert_eq!(tx1.input, tx2.input);
    assert_eq!(tx1.chain_id, tx2.chain_id);
    let s1 = sign_with_key_bytes(key.clone(), tx1).unwrap();
    let s2 = sign_with_key_bytes(key, tx2).unwrap();
    let i1 = rlp_list_items(&s1.raw);
    let i2 = rlp_list_items(&s2.raw);
    assert_eq!(be_value(&i1[0]), 7);
    assert_eq!(be_value(&i2[0]), 8);
    // every non-signature field but the nonce agrees
    for k in 1..6 {
        assert_eq!(i1[k], i2[k]);
    }
    assert!(s1.raw != s2.raw);
}

#[test]
fn signing_the_same_transaction_twice_yields_identical_bytes() {
    let key = hex("4646464646464646464646464646464646464646464646464646464646464646");
    let to = hex("3333333333333333333333333333333333333333");
    let tx1 = prepare_send(to.clone(), 1000, 5, 100, 11155111);
    let tx2 = prepare_send(to, 1000, 5, 100, 11155111);
    let s1 = sign_with_key_bytes(key.clone(), tx1).expect("a valid key signs");
    let s2 = sign_with_key_bytes(key, tx2).expect("a valid key signs");
    assert_eq!(s1.raw, s2.raw);
}

#[test]
fn zero_key_is_rejected() {
    let key = vec![0u8; 32];
    let to = hex("2222222222222222222222222222222222222222");
    let tx = prepare_send(to, 1, 0, 1, 1);
    assert!(sign_with_key_bytes(key, tx).is_err());
}

#[test]
fn swap_deadline_is_twenty_minutes_from_now() {
    assert_eq!(swap_deadline(1_700_000_000), 1_700_001_200);
}

#[test]
fn built_swap_carries_router_value_deadline_and_boosted_gas() {
    let trader_addr = hex("9d8a62f656a8d1615c1294fd71e9cfb3e4855a4f");
    let router = hex("c532a74256d3db42d0bf7a0400fefdbad7694008");
    let weth = hex("7b79995e5f793a07bc00c21412e50ecae098e7f9");
    let token = hex("aaaaaaaaaaaaaaaaaaaaaaaaaaaaaaaaaaaaaaaa");
    let now: u64 = 1_700_000_000;
    let tx: UnsignedTransaction = build_swap(
        &trader_addr,
        11155111,
        router.clone(),
        vec![weth.clone(), token.clone()],
        50_000,
        0,
        now,
        3,
        1_000_000_000,
    );
    assert_eq!(tx.to, router);
    assert_eq!(tx.value, 50_000);
    assert_eq!(tx.nonce, 3);
    assert_eq!(tx.gas_price, 8_000_000_000);
    assert_eq!(tx.gas_limit, 220000);
    assert_eq!(tx.chain_id, 11155111);
    // the deadline embedded in the call data is exactly now + 1200
    let deadline = be_value(&tx.input[4 + 96..4 + 128]);
    assert_eq!(deadline, (now + 1200) as u128);
    // the path rides behind the head: wrapped native token, then the token
    assert_eq!(tx.input[4 + 172..4 + 192].to_vec(), weth);
    assert_eq!(tx.input[4 + 204..4 + 224].to_vec(), token);
}
