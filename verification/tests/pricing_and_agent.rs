use trader::agent::{lifecycle_step, prepare_send, WalletEvent, WalletState};
use trader::hex::{decode_hex, parse_eth_address, parse_key_bytes};
use trader::price::compute_price;
use trader::registry::{factory_address, router_address, swap_addresses, weth_address};
use trader::wallet::Wallet;
use trader::WalletError;

fn hex(s: &str) -> Vec<u8> {
    decode_hex(&s.as_bytes().to_vec()).expect("test constant is valid hexadecimal")
}

/// Renders a quote's two prices the way the reporting side does: each
/// reserve adjusted by its decimals, each direction divided independently.
fn as_floats(reserve0: u128, reserve1: u128, decimals0: u8, decimals1: u8) -> (f64, f64) {
    let a0 = reserve0 as f64 / 10f64.powi(decimals0 as i32);
    let a1 = reserve1 as f64 / 10f64.powi(decimals1 as i32);
    (a0 / a1, a1 / a0)
}

#[test]
fn price_of_a_two_thousand_to_one_pool() {
    let reserve0: u128 = 2000 * 1_000_000_000_000_000_000;
    let reserve1: u128 = 1_000_000_000_000_000_000;
    let q = compute_price(reserve0, reserve1, 18, 18).expect("both reserves are positive");
    let (p0, p1) = as_floats(q.reserve0, q.reserve1, q.decimals0, q.decimals1);
    assert!((p0 - 2000.0).abs() < 1e-9);
    assert!((p1 - 0.0005).abs() < 1e-9);
}

#[test]
fn zero_reserves_have_no_price() {
    assert_eq!(
        compute_price(2000, 0, 18, 18).map(|_| ()),
        Err(WalletError::ZeroReserve)
    );
    assert_eq!(
        compute_price(0, 2000, 18, 18).map(|_| ()),
        Err(WalletError::ZeroReserve)
    );
}

#[test]
fn price_respects_differing_decimals() {
    // 3000 units of a 6-decimal token against 1 unit of an 18-decimal token
    let q = compute_price(3_000_000_000, 1_000_000_000_000_000_000, 6, 18).unwrap();
    let (p0, p1) = as_floats(q.reserve0, q.reserve1, q.decimals0, q.decimals1);
    assert!((p0 - 3000.0).abs() < 1e-6);
    assert!((p1 - (1.0 / 3000.0)).abs() < 1e-9);
}

#[test]
fn registry_knows_optimism_and_sepolia() {
    let w10 = weth_address(10).unwrap();
    assert_eq!(w10, hex("4200000000000000000000000000000000000006"));
    let w_sep = weth_address(11155111).unwrap();
    assert_eq!(w_sep, hex("7b79995e5f793a07bc00c21412e50ecae098e7f9"));
    let f = factory_address(10).unwrap();
    assert_eq!(f, hex("7e0987e5b3a30e3f2828572bb659a548460a3003"));
    let r_sep = router_address(11155111).unwrap();
    assert_eq!(r_sep, hex("c532a74256d3db42d0bf7a0400fefdbad7694008"));
}

#[test]
fn unknown_chain_is_a_config_error() {
    assert!(weth_address(1).is_none());
    assert!(factory_address(5).is_none());
    assert!(router_address(42).is_none());
    match swap_addresses(1) {
        Err(e) => assert_eq!(e, WalletError::Config),
        Ok(_) => panic!("mainnet is not in the registry"),
    }
}

#[test]
fn swap_addresses_bundle_matches_the_single_lookups() {
    let (w, f, r) = swap_addresses(11155111).unwrap();
    assert_eq!(w, weth_address(11155111).unwrap());
    assert_eq!(f, factory_address(11155111).unwrap());
    assert_eq!(r, router_address(11155111).unwrap());
}

#[test]
fn addresses_parse_with_and_without_prefix() {
    let plain = parse_eth_address(&b"7b79995e5f793A07Bc00c21412e50Ecae098E7f9".to_vec()).unwrap();
    let prefixed =
        parse_eth_address(&b"0x7b79995e5f793A07Bc00c21412e50Ecae098E7f9".to_vec()).unwrap();
    assert_eq!(plain, prefixed);
    assert_eq!(plain, hex("7b79995e5f793a07bc00c21412e50ecae098e7f9"));
}

#[test]
fn malformed_addresses_are_rejected() {
    assert!(parse_eth_address(&b"7b79995e5f793A07".to_vec()).is_err());
    assert!(parse_eth_address(&b"0xzz79995e5f793A07Bc00c21412e50Ecae098E7f9".to_vec()).is_err());
    assert!(parse_eth_address(&b"7b79995e5f793A07Bc00c21412e50Ecae098E7f".to_vec()).is_err());
}

#[test]
fn known_key_parses_to_its_known_address() {
    let key =
        parse_key_bytes(&b"0x4646464646464646464646464646464646464646464646464646464646464646"
            .to_vec())
            .unwrap();
    let wallet = Wallet::from_key_bytes(key).expect("a valid key");
    assert_eq!(wallet.address, hex("9d8a62f656a8d1615c1294fd71e9cfb3e4855a4f"));
}

#[test]
fn invalid_key_bytes_are_rejected() {
    match Wallet::from_key_bytes(vec![0u8; 32]) {
        Err(e) => assert_eq!(e, WalletError::Signing),
        Ok(_) => panic!("the zero scalar is not a key"),
    }
    match Wallet::from_key_bytes(vec![0xffu8; 32]) {
        Err(e) => assert_eq!(e, WalletError::Signing),
        Ok(_) => panic!("a scalar above the order is not a key"),
    }
}

#[test]
fn lifecycle_unlocks_only_on_success() {
    assert_eq!(
        lifecycle_step(WalletState::NoSecret, WalletEvent::KeyAccepted),
        WalletState::Unlocked
    );
    assert_eq!(
        lifecycle_step(WalletState::NoSecret, WalletEvent::KeyRejected),
        WalletState::NoSecret
    );
    assert_eq!(
        lifecycle_step(WalletState::Locked, WalletEvent::UnlockSucceeded),
        WalletState::Unlocked
    );
    assert_eq!(
        lifecycle_step(WalletState::Locked, WalletEvent::UnlockFailed),
        WalletState::Locked
    );
}

#[test]
fn lifecycle_never_leaves_unlocked() {
    for event in [
        WalletEvent::KeyAccepted,
        WalletEvent::KeyRejected,
        WalletEvent::UnlockSucceeded,
        WalletEvent::UnlockFailed,
    ] {
        assert_eq!(lifecycle_step(WalletState::Unlocked, event), WalletState::Unlocked);
    }
}

#[test]
fn prepared_send_uses_the_transfer_gas_limit() {
    let to = hex("1111111111111111111111111111111111111111");
    let tx = prepare_send(to.clone(), 42, 1, 7, 10);
    assert_eq!(tx.nonce, 1);
    assert_eq!(tx.gas_price, 7);
    assert_eq!(tx.gas_limit, 21000);
    assert_eq!(tx.to, to);
    assert_eq!(tx.value, 42);
    assert!(tx.input.is_empty());
    assert_eq!(tx.chain_id, 10);
}
