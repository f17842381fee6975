use trader::secret::{decrypt_data, encrypt_data, secret_from_bytes, secret_to_bytes};
use trader::WalletError;

#[test]
fn encrypt_then_decrypt_yields_plaintext() {
    let plaintext: Vec<u8> = b"4646464646464646464646464646464646464646464646464646464646464646"
        .to_vec();
    let password: Vec<u8> = b"correct horse battery staple".to_vec();
    let secret = encrypt_data(&plaintext, &password);
    let recovered = decrypt_data(&secret, &password).expect("decryption with the right password");
    assert_eq!(recovered, plaintext);
}

#[test]
fn decrypt_with_wrong_password_fails() {
    let plaintext: Vec<u8> = b"secret key material".to_vec();
    let password: Vec<u8> = b"password-one".to_vec();
    let other: Vec<u8> = b"password-two".to_vec();
    let secret = encrypt_data(&plaintext, &password);
    let r = decrypt_data(&secret, &other);
    assert_eq!(r, Err(WalletError::Decryption));
}

#[test]
fn decrypt_tampered_ciphertext_fails() {
    let plaintext: Vec<u8> = b"secret key material".to_vec();
    let password: Vec<u8> = b"password-one".to_vec();
    let mut secret = encrypt_data(&plaintext, &password);
    secret.ciphertext[0] ^= 0x01;
    let r = decrypt_data(&secret, &password);
    assert_eq!(r, Err(WalletError::Decryption));
}

#[test]
fn stored_blob_round_trips_and_decrypts() {
    let plaintext: Vec<u8> = b"the one stored key".to_vec();
    let password: Vec<u8> = b"pw".to_vec();
    let secret = encrypt_data(&plaintext, &password);
    let blob = secret_to_bytes(&secret);
    let read_back = secret_from_bytes(&blob).expect("well-formed blob");
    assert_eq!(read_back.salt, secret.salt);
    assert_eq!(read_back.nonce, secret.nonce);
    assert_eq!(read_back.ciphertext, secret.ciphertext);
    let recovered = decrypt_data(&read_back, &password).expect("decrypts after storage");
    assert_eq!(recovered, plaintext);
}

#[test]
fn short_blob_is_rejected() {
    let blob: Vec<u8> = vec![0u8; 43];
    match secret_from_bytes(&blob) {
        Err(e) => assert_eq!(e, WalletError::Decryption),
        Ok(_) => panic!("a 43-byte blob must be rejected"),
    }
}

#[test]
fn fresh_salts_and_nonces_differ_across_encryptions() {
    let plaintext: Vec<u8> = b"same plaintext".to_vec();
    let password: Vec<u8> = b"same password".to_vec();
    let a = encrypt_data(&plaintext, &password);
    let b = encrypt_data(&plaintext, &password);
    assert!(a.salt != b.salt || a.nonce != b.nonce);
    // the two stored blobs differ, yet each unlocks the same plaintext
    assert!(secret_to_bytes(&a) != secret_to_bytes(&b));
    assert_eq!(decrypt_data(&a, &password), Ok(plaintext.clone()));
    assert_eq!(decrypt_data(&b, &password), Ok(plaintext));
}
