//! The cryptographic primitives the wallet stands on: Keccak-256 digests,
//! password-based key derivation, authenticated encryption, and secp256k1
//! signing. Each executable item here is a thin trusted wrapper around an
//! outside implementation, and its contract states no more than that
//! implementation's source and documentation show.
use vstd::prelude::*;

use crate::WalletError;
use aes_gcm::aead::Aead;
use aes_gcm::KeyInit;
use sha3::Digest;

verus! {

/// The Keccak-256 digest of a byte string.
pub uninterp spec fn keccak_of(data: Seq<u8>) -> Seq<u8>;

/// Relies on sha3::Keccak256: a 32-byte digest, a function of the input
/// bytes alone.
#[verifier::external_body]
pub fn keccak256(data: &Vec<u8>) -> (r: Vec<u8>)
    ensures
        r@ == keccak_of(data@),
        r@.len() == 32,
{
    sha3::Keccak256::digest(data.as_slice()).to_vec()
}

/// The PBKDF2-HMAC-SHA256 key stream for a password, salt and round count:
/// the first `len` bytes of it.
pub uninterp spec fn kdf_of(password: Seq<u8>, salt: Seq<u8>, rounds: u32, len: nat) -> Seq<u8>;

/// Relies on pbkdf2::pbkdf2_hmac with SHA-256: fills a buffer of the asked
/// length with a stream that is a function of password, salt and rounds
/// alone.
#[verifier::external_body]
pub fn derive_key(password: &Vec<u8>, salt: &Vec<u8>, rounds: u32, len: usize) -> (r: Vec<u8>)
    ensures
        r@ == kdf_of(password@, salt@, rounds, len as nat),
        r@.len() == len,
{
    let mut out = vec![0u8; len];
    pbkdf2::pbkdf2_hmac::<sha2::Sha256>(password.as_slice(), salt.as_slice(), rounds, &mut out);
    out
}

/// The AES-256-GCM sealing of a plaintext under a key and nonce: the
/// ciphertext with its 16-byte tag appended.
pub uninterp spec fn seal_of(key: Seq<u8>, nonce: Seq<u8>, plaintext: Seq<u8>) -> Seq<u8>;

/// The AES-256-GCM opening of a ciphertext under a key and nonce; nothing
/// when the tag does not authenticate.
pub uninterp spec fn open_of(key: Seq<u8>, nonce: Seq<u8>, ciphertext: Seq<u8>) -> Option<Seq<u8>>;

/// Relies on aes_gcm::Aes256Gcm through aead::Aead::encrypt: deterministic
/// in key, nonce and plaintext, appends a 16-byte tag, succeeds for any
/// plaintext within the cipher's length bound, and what it seals, opening
/// with the same key and nonce yields back.
#[verifier::external_body]
pub fn aead_seal(key: &Vec<u8>, nonce: &Vec<u8>, plaintext: &Vec<u8>) -> (r: Vec<u8>)
    requires
        key@.len() == 32,
        nonce@.len() == 12,
        plaintext@.len() <= 0x1000000000,
    ensures
        r@ == seal_of(key@, nonce@, plaintext@),
        r@.len() == plaintext@.len() + 16,
        open_of(key@, nonce@, r@) == Some(plaintext@),
{
    let cipher = aes_gcm::Aes256Gcm::new_from_slice(key.as_slice()).unwrap();
    let nonce = aes_gcm::aead::generic_array::GenericArray::from_slice(nonce.as_slice());
    cipher.encrypt(nonce, plaintext.as_slice()).unwrap()
}

/// Relies on aes_gcm::Aes256Gcm through aead::Aead::decrypt: verifies the
/// tag and returns the sealed plaintext; deterministic in key, nonce and
/// ciphertext.
#[verifier::external_body]
pub fn aead_open(key: &Vec<u8>, nonce: &Vec<u8>, ciphertext: &Vec<u8>) -> (r: Option<Vec<u8>>)
    requires
        key@.len() == 32,
        nonce@.len() == 12,
    ensures
        match r {
            Some(p) => open_of(key@, nonce@, ciphertext@) == Some(p@),
            None => open_of(key@, nonce@, ciphertext@) is None,
        },
{
    let cipher = aes_gcm::Aes256Gcm::new_from_slice(key.as_slice()).unwrap();
    let nonce = aes_gcm::aead::generic_array::GenericArray::from_slice(nonce.as_slice());
    cipher.decrypt(nonce, ciphertext.as_slice()).ok()
}

/// Whether 32 key bytes form a valid secp256k1 signing key: a nonzero
/// scalar below the group order.
pub uninterp spec fn ecdsa_key_valid(key: Seq<u8>) -> bool;

/// The 65 uncompressed public-key bytes of a signing key.
pub uninterp spec fn pubkey_of(key: Seq<u8>) -> Seq<u8>;

/// Relies on k256::ecdsa::SigningKey::from_slice, which succeeds exactly
/// for a valid scalar, and on VerifyingKey::to_encoded_point, whose
/// uncompressed form is 65 bytes, a function of the key alone.
#[verifier::external_body]
pub fn public_key_bytes(key: &Vec<u8>) -> (r: Option<Vec<u8>>)
    requires
        key@.len() == 32,
    ensures
        r is Some <==> ecdsa_key_valid(key@),
        r is Some ==> r->Some_0@ == pubkey_of(key@) && r->Some_0@.len() == 65,
{
    match k256::ecdsa::SigningKey::from_slice(key.as_slice()) {
        Ok(sk) => Some(sk.verifying_key().to_encoded_point(false).as_bytes().to_vec()),
        Err(_) => None,
    }
}

/// The deterministic recoverable ECDSA signature of a 32-byte digest under
/// a key: the 32-byte scalars `r` and `s`, and whether the recovered point
/// had an odd y-coordinate.
pub uninterp spec fn ecdsa_sig_of(key: Seq<u8>, digest: Seq<u8>) -> (Seq<u8>, Seq<u8>, bool);

/// Whether the deterministic signing path yields a signature for this key
/// and digest: the derived nonce and both signature scalars come out
/// nonzero, a condition of the key and digest alone.
pub uninterp spec fn ecdsa_sign_ok(key: Seq<u8>, digest: Seq<u8>) -> bool;

/// Relies on k256::ecdsa::SigningKey::sign_prehash_recoverable: RFC 6979
/// deterministic signing over secp256k1 with low-s normalization, a
/// function of the key bytes and the digest alone. It fails exactly when
/// the key bytes are not a valid key or the deterministic path yields a
/// zero scalar — both conditions of the arguments alone.
#[verifier::external_body]
pub fn ecdsa_sign(key: &Vec<u8>, digest: &Vec<u8>) -> (r: Result<
    (Vec<u8>, Vec<u8>, bool),
    WalletError,
>)
    requires
        key@.len() == 32,
        digest@.len() == 32,
    ensures
        match r {
            Ok((rb, sb, odd)) => (rb@, sb@, odd) == ecdsa_sig_of(key@, digest@) && rb@.len() == 32
                && sb@.len() == 32 && ecdsa_key_valid(key@) && ecdsa_sign_ok(key@, digest@),
            Err(e) => e == WalletError::Signing && !(ecdsa_key_valid(key@) && ecdsa_sign_ok(
                key@,
                digest@,
            )),
        },
{
    let sk = match k256::ecdsa::SigningKey::from_slice(key.as_slice()) {
        Ok(sk) => sk,
        Err(_) => return Err(WalletError::Signing),
    };
    let (sig, recid) = match sk.sign_prehash_recoverable(digest.as_slice()) {
        Ok(sr) => sr,
        Err(_) => return Err(WalletError::Signing),
    };
    let (rb, sb) = sig.split_bytes();
    Ok((rb.to_vec(), sb.to_vec(), recid.is_y_odd()))
}

/// Relies on rand::rngs::OsRng through rand::RngCore::fill_bytes: `n` bytes
/// of system randomness; nothing is assumed of their values.
#[verifier::external_body]
pub fn random_bytes(n: usize) -> (r: Vec<u8>)
    ensures
        r@.len() == n,
{
    let mut buf = vec![0u8; n];
    rand::RngCore::fill_bytes(&mut rand::rngs::OsRng, &mut buf);
    buf
}

} // verus!
