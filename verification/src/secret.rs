//! The secret store: the wallet's key material encrypted at rest under a
//! password. A fresh random salt feeds the key derivation and a fresh
//! random nonce feeds the authenticated cipher, so a wrong password or a
//! tampered blob is rejected before anything tries to parse the bytes as a
//! key. The stored blob embeds salt and nonce, so decryption needs only
//! the password.
use vstd::prelude::*;

use crate::crypto::{aead_open, aead_seal, derive_key, kdf_of, open_of, random_bytes, seal_of};
use crate::WalletError;

verus! {

/// The rounds of key derivation a password goes through.
pub const PBKDF2_ROUNDS: u32 = 10000;

/// The salt length, in bytes.
pub const SALT_LEN: usize = 16;

/// The cipher nonce length, in bytes.
pub const NONCE_LEN: usize = 12;

/// The derived cipher key length, in bytes.
pub const CIPHER_KEY_LEN: usize = 32;

/// The authentication tag length the cipher appends, in bytes.
pub const TAG_LEN: usize = 16;

/// The largest plaintext the cipher accepts.
pub const MAX_PLAINTEXT_LEN: u64 = 0x1000000000;

/// Encrypted secret material: the salt the key was derived with, the
/// cipher nonce, and the authenticated ciphertext.
pub struct EncryptedSecret {
    pub salt: Vec<u8>,
    pub nonce: Vec<u8>,
    pub ciphertext: Vec<u8>,
}

/// What decrypting a stored secret with a password yields: the cipher
/// opened under the key derived from the password and the stored salt.
pub open spec fn spec_decrypt(
    salt: Seq<u8>,
    nonce: Seq<u8>,
    ciphertext: Seq<u8>,
    password: Seq<u8>,
) -> Option<Seq<u8>> {
    open_of(
        kdf_of(password, salt, PBKDF2_ROUNDS, CIPHER_KEY_LEN as nat),
        nonce,
        ciphertext,
    )
}

impl EncryptedSecret {
    pub open spec fn wf(&self) -> bool {
        &&& self.salt@.len() == SALT_LEN
        &&& self.nonce@.len() == NONCE_LEN
        &&& self.ciphertext@.len() >= TAG_LEN
    }
}

/// Encrypts plaintext key material under a password: a fresh random salt,
/// a fresh random nonce, and the authenticated ciphertext — which is
/// exactly the cipher's sealing under the derived key, so the blob is
/// deterministic in password, salt, nonce and plaintext. Decrypting the
/// result with the same password yields the plaintext back.
pub fn encrypt_data(plaintext: &Vec<u8>, password: &Vec<u8>) -> (r: EncryptedSecret)
    requires
        plaintext@.len() <= MAX_PLAINTEXT_LEN,
    ensures
        r.wf(),
        r.ciphertext@.len() == plaintext@.len() + TAG_LEN,
        r.ciphertext@ == seal_of(
            kdf_of(password@, r.salt@, PBKDF2_ROUNDS, CIPHER_KEY_LEN as nat),
            r.nonce@,
            plaintext@,
        ),
        spec_decrypt(r.salt@, r.nonce@, r.ciphertext@, password@) == Some(plaintext@),
{
    let salt = random_bytes(SALT_LEN);
    let nonce = random_bytes(NONCE_LEN);
    let key = derive_key(password, &salt, PBKDF2_ROUNDS, CIPHER_KEY_LEN);
    let ciphertext = aead_seal(&key, &nonce, plaintext);
    EncryptedSecret { salt, nonce, ciphertext }
}

/// Decrypts stored secret material with a password. Fails with a
/// decryption error exactly when the password is not the one the blob was
/// sealed under or the blob was tampered with: the cipher authenticates
/// before anything is returned.
pub fn decrypt_data(secret: &EncryptedSecret, password: &Vec<u8>) -> (r: Result<
    Vec<u8>,
    WalletError,
>)
    requires
        secret.wf(),
    ensures
        match r {
            Ok(p) => spec_decrypt(secret.salt@, secret.nonce@, secret.ciphertext@, password@)
                == Some(p@),
            Err(e) => e == WalletError::Decryption && spec_decrypt(
                secret.salt@,
                secret.nonce@,
                secret.ciphertext@,
                password@,
            ) is None,
        },
{
    let key = derive_key(password, &secret.salt, PBKDF2_ROUNDS, CIPHER_KEY_LEN);
    match aead_open(&key, &secret.nonce, &secret.ciphertext) {
        Some(p) => Ok(p),
        None => Err(WalletError::Decryption),
    }
}

/// Flattens a secret into the single stored blob: salt, nonce, ciphertext.
pub fn secret_to_bytes(secret: &EncryptedSecret) -> (r: Vec<u8>)
    requires
        secret.wf(),
    ensures
        r@ == secret.salt@ + secret.nonce@ + secret.ciphertext@,
        r@.len() >= SALT_LEN + NONCE_LEN + TAG_LEN,
{
    let mut out: Vec<u8> = Vec::new();
    crate::bytes::push_all(&mut out, &secret.salt);
    crate::bytes::push_all(&mut out, &secret.nonce);
    crate::bytes::push_all(&mut out, &secret.ciphertext);
    proof {
        assert(out@ =~= secret.salt@ + secret.nonce@ + secret.ciphertext@);
    }
    out
}

/// Reads a stored blob back into a secret. Fails with a decryption error
/// exactly when the blob is too short to hold a salt, a nonce and a tagged
/// ciphertext.
pub fn secret_from_bytes(blob: &Vec<u8>) -> (r: Result<EncryptedSecret, WalletError>)
    ensures
        match r {
            Ok(s) => blob@.len() >= SALT_LEN + NONCE_LEN + TAG_LEN && s.wf() && s.salt@
                == blob@.subrange(0, SALT_LEN as int) && s.nonce@ == blob@.subrange(
                SALT_LEN as int,
                SALT_LEN + NONCE_LEN,
            ) && s.ciphertext@ == blob@.subrange(SALT_LEN + NONCE_LEN, blob@.len() as int),
            Err(e) => e == WalletError::Decryption && blob@.len() < SALT_LEN + NONCE_LEN + TAG_LEN,
        },
{
    let blen = blob.len();
    if blen < SALT_LEN + NONCE_LEN + TAG_LEN {
        return Err(WalletError::Decryption);
    }
    let mut salt: Vec<u8> = Vec::new();
    let mut i: usize = 0;
    while i < SALT_LEN
        invariant
            i <= SALT_LEN,
            blen == blob@.len(),
            blen >= SALT_LEN + NONCE_LEN + TAG_LEN,
            salt@ == blob@.subrange(0, i as int),
        decreases SALT_LEN - i,
    {
        salt.push(blob[i]);
        i = i + 1;
        assert(salt@ =~= blob@.subrange(0, i as int));
    }
    let mut nonce: Vec<u8> = Vec::new();
    let mut j: usize = SALT_LEN;
    while j < SALT_LEN + NONCE_LEN
        invariant
            SALT_LEN <= j <= SALT_LEN + NONCE_LEN,
            blen == blob@.len(),
            blen >= SALT_LEN + NONCE_LEN + TAG_LEN,
            nonce@ == blob@.subrange(SALT_LEN as int, j as int),
        decreases SALT_LEN + NONCE_LEN - j,
    {
        nonce.push(blob[j]);
        j = j + 1;
        assert(nonce@ =~= blob@.subrange(SALT_LEN as int, j as int));
    }
    let mut ciphertext: Vec<u8> = Vec::new();
    let mut k: usize = SALT_LEN + NONCE_LEN;
    while k < blen
        invariant
            SALT_LEN + NONCE_LEN <= k <= blen,
            blen == blob@.len(),
            blen >= SALT_LEN + NONCE_LEN + TAG_LEN,
            ciphertext@ == blob@.subrange(SALT_LEN + NONCE_LEN, k as int),
        decreases blen - k,
    {
        ciphertext.push(blob[k]);
        k = k + 1;
        assert(ciphertext@ =~= blob@.subrange(SALT_LEN + NONCE_LEN, k as int));
    }
    Ok(EncryptedSecret { salt, nonce, ciphertext })
}

/// The blob round trip: what `secret_to_bytes` writes, `secret_from_bytes`
/// reads back field for field.
pub proof fn lemma_secret_blob_round_trip(salt: Seq<u8>, nonce: Seq<u8>, ciphertext: Seq<u8>)
    requires
        salt.len() == SALT_LEN,
        nonce.len() == NONCE_LEN,
        ciphertext.len() >= TAG_LEN,
    ensures
        ({
            let blob = salt + nonce + ciphertext;
            &&& blob.subrange(0, SALT_LEN as int) == salt
            &&& blob.subrange(SALT_LEN as int, SALT_LEN + NONCE_LEN) == nonce
            &&& blob.subrange(SALT_LEN + NONCE_LEN, blob.len() as int) == ciphertext
        }),
{
    let blob = salt + nonce + ciphertext;
    assert(blob.subrange(0, SALT_LEN as int) =~= salt);
    assert(blob.subrange(SALT_LEN as int, SALT_LEN + NONCE_LEN) =~= nonce);
    assert(blob.subrange(SALT_LEN + NONCE_LEN, blob.len() as int) =~= ciphertext);
}

} // verus!
