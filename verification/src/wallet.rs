//! The wallet: one secp256k1 signing key, held as raw bytes, and the
//! on-chain address derived from it.
use vstd::prelude::*;

use crate::crypto::{ecdsa_key_valid, keccak256, keccak_of, public_key_bytes, pubkey_of};
use crate::WalletError;

verus! {

/// The on-chain address of a key: the low 20 bytes of the Keccak-256
/// digest of the uncompressed public key without its one-byte prefix.
pub open spec fn spec_address_of(key: Seq<u8>) -> Seq<u8> {
    keccak_of(pubkey_of(key).skip(1)).subrange(12, 32)
}

/// A wallet holds exactly one signing key and its derived address.
pub struct Wallet {
    pub key: Vec<u8>,
    pub address: Vec<u8>,
}

impl Wallet {
    /// A wallet built by `from_key_bytes`: a valid 32-byte key and the
    /// address derived from it.
    pub open spec fn wf(&self) -> bool {
        &&& self.key@.len() == 32
        &&& ecdsa_key_valid(self.key@)
        &&& self.address@ == spec_address_of(self.key@)
        &&& self.address@.len() == 20
    }

    /// Builds a wallet from raw key bytes, deriving its address. Fails
    /// with a signing error exactly when the bytes are not a valid key.
    pub fn from_key_bytes(key: Vec<u8>) -> (r: Result<Wallet, WalletError>)
        requires
            key@.len() == 32,
        ensures
            match r {
                Ok(w) => ecdsa_key_valid(key@) && w.key@ == key@ && w.wf(),
                Err(e) => e == WalletError::Signing && !ecdsa_key_valid(key@),
            },
    {
        let pk = match public_key_bytes(&key) {
            Some(p) => p,
            None => {
                return Err(WalletError::Signing);
            },
        };
        let mut body: Vec<u8> = Vec::new();
        let mut i: usize = 1;
        while i < 65
            invariant
                1 <= i <= 65,
                pk@.len() == 65,
                body@ == pk@.subrange(1, i as int),
            decreases 65 - i,
        {
            body.push(pk[i]);
            i = i + 1;
            assert(body@ =~= pk@.subrange(1, i as int));
        }
        proof {
            assert(body@ =~= pk@.skip(1));
        }
        let digest = keccak256(&body);
        let mut address: Vec<u8> = Vec::new();
        let mut j: usize = 12;
        while j < 32
            invariant
                12 <= j <= 32,
                digest@.len() == 32,
                address@ == digest@.subrange(12, j as int),
            decreases 32 - j,
        {
            address.push(digest[j]);
            j = j + 1;
            assert(address@ =~= digest@.subrange(12, j as int));
        }
        Ok(Wallet { key, address })
    }
}

} // verus!
