//! A single-account wallet agent core. It keeps one signing key encrypted
//! at rest under a password, encodes and decodes the contract calls of a
//! fixed ERC20 and market-maker interface set, prices token pairs from
//! on-chain reserve snapshots, and assembles and signs replay-protected
//! transactions: plain value transfers and market swaps. The host shell
//! around it does the prompting, the chain reads and the broadcasting;
//! everything that decides or computes stands here, under contract.
pub mod abi;
pub mod agent;
pub mod bytes;
pub mod crypto;
pub mod hex;
pub mod price;
pub mod registry;
pub mod rlp;
pub mod secret;
pub mod swap;
pub mod tx;
pub mod wallet;

use vstd::prelude::*;

verus! {

/// The errors a request can fail with, one variant per failure class:
/// unknown chain configuration, a wrong password or corrupted ciphertext,
/// a malformed contract-call response, an empty reserve in a pool,
/// an RPC transport failure, and a key or signature failure.
#[derive(Clone, Copy, Debug, PartialEq, Eq, Structural)]
pub enum WalletError {
    Config,
    Decryption,
    Codec,
    ZeroReserve,
    Transport,
    Signing,
}

} // verus!
