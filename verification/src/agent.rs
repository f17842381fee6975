//! The agent's decision core: the wallet-unlock lifecycle as an explicit
//! state machine, the typed request surface, and the assembly of a plain
//! transfer. The host loop performs the prompts, reads and broadcasts, and
//! feeds the outcomes back in as events.
use vstd::prelude::*;

use crate::tx::{spec_assemble, assemble, CallKind, UnsignedTransaction, TRANSFER_GAS_LIMIT};

verus! {

/// Where the wallet stands in its unlock lifecycle: no stored secret yet,
/// a stored secret awaiting the right password, or a usable key in memory.
#[derive(Clone, Copy, Debug, PartialEq, Eq, Structural)]
pub enum WalletState {
    NoSecret,
    Locked,
    Unlocked,
}

/// What the host loop observed while driving the lifecycle.
#[derive(Clone, Copy, Debug, PartialEq, Eq, Structural)]
pub enum WalletEvent {
    /// A fresh key was supplied, parsed and stored encrypted.
    KeyAccepted,
    /// A supplied key could not be parsed; nothing was stored.
    KeyRejected,
    /// The stored secret was decrypted and parsed into a key.
    UnlockSucceeded,
    /// Decryption or key parsing failed; the secret stays stored.
    UnlockFailed,
}

/// The lifecycle's transition relation: a good key unlocks from either
/// waiting state, a failure leaves the state unchanged, and an unlocked
/// wallet stays unlocked for the process's lifetime.
pub open spec fn spec_lifecycle_step(state: WalletState, event: WalletEvent) -> WalletState {
    match state {
        WalletState::NoSecret => match event {
            WalletEvent::KeyAccepted => WalletState::Unlocked,
            _ => WalletState::NoSecret,
        },
        WalletState::Locked => match event {
            WalletEvent::UnlockSucceeded => WalletState::Unlocked,
            _ => WalletState::Locked,
        },
        WalletState::Unlocked => WalletState::Unlocked,
    }
}

/// Advances the unlock lifecycle by one observed event.
pub fn lifecycle_step(state: WalletState, event: WalletEvent) -> (r: WalletState)
    ensures
        r == spec_lifecycle_step(state, event),
{
    match state {
        WalletState::NoSecret => match event {
            WalletEvent::KeyAccepted => WalletState::Unlocked,
            _ => WalletState::NoSecret,
        },
        WalletState::Locked => match event {
            WalletEvent::UnlockSucceeded => WalletState::Unlocked,
            _ => WalletState::Locked,
        },
        WalletState::Unlocked => WalletState::Unlocked,
    }
}

/// Once unlocked, the wallet never locks again within the process: the key
/// is held for the process lifetime and nothing re-prompts.
pub proof fn lemma_unlocked_is_terminal(event: WalletEvent)
    ensures
        spec_lifecycle_step(WalletState::Unlocked, event) == WalletState::Unlocked,
{
}

/// Only a successful unlock or an accepted key reaches the unlocked state.
pub proof fn lemma_unlock_needs_success(state: WalletState, event: WalletEvent)
    requires
        state != WalletState::Unlocked,
        spec_lifecycle_step(state, event) == WalletState::Unlocked,
    ensures
        state == WalletState::NoSecret ==> event == WalletEvent::KeyAccepted,
        state == WalletState::Locked ==> event == WalletEvent::UnlockSucceeded,
{
}

/// The typed request surface the agent answers.
pub enum TradeRequest {
    /// Report the address, balance, gas price and block number.
    Info,
    /// Swap `amount_in` of the native currency for the token at `token`.
    Swap { token: Vec<u8>, amount_in: u128 },
    /// Send `amount` of the native currency to `to`.
    Send { amount: u128, to: Vec<u8> },
}

/// Builds the unsigned transaction of a plain value transfer: the fetched
/// gas price is used as read, the gas limit is the plain-transfer
/// constant, and no call data rides along.
pub fn prepare_send(
    to: Vec<u8>,
    amount: u128,
    nonce: u64,
    gas_price: u128,
    chain_id: u64,
) -> (r: UnsignedTransaction)
    requires
        to@.len() == 20,
    ensures
        r@ == spec_assemble(
            CallKind::PlainTransfer,
            to@,
            amount as nat,
            Seq::empty(),
            nonce as nat,
            gas_price as nat,
            TRANSFER_GAS_LIMIT as nat,
            chain_id as nat,
        ),
        r.wf(),
{
    assemble(
        CallKind::PlainTransfer,
        to,
        amount,
        None,
        nonce,
        gas_price,
        TRANSFER_GAS_LIMIT,
        chain_id,
    )
}

} // verus!
