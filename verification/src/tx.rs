//! Transaction assembly and signing: legacy transactions with the chain id
//! bound into the signature, encoded exactly as the broadcast endpoint
//! expects them.
use vstd::prelude::*;

use crate::bytes::{
    be_min, be_val, lemma_be_min_len, lemma_be_min_of_unpadded, lemma_be_val_be_min,
    lemma_be_val_bound, lemma_pow256_16, lemma_strip_zeros_props, pow256, strip_leading_zeros,
    strip_zeros,
};
use crate::crypto::{
    ecdsa_key_valid, ecdsa_sig_of, ecdsa_sign, ecdsa_sign_ok, keccak256, keccak_of,
};
use crate::rlp::{
    lemma_parse_item_of_str, lemma_parse_list_of, lemma_rlp_str_len, parse_items,
    parse_list_payload, rlp_append_str, rlp_append_uint, rlp_list, rlp_str, rlp_uint,
    rlp_wrap_list,
};
use crate::wallet::Wallet;
use crate::WalletError;

verus! {

/// The gas limit of a plain value transfer.
pub const TRANSFER_GAS_LIMIT: u64 = 21000;

/// The gas limit given to a router swap call.
pub const SWAP_GAS_LIMIT: u64 = 220000;

/// The fixed safety multiplier applied to the fetched gas price before a
/// swap, to lower the chance of an underpriced rejection.
pub const GAS_PRICE_MULTIPLIER: u128 = 8;

/// What a transaction is built for: a plain value transfer carries no call
/// data; a contract call carries its encoded call.
pub enum CallKind {
    PlainTransfer,
    ContractCall,
}

/// The mathematical image of a transaction: its fields as plain values.
#[verifier::ext_equal]
pub ghost struct TxModel {
    pub nonce: nat,
    pub gas_price: nat,
    pub gas_limit: nat,
    pub to: Seq<u8>,
    pub value: nat,
    pub input: Seq<u8>,
    pub chain_id: nat,
}

/// An unsigned legacy transaction, bound to one chain id.
pub struct UnsignedTransaction {
    pub nonce: u64,
    pub gas_price: u128,
    pub gas_limit: u64,
    pub to: Vec<u8>,
    pub value: u128,
    pub input: Vec<u8>,
    pub chain_id: u64,
}

impl View for UnsignedTransaction {
    type V = TxModel;

    open spec fn view(&self) -> TxModel {
        TxModel {
            nonce: self.nonce as nat,
            gas_price: self.gas_price as nat,
            gas_limit: self.gas_limit as nat,
            to: self.to@,
            value: self.value as nat,
            input: self.input@,
            chain_id: self.chain_id as nat,
        }
    }
}

impl UnsignedTransaction {
    /// The destination is a 20-byte address.
    pub open spec fn wf(&self) -> bool {
        self.to@.len() == 20
    }
}

/// The transaction a given request assembles: every field comes straight
/// from the arguments, and a plain transfer carries no call data.
pub open spec fn spec_assemble(
    kind: CallKind,
    to: Seq<u8>,
    value: nat,
    call_data: Seq<u8>,
    nonce: nat,
    gas_price: nat,
    gas_limit: nat,
    chain_id: nat,
) -> TxModel {
    TxModel {
        nonce,
        gas_price,
        gas_limit,
        to,
        value,
        input: if kind is PlainTransfer {
            Seq::empty()
        } else {
            call_data
        },
        chain_id,
    }
}

/// Builds an unsigned transaction from a request's resolved parameters.
/// The nonce and gas price are the caller's one-time reads; nothing here
/// retries or bumps them.
pub fn assemble(
    kind: CallKind,
    to: Vec<u8>,
    value: u128,
    call_data: Option<Vec<u8>>,
    nonce: u64,
    gas_price: u128,
    gas_limit: u64,
    chain_id: u64,
) -> (r: UnsignedTransaction)
    requires
        to@.len() == 20,
    ensures
        r@ == spec_assemble(
            kind,
            to@,
            value as nat,
            match call_data {
                Some(d) => d@,
                None => Seq::empty(),
            },
            nonce as nat,
            gas_price as nat,
            gas_limit as nat,
            chain_id as nat,
        ),
        r.wf(),
{
    let input: Vec<u8> = match kind {
        CallKind::PlainTransfer => Vec::new(),
        CallKind::ContractCall => match call_data {
            Some(d) => d,
            None => Vec::new(),
        },
    };
    let r = UnsignedTransaction { nonce, gas_price, gas_limit, to, value, input, chain_id };
    proof {
        assert(r@ =~= spec_assemble(
            kind,
            r.to@,
            value as nat,
            match call_data {
                Some(d) => d@,
                None => Seq::empty(),
            },
            nonce as nat,
            gas_price as nat,
            gas_limit as nat,
            chain_id as nat,
        ));
    }
    r
}

/// Applies the fixed safety multiplier to a fetched gas price.
pub fn boost_gas_price(gas_price: u128) -> (r: u128)
    requires
        gas_price <= u128::MAX / GAS_PRICE_MULTIPLIER,
    ensures
        r == gas_price * GAS_PRICE_MULTIPLIER,
{
    gas_price * GAS_PRICE_MULTIPLIER
}

/// The RLP list payload whose digest a signature covers: the six
/// transaction fields, then the chain id and two empty items, binding the
/// signature to that chain.
pub open spec fn spec_sighash_payload(m: TxModel) -> Seq<u8> {
    rlp_uint(m.nonce) + rlp_uint(m.gas_price) + rlp_uint(m.gas_limit) + rlp_str(m.to) + rlp_uint(
        m.value,
    ) + rlp_str(m.input) + rlp_uint(m.chain_id) + rlp_uint(0) + rlp_uint(0)
}

/// The digest a signature covers.
pub open spec fn spec_sighash(m: TxModel) -> Seq<u8> {
    keccak_of(rlp_list(spec_sighash_payload(m)))
}

/// Computes the digest to sign for a transaction.
pub fn sighash(tx: &UnsignedTransaction) -> (r: Vec<u8>)
    ensures
        r@ == spec_sighash(tx@),
        r@.len() == 32,
{
    let mut payload: Vec<u8> = Vec::new();
    rlp_append_uint(&mut payload, tx.nonce as u128);
    rlp_append_uint(&mut payload, tx.gas_price);
    rlp_append_uint(&mut payload, tx.gas_limit as u128);
    rlp_append_str(&mut payload, &tx.to);
    rlp_append_uint(&mut payload, tx.value);
    rlp_append_str(&mut payload, &tx.input);
    rlp_append_uint(&mut payload, tx.chain_id as u128);
    rlp_append_uint(&mut payload, 0);
    rlp_append_uint(&mut payload, 0);
    proof {
        assert(payload@ =~= spec_sighash_payload(tx@));
    }
    let framed = rlp_wrap_list(&payload);
    keccak256(&framed)
}

/// The replay-protected recovery value: twice the chain id, plus 35, plus
/// the recovery parity.
pub open spec fn spec_v(chain_id: nat, odd: bool) -> nat {
    chain_id * 2 + 35 + if odd {
        1nat
    } else {
        0nat
    }
}

/// The broadcast encoding of a signed transaction: the six fields, then
/// the recovery value and the two signature scalars as minimal integers.
pub open spec fn spec_signed_encoding(m: TxModel, sig_r: Seq<u8>, sig_s: Seq<u8>, odd: bool) -> Seq<
    u8,
> {
    rlp_list(
        rlp_uint(m.nonce) + rlp_uint(m.gas_price) + rlp_uint(m.gas_limit) + rlp_str(m.to)
            + rlp_uint(m.value) + rlp_str(m.input) + rlp_uint(spec_v(m.chain_id, odd)) + rlp_uint(
            be_val(sig_r),
        ) + rlp_uint(be_val(sig_s)),
    )
}

/// A signed transaction: the transaction, its signature, and the encoded
/// form the broadcast endpoint takes.
pub struct SignedTransaction {
    pub tx: UnsignedTransaction,
    pub sig_r: Vec<u8>,
    pub sig_s: Vec<u8>,
    pub parity_odd: bool,
    pub raw: Vec<u8>,
}

impl SignedTransaction {
    /// The raw bytes are exactly the broadcast encoding of the carried
    /// transaction under the carried signature.
    pub open spec fn wf(&self) -> bool {
        self.raw@ == spec_signed_encoding(self.tx@, self.sig_r@, self.sig_s@, self.parity_odd)
    }
}

/// Encodes a transaction with its signature into broadcast form.
pub fn encode_signed(
    tx: &UnsignedTransaction,
    sig_r: &Vec<u8>,
    sig_s: &Vec<u8>,
    parity_odd: bool,
) -> (r: Vec<u8>)
    ensures
        r@ == spec_signed_encoding(tx@, sig_r@, sig_s@, parity_odd),
{
    let mut payload: Vec<u8> = Vec::new();
    rlp_append_uint(&mut payload, tx.nonce as u128);
    rlp_append_uint(&mut payload, tx.gas_price);
    rlp_append_uint(&mut payload, tx.gas_limit as u128);
    rlp_append_str(&mut payload, &tx.to);
    rlp_append_uint(&mut payload, tx.value);
    rlp_append_str(&mut payload, &tx.input);
    let v: u128 = (tx.chain_id as u128) * 2 + 35 + (if parity_odd {
        1
    } else {
        0
    });
    rlp_append_uint(&mut payload, v);
    let r_min = strip_leading_zeros(sig_r);
    rlp_append_str(&mut payload, &r_min);
    let s_min = strip_leading_zeros(sig_s);
    rlp_append_str(&mut payload, &s_min);
    proof {
        lemma_strip_zeros_props(sig_r@);
        lemma_be_min_of_unpadded(strip_zeros(sig_r@));
        lemma_strip_zeros_props(sig_s@);
        lemma_be_min_of_unpadded(strip_zeros(sig_s@));
        assert(rlp_str(r_min@) == rlp_uint(be_val(sig_r@)));
        assert(rlp_str(s_min@) == rlp_uint(be_val(sig_s@)));
        assert(payload@ =~= rlp_uint(tx@.nonce) + rlp_uint(tx@.gas_price) + rlp_uint(tx@.gas_limit)
            + rlp_str(tx@.to) + rlp_uint(tx@.value) + rlp_str(tx@.input) + rlp_uint(
            spec_v(tx@.chain_id, parity_odd),
        ) + rlp_uint(be_val(sig_r@)) + rlp_uint(be_val(sig_s@)));
    }
    rlp_wrap_list(&payload)
}

/// Signs a transaction with the wallet's key and encodes the result for
/// broadcast. The signature is deterministic and bound to the
/// transaction's chain id. Fails with a signing error only when the key is
/// rejected by the signing primitive.
pub fn sign_transaction(wallet: &Wallet, tx: UnsignedTransaction) -> (r: Result<
    SignedTransaction,
    WalletError,
>)
    requires
        wallet.key@.len() == 32,
        tx.wf(),
    ensures
        r is Ok <==> ecdsa_key_valid(wallet.key@) && ecdsa_sign_ok(
            wallet.key@,
            spec_sighash(tx@),
        ),
        match r {
            Ok(st) => {
                let (rb, sb, odd) = ecdsa_sig_of(wallet.key@, spec_sighash(tx@));
                &&& st.tx@ == tx@
                &&& st.sig_r@ == rb
                &&& st.sig_s@ == sb
                &&& st.sig_r@.len() == 32
                &&& st.sig_s@.len() == 32
                &&& st.parity_odd == odd
                &&& st.wf()
                &&& st.raw@ == spec_signed_encoding(tx@, rb, sb, odd)
            },
            Err(e) => e == WalletError::Signing,
        },
{
    let digest = sighash(&tx);
    let (sig_r, sig_s, parity_odd) = match ecdsa_sign(&wallet.key, &digest) {
        Ok(s) => s,
        Err(e) => {
            return Err(e);
        },
    };
    let raw = encode_signed(&tx, &sig_r, &sig_s, parity_odd);
    Ok(SignedTransaction { tx, sig_r, sig_s, parity_odd, raw })
}

/// Signs with raw key bytes: builds the wallet first, so no caller has to
/// establish anything about the key beyond its length. Fails with a
/// signing error exactly when the key bytes are invalid or the signing
/// primitive rejects them.
pub fn sign_with_key_bytes(key: Vec<u8>, tx: UnsignedTransaction) -> (r: Result<
    SignedTransaction,
    WalletError,
>)
    requires
        key@.len() == 32,
        tx.wf(),
    ensures
        r is Ok <==> ecdsa_key_valid(key@) && ecdsa_sign_ok(key@, spec_sighash(tx@)),
        match r {
            Ok(st) => {
                let (rb, sb, odd) = ecdsa_sig_of(key@, spec_sighash(tx@));
                &&& st.tx@ == tx@
                &&& st.sig_r@ == rb
                &&& st.sig_s@ == sb
                &&& st.sig_r@.len() == 32
                &&& st.sig_s@.len() == 32
                &&& st.parity_odd == odd
                &&& st.wf()
                &&& st.raw@ == spec_signed_encoding(tx@, rb, sb, odd)
            },
            Err(e) => e == WalletError::Signing,
        },
{
    let wallet = match Wallet::from_key_bytes(key) {
        Ok(w) => w,
        Err(e) => {
            return Err(e);
        },
    };
    sign_transaction(&wallet, tx)
}

/// One more item on the front of a stream: the step the nine-item parse
/// is built from.
proof fn lemma_parse_items_cons(p: Seq<u8>, rest: Seq<u8>, n: nat, ps: Seq<Seq<u8>>)
    requires
        p.len() < 0x10000000000000000,
        parse_items(rest, n) == Some(ps),
    ensures
        parse_items(rlp_str(p) + rest, n + 1) == Some(seq![p] + ps),
{
    lemma_parse_item_of_str(p, rest);
    reveal_with_fuel(parse_items, 2);
}

/// The last three items of the stream parse back to their payloads.
#[verifier::spinoff_prover]
proof fn lemma_parse_last_three(q7: Seq<u8>, q8: Seq<u8>, q9: Seq<u8>)
    requires
        q7.len() < 0x10000000000000000,
        q8.len() < 0x10000000000000000,
        q9.len() < 0x10000000000000000,
    ensures
        parse_items(rlp_str(q7) + (rlp_str(q8) + (rlp_str(q9) + Seq::empty())), 3) == Some(
            seq![q7] + (seq![q8] + (seq![q9] + Seq::<Seq<u8>>::empty())),
        ),
{
    let r9 = Seq::<u8>::empty();
    let ps9 = Seq::<Seq<u8>>::empty();
    assert(parse_items(r9, 0) == Some(ps9)) by {
        reveal_with_fuel(parse_items, 1);
    };
    lemma_parse_items_cons(q9, r9, 0, ps9);
    lemma_parse_items_cons(q8, rlp_str(q9) + r9, 1, seq![q9] + ps9);
    lemma_parse_items_cons(q7, rlp_str(q8) + (rlp_str(q9) + r9), 2, seq![q8] + (seq![q9] + ps9));
    assert(rlp_str(q8) + (rlp_str(q9) + r9) =~= rlp_str(q8) + (rlp_str(q9) + Seq::empty()));
}

/// The last six items of the stream parse back to their payloads.
#[verifier::spinoff_prover]
proof fn lemma_parse_last_six(
    q4: Seq<u8>,
    q5: Seq<u8>,
    q6: Seq<u8>,
    q7: Seq<u8>,
    q8: Seq<u8>,
    q9: Seq<u8>,
)
    requires
        q4.len() < 0x10000000000000000,
        q5.len() < 0x10000000000000000,
        q6.len() < 0x10000000000000000,
        q7.len() < 0x10000000000000000,
        q8.len() < 0x10000000000000000,
        q9.len() < 0x10000000000000000,
    ensures
        parse_items(
            rlp_str(q4) + (rlp_str(q5) + (rlp_str(q6) + (rlp_str(q7) + (rlp_str(q8) + (rlp_str(q9)
                + Seq::empty()))))),
            6,
        ) == Some(
            seq![q4] + (seq![q5] + (seq![q6] + (seq![q7] + (seq![q8] + (seq![q9]
                + Seq::<Seq<u8>>::empty()))))),
        ),
{
    lemma_parse_last_three(q7, q8, q9);
    let r6 = rlp_str(q7) + (rlp_str(q8) + (rlp_str(q9) + Seq::empty()));
    let ps6 = seq![q7] + (seq![q8] + (seq![q9] + Seq::<Seq<u8>>::empty()));
    lemma_parse_items_cons(q6, r6, 3, ps6);
    lemma_parse_items_cons(q5, rlp_str(q6) + r6, 4, seq![q6] + ps6);
    lemma_parse_items_cons(q4, rlp_str(q5) + (rlp_str(q6) + r6), 5, seq![q5] + (seq![q6] + ps6));
}

/// The nine encoded items of a signed transaction, concatenated, parse
/// back to their payloads, front to back.
#[verifier::rlimit(100)]
#[verifier::spinoff_prover]
proof fn lemma_parse_nine(
    q1: Seq<u8>,
    q2: Seq<u8>,
    q3: Seq<u8>,
    q4: Seq<u8>,
    q5: Seq<u8>,
    q6: Seq<u8>,
    q7: Seq<u8>,
    q8: Seq<u8>,
    q9: Seq<u8>,
)
    requires
        q1.len() < 0x10000000000000000,
        q2.len() < 0x10000000000000000,
        q3.len() < 0x10000000000000000,
        q4.len() < 0x10000000000000000,
        q5.len() < 0x10000000000000000,
        q6.len() < 0x10000000000000000,
        q7.len() < 0x10000000000000000,
        q8.len() < 0x10000000000000000,
        q9.len() < 0x10000000000000000,
    ensures
        parse_items(
            rlp_str(q1) + rlp_str(q2) + rlp_str(q3) + rlp_str(q4) + rlp_str(q5) + rlp_str(q6)
                + rlp_str(q7) + rlp_str(q8) + rlp_str(q9),
            9,
        ) == Some(seq![q1, q2, q3, q4, q5, q6, q7, q8, q9]),
{
    lemma_parse_last_six(q4, q5, q6, q7, q8, q9);
    let r3 = rlp_str(q4) + (rlp_str(q5) + (rlp_str(q6) + (rlp_str(q7) + (rlp_str(q8) + (rlp_str(
        q9,
    ) + Seq::empty())))));
    let ps3 = seq![q4] + (seq![q5] + (seq![q6] + (seq![q7] + (seq![q8] + (seq![q9]
        + Seq::<Seq<u8>>::empty())))));
    lemma_parse_items_cons(q3, r3, 6, ps3);
    lemma_parse_items_cons(q2, rlp_str(q3) + r3, 7, seq![q3] + ps3);
    lemma_parse_items_cons(q1, rlp_str(q2) + (rlp_str(q3) + r3), 8, seq![q2] + (seq![q3] + ps3));
    lemma_nest_nine(
        rlp_str(q1),
        rlp_str(q2),
        rlp_str(q3),
        rlp_str(q4),
        rlp_str(q5),
        rlp_str(q6),
        rlp_str(q7),
        rlp_str(q8),
        rlp_str(q9),
    );
    lemma_flatten_nine(q1, q2, q3, q4, q5, q6, q7, q8, q9);
}

/// Concatenation reassociates: the flat form equals the right-nested form.
#[verifier::spinoff_prover]
proof fn lemma_nest_nine<T>(
    a1: Seq<T>,
    a2: Seq<T>,
    a3: Seq<T>,
    a4: Seq<T>,
    a5: Seq<T>,
    a6: Seq<T>,
    a7: Seq<T>,
    a8: Seq<T>,
    a9: Seq<T>,
)
    ensures
        a1 + a2 + a3 + a4 + a5 + a6 + a7 + a8 + a9 == a1 + (a2 + (a3 + (a4 + (a5 + (a6 + (a7 + (a8
            + (a9 + Seq::<T>::empty())))))))),
{
    assert(a1 + a2 + a3 + a4 + a5 + a6 + a7 + a8 + a9 =~= a1 + (a2 + (a3 + (a4 + (a5 + (a6 + (a7
        + (a8 + (a9 + Seq::<T>::empty())))))))));
}

/// One-element sequences consed up right-nested are the literal sequence.
#[verifier::spinoff_prover]
proof fn lemma_flatten_nine<T>(x1: T, x2: T, x3: T, x4: T, x5: T, x6: T, x7: T, x8: T, x9: T)
    ensures
        seq![x1] + (seq![x2] + (seq![x3] + (seq![x4] + (seq![x5] + (seq![x6] + (seq![x7] + (seq![
            x8,
        ] + (seq![x9] + Seq::<T>::empty())))))))) == seq![x1, x2, x3, x4, x5, x6, x7, x8, x9],
{
    assert(seq![x1] + (seq![x2] + (seq![x3] + (seq![x4] + (seq![x5] + (seq![x6] + (seq![x7]
        + (seq![x8] + (seq![x9] + Seq::<T>::empty())))))))) =~= seq![x1, x2, x3, x4, x5, x6, x7,
        x8, x9]);
}

/// The nine encoded items of a signed transaction parse back to their
/// payloads, and the whole payload is short enough to frame as a list.
#[verifier::rlimit(100)]
#[verifier::spinoff_prover]
proof fn lemma_signed_payload_parses(m: TxModel, sig_r: Seq<u8>, sig_s: Seq<u8>, odd: bool)
    requires
        m.nonce < pow256(8),
        m.gas_price < pow256(16),
        m.gas_limit < pow256(8),
        m.to.len() == 20,
        m.value < pow256(16),
        m.input.len() <= 0xffffffff,
        m.chain_id < pow256(8),
        sig_r.len() == 32,
        sig_s.len() == 32,
    ensures
        ({
            let payload = rlp_uint(m.nonce) + rlp_uint(m.gas_price) + rlp_uint(m.gas_limit)
                + rlp_str(m.to) + rlp_uint(m.value) + rlp_str(m.input) + rlp_uint(
                spec_v(m.chain_id, odd),
            ) + rlp_uint(be_val(sig_r)) + rlp_uint(be_val(sig_s));
            &&& payload.len() < 0x10000000000000000
            &&& parse_items(payload, 9) == Some(
                seq![
                    be_min(m.nonce),
                    be_min(m.gas_price),
                    be_min(m.gas_limit),
                    m.to,
                    be_min(m.value),
                    m.input,
                    be_min(spec_v(m.chain_id, odd)),
                    be_min(be_val(sig_r)),
                    be_min(be_val(sig_s)),
                ],
            )
        }),
{
    let v = spec_v(m.chain_id, odd);
    let q1 = be_min(m.nonce);
    let q2 = be_min(m.gas_price);
    let q3 = be_min(m.gas_limit);
    let q5 = be_min(m.value);
    let q7 = be_min(v);
    let q8 = be_min(be_val(sig_r));
    let q9 = be_min(be_val(sig_s));

    // every item payload is short enough to encode and parse
    lemma_pow256_16();
    assert(pow256(8) == 0x10000000000000000) by {
        reveal_with_fuel(pow256, 9);
    };
    assert(pow256(9) == 256 * pow256(8));
    lemma_be_min_len(m.nonce, 8);
    lemma_be_min_len(m.gas_price, 16);
    lemma_be_min_len(m.gas_limit, 8);
    lemma_be_min_len(m.value, 16);
    assert(v < pow256(9));
    lemma_be_min_len(v, 9);
    lemma_be_val_bound(sig_r);
    lemma_be_val_bound(sig_s);
    lemma_be_min_len(be_val(sig_r), 32);
    lemma_be_min_len(be_val(sig_s), 32);

    let payload = rlp_str(q1) + rlp_str(q2) + rlp_str(q3) + rlp_str(m.to) + rlp_str(q5) + rlp_str(
        m.input,
    ) + rlp_str(q7) + rlp_str(q8) + rlp_str(q9);
    assert(payload.len() < 0x10000000000000000) by {
        lemma_rlp_str_len(q1);
        lemma_rlp_str_len(q2);
        lemma_rlp_str_len(q3);
        lemma_rlp_str_len(m.to);
        lemma_rlp_str_len(q5);
        lemma_rlp_str_len(m.input);
        lemma_rlp_str_len(q7);
        lemma_rlp_str_len(q8);
        lemma_rlp_str_len(q9);
    };
    lemma_parse_nine(q1, q2, q3, m.to, q5, m.input, q7, q8, q9);
}

/// Decoding a broadcast encoding yields back exactly what went in: the six
/// transaction fields, the chain-id-bound recovery value, and the two
/// signature scalars. What the assembler signs reaches the chain intact.
#[verifier::rlimit(100)]
#[verifier::spinoff_prover]
pub proof fn lemma_signed_encoding_round_trip(
    m: TxModel,
    sig_r: Seq<u8>,
    sig_s: Seq<u8>,
    odd: bool,
)
    requires
        m.nonce < pow256(8),
        m.gas_price < pow256(16),
        m.gas_limit < pow256(8),
        m.to.len() == 20,
        m.value < pow256(16),
        m.input.len() <= 0xffffffff,
        m.chain_id < pow256(8),
        sig_r.len() == 32,
        sig_s.len() == 32,
    ensures
        ({
            let raw = spec_signed_encoding(m, sig_r, sig_s, odd);
            &&& parse_list_payload(raw) is Some
            &&& parse_items(parse_list_payload(raw)->Some_0, 9) is Some
            &&& ({
                let items = parse_items(parse_list_payload(raw)->Some_0, 9)->Some_0;
                &&& items.len() == 9
                &&& be_val(items[0]) == m.nonce
                &&& be_val(items[1]) == m.gas_price
                &&& be_val(items[2]) == m.gas_limit
                &&& items[3] == m.to
                &&& be_val(items[4]) == m.value
                &&& items[5] == m.input
                &&& be_val(items[6]) == spec_v(m.chain_id, odd)
                &&& be_val(items[7]) == be_val(sig_r)
                &&& be_val(items[8]) == be_val(sig_s)
            })
        }),
{
    lemma_signed_payload_parses(m, sig_r, sig_s, odd);
    let payload = rlp_uint(m.nonce) + rlp_uint(m.gas_price) + rlp_uint(m.gas_limit) + rlp_str(m.to)
        + rlp_uint(m.value) + rlp_str(m.input) + rlp_uint(spec_v(m.chain_id, odd)) + rlp_uint(
        be_val(sig_r),
    ) + rlp_uint(be_val(sig_s));
    lemma_parse_list_of(payload);
    lemma_be_val_be_min(m.nonce);
    lemma_be_val_be_min(m.gas_price);
    lemma_be_val_be_min(m.gas_limit);
    lemma_be_val_be_min(m.value);
    lemma_be_val_be_min(spec_v(m.chain_id, odd));
    lemma_be_val_be_min(be_val(sig_r));
    lemma_be_val_be_min(be_val(sig_s));
}

/// Every signed transaction this library produces decodes back to the
/// request it was built from: the broadcast bytes parse as one list of
/// nine items holding exactly the nonce, gas price, gas limit,
/// destination, value, call data, the chain-id-bound recovery value, and
/// the two signature scalars.
pub proof fn lemma_signed_transaction_decodes(st: SignedTransaction)
    requires
        st.wf(),
        st.tx.wf(),
        st.sig_r@.len() == 32,
        st.sig_s@.len() == 32,
        st.tx.input@.len() <= 0xffffffff,
    ensures
        parse_list_payload(st.raw@) is Some,
        parse_items(parse_list_payload(st.raw@)->Some_0, 9) is Some,
        ({
            let items = parse_items(parse_list_payload(st.raw@)->Some_0, 9)->Some_0;
            &&& items.len() == 9
            &&& be_val(items[0]) == st.tx.nonce
            &&& be_val(items[1]) == st.tx.gas_price
            &&& be_val(items[2]) == st.tx.gas_limit
            &&& items[3] == st.tx.to@
            &&& be_val(items[4]) == st.tx.value
            &&& items[5] == st.tx.input@
            &&& be_val(items[6]) == spec_v(st.tx.chain_id as nat, st.parity_odd)
            &&& be_val(items[7]) == be_val(st.sig_r@)
            &&& be_val(items[8]) == be_val(st.sig_s@)
        }),
{
    lemma_pow256_16();
    assert(pow256(8) == 0x10000000000000000) by {
        reveal_with_fuel(pow256, 9);
    };
    lemma_signed_encoding_round_trip(st.tx@, st.sig_r@, st.sig_s@, st.parity_odd);
}

/// Two transfers assembled alike but for their nonces differ in the nonce
/// alone, and a later nonce read yields a strictly larger nonce field: two
/// back-to-back sends from one wallet never share a nonce.
pub proof fn lemma_nonce_isolation(
    kind: CallKind,
    to: Seq<u8>,
    value: nat,
    call_data: Seq<u8>,
    nonce1: nat,
    nonce2: nat,
    gas_price: nat,
    gas_limit: nat,
    chain_id: nat,
)
    requires
        nonce1 < nonce2,
    ensures
        ({
            let m1 = spec_assemble(kind, to, value, call_data, nonce1, gas_price, gas_limit,
                chain_id);
            let m2 = spec_assemble(kind, to, value, call_data, nonce2, gas_price, gas_limit,
                chain_id);
            &&& m1.nonce < m2.nonce
            &&& m1.gas_price == m2.gas_price
            &&& m1.gas_limit == m2.gas_limit
            &&& m1.to == m2.to
            &&& m1.value == m2.value
            &&& m1.input == m2.input
            &&& m1.chain_id == m2.chain_id
        }),
{
}

} // verus!
