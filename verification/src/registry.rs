//! The chain registry: per chain id, the native-wrapper token, the pair
//! factory and the router the wallet trades through. Two chains are known,
//! Optimism (10) and Sepolia (11155111); any other id is a configuration
//! error for the request.
use vstd::prelude::*;

use crate::WalletError;

verus! {

pub open spec fn spec_weth_optimism() -> Seq<u8> {
    seq![0x42u8, 0x00u8, 0x00u8, 0x00u8, 0x00u8, 0x00u8, 0x00u8, 0x00u8, 0x00u8, 0x00u8, 0x00u8,
        0x00u8, 0x00u8, 0x00u8, 0x00u8, 0x00u8, 0x00u8, 0x00u8, 0x00u8, 0x06u8]
}

pub open spec fn spec_weth_sepolia() -> Seq<u8> {
    seq![0x7bu8, 0x79u8, 0x99u8, 0x5eu8, 0x5fu8, 0x79u8, 0x3au8, 0x07u8, 0xbcu8, 0x00u8, 0xc2u8,
        0x14u8, 0x12u8, 0xe5u8, 0x0eu8, 0xcau8, 0xe0u8, 0x98u8, 0xe7u8, 0xf9u8]
}

pub open spec fn spec_factory() -> Seq<u8> {
    seq![0x7eu8, 0x09u8, 0x87u8, 0xe5u8, 0xb3u8, 0xa3u8, 0x0eu8, 0x3fu8, 0x28u8, 0x28u8, 0x57u8,
        0x2bu8, 0xb6u8, 0x59u8, 0xa5u8, 0x48u8, 0x46u8, 0x0au8, 0x30u8, 0x03u8]
}

pub open spec fn spec_router_optimism() -> Seq<u8> {
    seq![0xc0u8, 0x2au8, 0xaau8, 0x39u8, 0xb2u8, 0x23u8, 0xfeu8, 0x8du8, 0x0au8, 0x0eu8, 0x5cu8,
        0x4fu8, 0x27u8, 0xeau8, 0xd9u8, 0x08u8, 0x3cu8, 0x75u8, 0x6cu8, 0xc2u8]
}

pub open spec fn spec_router_sepolia() -> Seq<u8> {
    seq![0xc5u8, 0x32u8, 0xa7u8, 0x42u8, 0x56u8, 0xd3u8, 0xdbu8, 0x42u8, 0xd0u8, 0xbfu8, 0x7au8,
        0x04u8, 0x00u8, 0xfeu8, 0xfdu8, 0xbau8, 0xd7u8, 0x69u8, 0x40u8, 0x08u8]
}

/// Whether the registry knows this chain.
pub open spec fn spec_known_chain(chain_id: u64) -> bool {
    chain_id == 10 || chain_id == 11155111
}

/// Copies a 20-byte address out of a fixed table row.
fn vec20(b: &[u8; 20]) -> (r: Vec<u8>)
    ensures
        r@ == b@,
{
    let mut v: Vec<u8> = Vec::new();
    let mut i: usize = 0;
    while i < 20
        invariant
            i <= 20,
            v@ == b@.take(i as int),
        decreases 20 - i,
    {
        v.push(b[i]);
        i = i + 1;
        assert(v@ =~= b@.take(i as int));
    }
    assert(v@ =~= b@);
    v
}

/// The chain's native-wrapper token address, when the chain is known.
pub fn weth_address(chain_id: u64) -> (r: Option<Vec<u8>>)
    ensures
        r is Some <==> spec_known_chain(chain_id),
        chain_id == 10 ==> r->Some_0@ == spec_weth_optimism(),
        chain_id == 11155111 ==> r->Some_0@ == spec_weth_sepolia(),
        r is Some ==> r->Some_0@.len() == 20,
{
    if chain_id == 10 {
        let a = vec20(
            &[0x42, 0x00, 0x00, 0x00, 0x00, 0x00, 0x00, 0x00, 0x00, 0x00, 0x00, 0x00, 0x00, 0x00,
                0x00, 0x00, 0x00, 0x00, 0x00, 0x06],
        );
        assert(a@ =~= spec_weth_optimism());
        Some(a)
    } else if chain_id == 11155111 {
        let a = vec20(
            &[0x7b, 0x79, 0x99, 0x5e, 0x5f, 0x79, 0x3a, 0x07, 0xbc, 0x00, 0xc2, 0x14, 0x12, 0xe5,
                0x0e, 0xca, 0xe0, 0x98, 0xe7, 0xf9],
        );
        assert(a@ =~= spec_weth_sepolia());
        Some(a)
    } else {
        None
    }
}

/// The pair factory address, when the chain is known.
pub fn factory_address(chain_id: u64) -> (r: Option<Vec<u8>>)
    ensures
        r is Some <==> spec_known_chain(chain_id),
        r is Some ==> r->Some_0@ == spec_factory() && r->Some_0@.len() == 20,
{
    if chain_id == 10 || chain_id == 11155111 {
        let a = vec20(
            &[0x7e, 0x09, 0x87, 0xe5, 0xb3, 0xa3, 0x0e, 0x3f, 0x28, 0x28, 0x57, 0x2b, 0xb6, 0x59,
                0xa5, 0x48, 0x46, 0x0a, 0x30, 0x03],
        );
        assert(a@ =~= spec_factory());
        Some(a)
    } else {
        None
    }
}

/// The router address, when the chain is known.
pub fn router_address(chain_id: u64) -> (r: Option<Vec<u8>>)
    ensures
        r is Some <==> spec_known_chain(chain_id),
        chain_id == 10 ==> r->Some_0@ == spec_router_optimism(),
        chain_id == 11155111 ==> r->Some_0@ == spec_router_sepolia(),
        r is Some ==> r->Some_0@.len() == 20,
{
    if chain_id == 10 {
        let a = vec20(
            &[0xc0, 0x2a, 0xaa, 0x39, 0xb2, 0x23, 0xfe, 0x8d, 0x0a, 0x0e, 0x5c, 0x4f, 0x27, 0xea,
                0xd9, 0x08, 0x3c, 0x75, 0x6c, 0xc2],
        );
        assert(a@ =~= spec_router_optimism());
        Some(a)
    } else if chain_id == 11155111 {
        let a = vec20(
            &[0xc5, 0x32, 0xa7, 0x42, 0x56, 0xd3, 0xdb, 0x42, 0xd0, 0xbf, 0x7a, 0x04, 0x00, 0xfe,
                0xfd, 0xba, 0xd7, 0x69, 0x40, 0x08],
        );
        assert(a@ =~= spec_router_sepolia());
        Some(a)
    } else {
        None
    }
}

/// All three swap addresses for a chain at once: the native wrapper, the
/// factory and the router. Fails with a configuration error exactly when
/// the chain is unknown.
pub fn swap_addresses(chain_id: u64) -> (r: Result<(Vec<u8>, Vec<u8>, Vec<u8>), WalletError>)
    ensures
        match r {
            Ok((w, f, t)) => spec_known_chain(chain_id) && w@.len() == 20 && f@.len() == 20
                && t@.len() == 20 && (chain_id == 10 ==> w@ == spec_weth_optimism() && t@
                == spec_router_optimism()) && (chain_id == 11155111 ==> w@ == spec_weth_sepolia()
                && t@ == spec_router_sepolia()) && f@ == spec_factory(),
            Err(e) => e == WalletError::Config && !spec_known_chain(chain_id),
        },
{
    let w = match weth_address(chain_id) {
        Some(a) => a,
        None => {
            return Err(WalletError::Config);
        },
    };
    let f = match factory_address(chain_id) {
        Some(a) => a,
        None => {
            return Err(WalletError::Config);
        },
    };
    let t = match router_address(chain_id) {
        Some(a) => a,
        None => {
            return Err(WalletError::Config);
        },
    };
    Ok((w, f, t))
}

} // verus!
