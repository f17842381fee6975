//! Pair pricing from raw reserve snapshots. A price is kept as an exact
//! rational: the reserves and the two decimal exponents. The two directions
//! are reciprocals in this exact form; a caller that renders them as
//! floating-point numbers divides each side independently, as the chain
//! tooling conventionally does, and the two renderings may then differ from
//! exact reciprocity by rounding.
use vstd::prelude::*;

use crate::WalletError;

verus! {

/// 10 raised to `n`: the scale of a token with `n` decimals.
pub open spec fn pow10(n: nat) -> nat
    decreases n,
{
    if n == 0 {
        1
    } else {
        10 * pow10((n - 1) as nat)
    }
}

/// An exchange rate derived from one reserve snapshot, kept exact.
///
/// The price of token0 in units of token1 is the rational
/// `(reserve0 * 10^decimals1) / (reserve1 * 10^decimals0)`, and the price
/// of token1 in units of token0 is its reciprocal.
pub struct PriceQuote {
    pub reserve0: u128,
    pub reserve1: u128,
    pub decimals0: u8,
    pub decimals1: u8,
}

impl PriceQuote {
    /// Both reserves are positive, so both rationals are well defined.
    pub open spec fn wf(&self) -> bool {
        self.reserve0 > 0 && self.reserve1 > 0
    }

    pub open spec fn price0_in_1_num(&self) -> nat {
        (self.reserve0 as nat) * pow10(self.decimals1 as nat)
    }

    pub open spec fn price0_in_1_den(&self) -> nat {
        (self.reserve1 as nat) * pow10(self.decimals0 as nat)
    }

    pub open spec fn price1_in_0_num(&self) -> nat {
        (self.reserve1 as nat) * pow10(self.decimals0 as nat)
    }

    pub open spec fn price1_in_0_den(&self) -> nat {
        (self.reserve0 as nat) * pow10(self.decimals1 as nat)
    }
}

/// Derives the pair's exchange rate from its reserves and the tokens'
/// decimals. Fails exactly when a reserve is zero: an empty or
/// uninitialized pool has no price, and a division by zero must not be
/// smuggled out as an infinity.
pub fn compute_price(reserve0: u128, reserve1: u128, decimals0: u8, decimals1: u8) -> (r: Result<
    PriceQuote,
    WalletError,
>)
    ensures
        match r {
            Ok(q) => reserve0 > 0 && reserve1 > 0 && q == (PriceQuote {
                reserve0,
                reserve1,
                decimals0,
                decimals1,
            }) && q.wf(),
            Err(e) => e == WalletError::ZeroReserve && (reserve0 == 0 || reserve1 == 0),
        },
{
    if reserve0 == 0 || reserve1 == 0 {
        return Err(WalletError::ZeroReserve);
    }
    Ok(PriceQuote { reserve0, reserve1, decimals0, decimals1 })
}

pub proof fn lemma_pow10_pos(n: nat)
    ensures
        pow10(n) >= 1,
    decreases n,
{
    if n > 0 {
        lemma_pow10_pos((n - 1) as nat);
    }
}

/// The two directions of a quote are exact reciprocals: the numerator of
/// one is the denominator of the other.
pub proof fn lemma_prices_reciprocal(q: PriceQuote)
    ensures
        q.price0_in_1_num() == q.price1_in_0_den(),
        q.price0_in_1_den() == q.price1_in_0_num(),
{
}

/// A well-formed quote has positive numerators and denominators: neither
/// rational is zero or undefined.
pub proof fn lemma_price_parts_positive(q: PriceQuote)
    requires
        q.wf(),
    ensures
        q.price0_in_1_num() > 0,
        q.price0_in_1_den() > 0,
        q.price1_in_0_num() > 0,
        q.price1_in_0_den() > 0,
{
    lemma_pow10_pos(q.decimals0 as nat);
    lemma_pow10_pos(q.decimals1 as nat);
    assert((q.reserve0 as nat) * pow10(q.decimals1 as nat) >= 1) by (nonlinear_arith)
        requires
            q.reserve0 >= 1,
            pow10(q.decimals1 as nat) >= 1,
    ;
    assert((q.reserve1 as nat) * pow10(q.decimals0 as nat) >= 1) by (nonlinear_arith)
        requires
            q.reserve1 >= 1,
            pow10(q.decimals0 as nat) >= 1,
    ;
}

} // verus!
