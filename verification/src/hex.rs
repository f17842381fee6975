//! Hexadecimal parsing for the key and address text a user supplies:
//! strict pairwise digit decoding, with an optional `0x` prefix stripped by
//! the address and key parsers.
use vstd::prelude::*;

use crate::WalletError;

verus! {

/// Whether `c` is an ASCII hexadecimal digit.
pub open spec fn is_hex_digit(c: u8) -> bool {
    (48 <= c <= 57) || (97 <= c <= 102) || (65 <= c <= 70)
}

/// The value of an ASCII hexadecimal digit.
pub open spec fn hex_digit_val(c: u8) -> nat {
    if 48 <= c <= 57 {
        (c - 48) as nat
    } else if 97 <= c <= 102 {
        (c - 87) as nat
    } else if 65 <= c <= 70 {
        (c - 55) as nat
    } else {
        0
    }
}

/// What a hexadecimal string decodes to: one byte per digit pair, or
/// nothing on an odd length or a stray character.
pub open spec fn spec_hex_decode(s: Seq<u8>) -> Option<Seq<u8>>
    decreases s.len(),
{
    if s.len() == 0 {
        Some(Seq::empty())
    } else if s.len() == 1 {
        None
    } else if is_hex_digit(s[0]) && is_hex_digit(s[1]) {
        match spec_hex_decode(s.skip(2)) {
            Some(rest) => Some(
                seq![(hex_digit_val(s[0]) * 16 + hex_digit_val(s[1])) as u8] + rest,
            ),
            None => None,
        }
    } else {
        None
    }
}

/// The input with a leading `0x` removed, when one is there.
pub open spec fn spec_strip_0x(s: Seq<u8>) -> Seq<u8> {
    if s.len() >= 2 && s[0] == 48 && s[1] == 120 {
        s.skip(2)
    } else {
        s
    }
}

/// Decodes one ASCII hexadecimal digit.
fn hex_nibble(c: u8) -> (r: Option<u8>)
    ensures
        r is Some <==> is_hex_digit(c),
        r is Some ==> r->0 as nat == hex_digit_val(c) && r->0 < 16,
{
    if 48 <= c && c <= 57 {
        Some(c - 48)
    } else if 97 <= c && c <= 102 {
        Some(c - 87)
    } else if 65 <= c && c <= 70 {
        Some(c - 55)
    } else {
        None
    }
}

/// Decodes a hexadecimal string to its bytes. Fails with a codec error on
/// an odd length or any character that is not a hexadecimal digit.
pub fn decode_hex(input: &Vec<u8>) -> (r: Result<Vec<u8>, WalletError>)
    ensures
        match r {
            Ok(v) => spec_hex_decode(input@) == Some(v@),
            Err(e) => e == WalletError::Codec && spec_hex_decode(input@) is None,
        },
{
    let ilen = input.len();
    if ilen % 2 != 0 {
        proof {
            lemma_hex_decode_odd(input@);
        }
        return Err(WalletError::Codec);
    }
    let mut out: Vec<u8> = Vec::new();
    let mut i: usize = 0;
    proof {
        assert(input@.skip(0) =~= input@);
        if spec_hex_decode(input@) is Some {
            assert(out@ + spec_hex_decode(input@)->Some_0 =~= spec_hex_decode(input@)->Some_0);
        }
    }
    while i < ilen
        invariant
            i <= ilen,
            i % 2 == 0,
            ilen % 2 == 0,
            ilen == input@.len(),
            match spec_hex_decode(input@.skip(i as int)) {
                Some(t) => spec_hex_decode(input@) == Some(out@ + t),
                None => spec_hex_decode(input@) is None,
            },
        decreases ilen - i,
    {
        let ghost tail = input@.skip(i as int);
        proof {
            assert(tail.len() >= 2);
            assert(tail[0] == input@[i as int]);
            assert(tail[1] == input@[i as int + 1]);
        }
        let hi = match hex_nibble(input[i]) {
            Some(h) => h,
            None => {
                return Err(WalletError::Codec);
            },
        };
        let lo = match hex_nibble(input[i + 1]) {
            Some(l) => l,
            None => {
                return Err(WalletError::Codec);
            },
        };
        let ghost prev_out = out@;
        out.push(hi * 16 + lo);
        proof {
            assert(tail.skip(2) =~= input@.skip(i as int + 2));
            if spec_hex_decode(input@.skip(i as int + 2)) is Some {
                let t2 = spec_hex_decode(input@.skip(i as int + 2))->Some_0;
                assert(spec_hex_decode(tail) == Some(seq![(hi * 16 + lo) as u8] + t2));
                assert(prev_out + (seq![(hi * 16 + lo) as u8] + t2) =~= out@ + t2);
            }
        }
        i = i + 2;
    }
    proof {
        assert(input@.skip(ilen as int) =~= Seq::<u8>::empty());
        assert(out@ + Seq::<u8>::empty() =~= out@);
    }
    Ok(out)
}

proof fn lemma_hex_decode_odd(s: Seq<u8>)
    requires
        s.len() % 2 == 1,
    ensures
        spec_hex_decode(s) is None,
    decreases s.len(),
{
    if s.len() > 1 {
        if is_hex_digit(s[0]) && is_hex_digit(s[1]) {
            lemma_hex_decode_odd(s.skip(2));
        }
    }
}

/// Parses a 20-byte chain address from hexadecimal text, with an optional
/// `0x` prefix. Fails with a codec error on any other input.
pub fn parse_eth_address(text: &Vec<u8>) -> (r: Result<Vec<u8>, WalletError>)
    ensures
        match r {
            Ok(a) => spec_hex_decode(spec_strip_0x(text@)) == Some(a@) && a@.len() == 20,
            Err(e) => e == WalletError::Codec && (spec_hex_decode(spec_strip_0x(text@)) is None
                || spec_hex_decode(spec_strip_0x(text@))->Some_0.len() != 20),
        },
{
    parse_fixed_hex(text, 20)
}

/// Parses a 32-byte signing key from hexadecimal text, with an optional
/// `0x` prefix. Fails with a codec error on any other input.
pub fn parse_key_bytes(text: &Vec<u8>) -> (r: Result<Vec<u8>, WalletError>)
    ensures
        match r {
            Ok(k) => spec_hex_decode(spec_strip_0x(text@)) == Some(k@) && k@.len() == 32,
            Err(e) => e == WalletError::Codec && (spec_hex_decode(spec_strip_0x(text@)) is None
                || spec_hex_decode(spec_strip_0x(text@))->Some_0.len() != 32),
        },
{
    parse_fixed_hex(text, 32)
}

/// Parses hexadecimal text, with an optional `0x` prefix, into exactly `n`
/// bytes.
fn parse_fixed_hex(text: &Vec<u8>, n: usize) -> (r: Result<Vec<u8>, WalletError>)
    ensures
        match r {
            Ok(a) => spec_hex_decode(spec_strip_0x(text@)) == Some(a@) && a@.len() == n,
            Err(e) => e == WalletError::Codec && (spec_hex_decode(spec_strip_0x(text@)) is None
                || spec_hex_decode(spec_strip_0x(text@))->Some_0.len() != n),
        },
{
    let stripped: Vec<u8>;
    if text.len() >= 2 && text[0] == 48 && text[1] == 120 {
        let mut s: Vec<u8> = Vec::new();
        let mut i: usize = 2;
        while i < text.len()
            invariant
                2 <= i <= text@.len(),
                s@ == text@.subrange(2, i as int),
            decreases text@.len() - i,
        {
            s.push(text[i]);
            i = i + 1;
            assert(s@ =~= text@.subrange(2, i as int));
        }
        proof {
            assert(s@ =~= text@.skip(2));
        }
        stripped = s;
    } else {
        let mut s: Vec<u8> = Vec::new();
        let mut i: usize = 0;
        while i < text.len()
            invariant
                i <= text@.len(),
                s@ == text@.subrange(0, i as int),
            decreases text@.len() - i,
        {
            s.push(text[i]);
            i = i + 1;
            assert(s@ =~= text@.subrange(0, i as int));
        }
        proof {
            assert(s@ =~= text@);
        }
        stripped = s;
    }
    let bytes = match decode_hex(&stripped) {
        Ok(b) => b,
        Err(e) => {
            return Err(e);
        },
    };
    if bytes.len() != n {
        return Err(WalletError::Codec);
    }
    Ok(bytes)
}

} // verus!
