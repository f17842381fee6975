//! Recursive-length-prefix (RLP) encoding, the canonical byte layout of
//! legacy transactions: byte strings, unsigned integers in minimal
//! big-endian form, and list framing.
use vstd::prelude::*;

use crate::bytes::{
    be_min, be_min_len, be_val, lemma_be_min_len, pow256, push_all, push_be_min,
};

verus! {

/// The RLP encoding of a byte string: a single small byte stands for itself;
/// otherwise a length header precedes the bytes.
pub open spec fn rlp_str(p: Seq<u8>) -> Seq<u8> {
    if p.len() == 1 && p[0] < 0x80 {
        p
    } else if p.len() <= 55 {
        seq![(0x80 + p.len()) as u8] + p
    } else {
        seq![(0xb7 + be_min(p.len() as nat).len()) as u8] + be_min(p.len() as nat) + p
    }
}

/// The RLP encoding of an unsigned integer: its minimal big-endian bytes as a string.
pub open spec fn rlp_uint(v: nat) -> Seq<u8> {
    rlp_str(be_min(v))
}

/// The RLP framing of an already-encoded list payload.
pub open spec fn rlp_list(payload: Seq<u8>) -> Seq<u8> {
    if payload.len() <= 55 {
        seq![(0xc0 + payload.len()) as u8] + payload
    } else {
        seq![(0xf7 + be_min(payload.len() as nat).len()) as u8] + be_min(payload.len() as nat)
            + payload
    }
}

/// Appends the RLP encoding of the byte string `s` to `out`.
pub fn rlp_append_str(out: &mut Vec<u8>, s: &Vec<u8>)
    ensures
        final(out)@ == old(out)@ + rlp_str(s@),
{
    let slen = s.len();
    if slen == 1 && s[0] < 0x80 {
        out.push(s[0]);
        assert(final(out)@ =~= old(out)@ + rlp_str(s@));
    } else if slen <= 55 {
        out.push(0x80 + slen as u8);
        push_all(out, s);
        assert(out@ =~= old(out)@ + rlp_str(s@));
    } else {
        proof {
            assert(pow256(8) == 0x10000000000000000) by {
                reveal_with_fuel(pow256, 9);
            };
            lemma_be_min_len(slen as nat, 8);
        }
        let ll = be_min_len(slen as u128);
        out.push(0xb7 + ll as u8);
        push_be_min(out, slen as u128);
        push_all(out, s);
        assert(out@ =~= old(out)@ + rlp_str(s@));
    }
}

/// Appends the RLP encoding of the unsigned integer `v` to `out`.
pub fn rlp_append_uint(out: &mut Vec<u8>, v: u128)
    ensures
        final(out)@ == old(out)@ + rlp_uint(v as nat),
{
    let mut digits: Vec<u8> = Vec::new();
    push_be_min(&mut digits, v);
    rlp_append_str(out, &digits);
}

/// Wraps an encoded list payload in its RLP list header.
pub fn rlp_wrap_list(payload: &Vec<u8>) -> (r: Vec<u8>)
    ensures
        r@ == rlp_list(payload@),
{
    let plen = payload.len();
    let mut out: Vec<u8> = Vec::new();
    if plen <= 55 {
        out.push(0xc0 + plen as u8);
        push_all(&mut out, payload);
        assert(out@ =~= rlp_list(payload@));
    } else {
        proof {
            assert(pow256(8) == 0x10000000000000000) by {
                reveal_with_fuel(pow256, 9);
            };
            lemma_be_min_len(plen as nat, 8);
        }
        let ll = be_min_len(plen as u128);
        out.push(0xf7 + ll as u8);
        push_be_min(&mut out, plen as u128);
        push_all(&mut out, payload);
        assert(out@ =~= rlp_list(payload@));
    }
    out
}

/// Reading one RLP item off the front of a stream: its payload and what
/// follows. The inverse of `rlp_str` for the encodings this crate emits.
pub open spec fn parse_item(s: Seq<u8>) -> Option<(Seq<u8>, Seq<u8>)> {
    if s.len() == 0 {
        None
    } else if s[0] < 0x80 {
        Some((s.subrange(0, 1), s.skip(1)))
    } else if s[0] <= 0xb7 {
        let l = s[0] as int - 0x80;
        if s.len() >= 1 + l {
            Some((s.subrange(1, 1 + l), s.skip(1 + l)))
        } else {
            None
        }
    } else if s[0] <= 0xbf {
        let ll = s[0] as int - 0xb7;
        if s.len() >= 1 + ll {
            let l = be_val(s.subrange(1, 1 + ll)) as int;
            if s.len() >= 1 + ll + l {
                Some((s.subrange(1 + ll, 1 + ll + l), s.skip(1 + ll + l)))
            } else {
                None
            }
        } else {
            None
        }
    } else {
        None
    }
}

/// Reading a whole list: its payload, when the header length covers the
/// input exactly. The inverse of `rlp_list`.
pub open spec fn parse_list_payload(s: Seq<u8>) -> Option<Seq<u8>> {
    if s.len() == 0 {
        None
    } else if 0xc0 <= s[0] <= 0xf7 {
        let l = s[0] as int - 0xc0;
        if s.len() == 1 + l {
            Some(s.skip(1))
        } else {
            None
        }
    } else if s[0] > 0xf7 {
        let ll = s[0] as int - 0xf7;
        if s.len() >= 1 + ll {
            let l = be_val(s.subrange(1, 1 + ll)) as int;
            if s.len() == 1 + ll + l {
                Some(s.skip(1 + ll))
            } else {
                None
            }
        } else {
            None
        }
    } else {
        None
    }
}

/// Reading exactly `n` items that together consume the stream.
pub open spec fn parse_items(s: Seq<u8>, n: nat) -> Option<Seq<Seq<u8>>>
    decreases n,
{
    if n == 0 {
        if s.len() == 0 {
            Some(Seq::empty())
        } else {
            None
        }
    } else {
        match parse_item(s) {
            Some(pr) => match parse_items(pr.1, (n - 1) as nat) {
                Some(ps) => Some(seq![pr.0] + ps),
                None => None,
            },
            None => None,
        }
    }
}

/// An encoded string parses back to its payload, whatever follows it.
pub proof fn lemma_parse_item_of_str(p: Seq<u8>, rest: Seq<u8>)
    requires
        p.len() < 0x10000000000000000,
    ensures
        parse_item(rlp_str(p) + rest) == Some((p, rest)),
{
    let s = rlp_str(p) + rest;
    if p.len() == 1 && p[0] < 0x80 {
        assert(s[0] == p[0]);
        assert(s.subrange(0, 1) =~= p);
        assert(s.skip(1) =~= rest);
    } else if p.len() <= 55 {
        assert(s[0] == 0x80 + p.len());
        assert(s.subrange(1, 1 + p.len() as int) =~= p);
        assert(s.skip(1 + p.len() as int) =~= rest);
    } else {
        assert(pow256(8) == 0x10000000000000000) by {
            reveal_with_fuel(pow256, 9);
        };
        let lb = be_min(p.len() as nat);
        lemma_be_min_len(p.len() as nat, 8);
        crate::bytes::lemma_be_min_no_leading_zero(p.len() as nat);
        assert(lb.len() >= 1);
        assert(s[0] == 0xb7 + lb.len());
        assert(s.subrange(1, 1 + lb.len() as int) =~= lb);
        crate::bytes::lemma_be_val_be_min(p.len() as nat);
        assert(s.subrange(1 + lb.len() as int, (1 + lb.len() + p.len()) as int) =~= p);
        assert(s.skip((1 + lb.len() + p.len()) as int) =~= rest);
    }
}

/// An encoded list parses back to its payload.
pub proof fn lemma_parse_list_of(payload: Seq<u8>)
    requires
        payload.len() < 0x10000000000000000,
    ensures
        parse_list_payload(rlp_list(payload)) == Some(payload),
{
    let s = rlp_list(payload);
    if payload.len() <= 55 {
        assert(s[0] == 0xc0 + payload.len());
        assert(s.skip(1) =~= payload);
    } else {
        assert(pow256(8) == 0x10000000000000000) by {
            reveal_with_fuel(pow256, 9);
        };
        let lb = be_min(payload.len() as nat);
        lemma_be_min_len(payload.len() as nat, 8);
        crate::bytes::lemma_be_min_no_leading_zero(payload.len() as nat);
        assert(lb.len() >= 1);
        assert(s[0] == 0xf7 + lb.len());
        assert(s.subrange(1, 1 + lb.len() as int) =~= lb);
        crate::bytes::lemma_be_val_be_min(payload.len() as nat);
        assert(s.skip(1 + lb.len() as int) =~= payload);
    }
}

/// The encoding of a string is not much longer than the string: one header
/// byte and at most eight length bytes.
pub proof fn lemma_rlp_str_len(p: Seq<u8>)
    requires
        p.len() < 0x10000000000000000,
    ensures
        rlp_str(p).len() <= 9 + p.len(),
{
    if !(p.len() == 1 && p[0] < 0x80) && p.len() > 55 {
        assert(pow256(8) == 0x10000000000000000) by {
            reveal_with_fuel(pow256, 9);
        };
        lemma_be_min_len(p.len() as nat, 8);
    }
}

} // verus!
