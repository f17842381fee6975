//! Big-endian byte encodings of unsigned integers, the shared ground for
//! the ABI and RLP encoders: fixed-width and minimal-width forms, their
//! numeric values, and the lemmas connecting them.
use vstd::prelude::*;

verus! {

/// 256 raised to `n`: the number of values a big-endian string of `n` bytes can take.
pub open spec fn pow256(n: nat) -> nat
    decreases n,
{
    if n == 0 {
        1
    } else {
        256 * pow256((n - 1) as nat)
    }
}

/// The big-endian encoding of `v` in exactly `n` bytes (high bytes first,
/// truncating above `pow256(n)`).
pub open spec fn be_bytes(v: nat, n: nat) -> Seq<u8>
    decreases n,
{
    if n == 0 {
        Seq::empty()
    } else {
        be_bytes(v / 256, (n - 1) as nat).push((v % 256) as u8)
    }
}

/// The numeric value of a big-endian byte string.
pub open spec fn be_val(s: Seq<u8>) -> nat
    decreases s.len(),
{
    if s.len() == 0 {
        0
    } else {
        (be_val(s.drop_last()) * 256 + s.last()) as nat
    }
}

/// The minimal big-endian encoding of `v`: no leading zero byte, empty for zero.
pub open spec fn be_min(v: nat) -> Seq<u8>
    decreases v,
{
    if v == 0 {
        Seq::empty()
    } else {
        be_min(v / 256).push((v % 256) as u8)
    }
}

pub proof fn lemma_pow256_pos(n: nat)
    ensures
        pow256(n) >= 1,
    decreases n,
{
    if n > 0 {
        lemma_pow256_pos((n - 1) as nat);
    }
}

pub proof fn lemma_be_bytes_len(v: nat, n: nat)
    ensures
        be_bytes(v, n).len() == n,
    decreases n,
{
    if n > 0 {
        lemma_be_bytes_len(v / 256, (n - 1) as nat);
    }
}

/// A fixed-width encoding decodes back to its value, provided the value fits.
pub proof fn lemma_be_val_be_bytes(v: nat, n: nat)
    requires
        v < pow256(n),
    ensures
        be_val(be_bytes(v, n)) == v,
    decreases n,
{
    if n == 0 {
    } else {
        lemma_be_bytes_len(v / 256, (n - 1) as nat);
        assert(be_bytes(v, n).drop_last() =~= be_bytes(v / 256, (n - 1) as nat));
        assert(v / 256 < pow256((n - 1) as nat)) by {
            lemma_pow256_pos((n - 1) as nat);
        };
        lemma_be_val_be_bytes(v / 256, (n - 1) as nat);
    }
}

/// A byte string of length `n` encodes a value below `pow256(n)`.
pub proof fn lemma_be_val_bound(s: Seq<u8>)
    ensures
        be_val(s) < pow256(s.len()),
    decreases s.len(),
{
    if s.len() > 0 {
        lemma_be_val_bound(s.drop_last());
    }
}

pub proof fn lemma_be_val_append(a: Seq<u8>, b: Seq<u8>)
    ensures
        be_val(a + b) == be_val(a) * pow256(b.len()) + be_val(b),
    decreases b.len(),
{
    if b.len() == 0 {
        assert(a + b =~= a);
        assert(pow256(0) == 1);
        assert(be_val(b) == 0);
        assert(be_val(a) * 1 == be_val(a)) by (nonlinear_arith);
    } else {
        assert((a + b).drop_last() =~= a + b.drop_last());
        assert((a + b).last() == b.last());
        lemma_be_val_append(a, b.drop_last());
        let ghost x = be_val(a);
        let ghost p1 = pow256((b.len() - 1) as nat);
        let ghost y = be_val(b.drop_last());
        let ghost l = b.last() as nat;
        assert(be_val(a + b) == be_val((a + b).drop_last()) * 256 + l);
        assert(be_val((a + b).drop_last()) == x * p1 + y);
        assert((x * p1 + y) * 256 + l == x * (p1 * 256) + (y * 256 + l)) by (nonlinear_arith);
        assert(p1 * 256 == pow256(b.len()));
        assert(x * (p1 * 256) == x * pow256(b.len())) by (nonlinear_arith)
            requires
                p1 * 256 == pow256(b.len()),
        ;
        assert(be_val(b) == y * 256 + l);
    }
}

/// The minimal encoding never starts with a zero byte.
pub proof fn lemma_be_min_no_leading_zero(v: nat)
    ensures
        be_min(v).len() > 0 ==> be_min(v)[0] != 0,
        v == 0 <==> be_min(v).len() == 0,
    decreases v,
{
    if v > 0 {
        lemma_be_min_no_leading_zero(v / 256);
        if v / 256 == 0 {
            assert(be_min(v) =~= Seq::empty().push((v % 256) as u8));
            assert(v % 256 == v);
        } else {
            assert(be_min(v)[0] == be_min(v / 256)[0]);
        }
    }
}

pub proof fn lemma_be_min_len(v: nat, n: nat)
    requires
        v < pow256(n),
    ensures
        be_min(v).len() <= n,
    decreases n,
{
    if v > 0 {
        assert(v / 256 < pow256((n - 1) as nat)) by {
            lemma_pow256_pos((n - 1) as nat);
        };
        lemma_be_min_len(v / 256, (n - 1) as nat);
    }
}

/// The minimal encoding also decodes back to its value.
pub proof fn lemma_be_val_be_min(v: nat)
    ensures
        be_val(be_min(v)) == v,
    decreases v,
{
    if v > 0 {
        assert(be_min(v).drop_last() =~= be_min(v / 256));
        lemma_be_val_be_min(v / 256);
    }
}

/// Appends the `n`-byte big-endian encoding of `v` to `out`.
pub fn push_be_bytes(out: &mut Vec<u8>, v: u128, n: usize)
    ensures
        final(out)@ == old(out)@ + be_bytes(v as nat, n as nat),
    decreases n,
{
    if n == 0 {
        assert(old(out)@ + be_bytes(v as nat, 0) =~= old(out)@);
    } else {
        push_be_bytes(out, v / 256, n - 1);
        out.push((v % 256) as u8);
        assert(final(out)@ =~= old(out)@ + be_bytes(v as nat, n as nat));
    }
}

/// Appends the minimal big-endian encoding of `v` to `out`.
pub fn push_be_min(out: &mut Vec<u8>, v: u128)
    ensures
        final(out)@ == old(out)@ + be_min(v as nat),
    decreases v,
{
    if v == 0 {
        assert(old(out)@ + be_min(0) =~= old(out)@);
    } else {
        push_be_min(out, v / 256);
        out.push((v % 256) as u8);
        assert(final(out)@ =~= old(out)@ + be_min(v as nat));
    }
}

/// The number of bytes in the minimal encoding of `v`.
pub fn be_min_len(v: u128) -> (r: usize)
    ensures
        r == be_min(v as nat).len(),
{
    let mut n: usize = 0;
    let mut x: u128 = v;
    while x > 0
        invariant
            n + be_min(x as nat).len() == be_min(v as nat).len(),
            n <= 16,
        decreases x,
    {
        proof {
            lemma_pow256_16();
            lemma_be_min_len(v as nat, 16);
        }
        x = x / 256;
        n = n + 1;
    }
    n
}

/// Appends a copy of `src` to `out`.
pub fn push_all(out: &mut Vec<u8>, src: &Vec<u8>)
    ensures
        final(out)@ == old(out)@ + src@,
{
    let mut i: usize = 0;
    while i < src.len()
        invariant
            i <= src@.len(),
            out@ == old(out)@ + src@.subrange(0, i as int),
        decreases src@.len() - i,
    {
        out.push(src[i]);
        i = i + 1;
        assert(out@ =~= old(out)@ + src@.subrange(0, i as int));
    }
    assert(out@ =~= old(out)@ + src@);
}

/// Reads the big-endian value of `bytes[from .. from + n]` as a `u128`.
pub fn read_be_u128(bytes: &Vec<u8>, from: usize, n: usize) -> (r: u128)
    requires
        n <= 16,
        from + n <= bytes@.len(),
    ensures
        r as nat == be_val(bytes@.subrange(from as int, from + n)),
{
    let blen = bytes.len();
    let mut val: u128 = 0;
    let mut i: usize = 0;
    while i < n
        invariant
            i <= n,
            n <= 16,
            from + n <= blen,
            blen == bytes@.len(),
            val as nat == be_val(bytes@.subrange(from as int, from + i)),
            val < pow256(i as nat),
        decreases n - i,
    {
        proof {
            assert(bytes@.subrange(from as int, from + i + 1).drop_last() =~= bytes@.subrange(
                from as int,
                from + i,
            ));
            lemma_pow256_mono((i + 1) as nat, 16);
            lemma_pow256_16();
            assert(val * 256 + 256 <= pow256((i + 1) as nat)) by (nonlinear_arith)
                requires
                    val < pow256(i as nat),
                    pow256((i + 1) as nat) == 256 * pow256(i as nat),
            ;
        }
        val = val * 256 + (bytes[from + i] as u128);
        i = i + 1;
    }
    val
}

/// The byte string with its leading zero bytes removed.
pub open spec fn strip_zeros(s: Seq<u8>) -> Seq<u8>
    decreases s.len(),
{
    if s.len() > 0 && s[0] == 0 {
        strip_zeros(s.skip(1))
    } else {
        s
    }
}

/// Stripping leading zeros keeps the value and leaves no leading zero.
pub proof fn lemma_strip_zeros_props(s: Seq<u8>)
    ensures
        be_val(strip_zeros(s)) == be_val(s),
        strip_zeros(s).len() > 0 ==> strip_zeros(s)[0] != 0,
        strip_zeros(s).len() <= s.len(),
    decreases s.len(),
{
    if s.len() > 0 && s[0] == 0 {
        lemma_strip_zeros_props(s.skip(1));
        assert(s =~= seq![s[0]] + s.skip(1));
        lemma_be_val_append(seq![s[0]], s.skip(1));
        assert(be_val(seq![s[0]]) == 0) by {
            let z = seq![s[0]];
            assert(z.len() == 1);
            assert(z.drop_last() =~= Seq::<u8>::empty());
            assert(be_val(z.drop_last()) == 0);
            assert(z.last() == 0);
        };
        assert(be_val(s) == 0 * pow256(s.skip(1).len()) + be_val(s.skip(1)));
    }
}

/// A byte string without a leading zero is the minimal encoding of its value.
pub proof fn lemma_be_min_of_unpadded(t: Seq<u8>)
    requires
        t.len() > 0 ==> t[0] != 0,
    ensures
        be_min(be_val(t)) == t,
    decreases t.len(),
{
    if t.len() == 0 {
        assert(be_min(0) =~= t);
    } else {
        let v = be_val(t);
        let prev = t.drop_last();
        assert(v == be_val(prev) * 256 + t.last());
        assert(v / 256 == be_val(prev) && v % 256 == t.last()) by (nonlinear_arith)
            requires
                v == be_val(prev) * 256 + t.last(),
                0 <= t.last() < 256,
        ;
        if t.len() == 1 {
            assert(prev =~= Seq::<u8>::empty());
            assert(be_val(prev) == 0);
            assert(v == t.last());
            assert(v != 0) by {
                assert(t.last() == t[0]);
            };
            assert(be_min(v) =~= be_min(0).push((v % 256) as u8));
            assert(be_min(v) =~= t);
        } else {
            assert(prev[0] == t[0]);
            lemma_be_min_of_unpadded(prev);
            assert(be_val(prev) > 0) by {
                crate::abi::lemma_be_val_zero_iff(prev);
            };
            assert(v > 0) by (nonlinear_arith)
                requires
                    v == be_val(prev) * 256 + t.last(),
                    be_val(prev) > 0,
            ;
            assert(be_min(v) =~= be_min(be_val(prev)).push(t.last()));
            assert(be_min(v) =~= prev.push(t.last()));
            assert(prev.push(t.last()) =~= t);
        }
    }
}

/// Copies `s` with its leading zero bytes removed.
pub fn strip_leading_zeros(s: &Vec<u8>) -> (r: Vec<u8>)
    ensures
        r@ == strip_zeros(s@),
{
    let slen = s.len();
    let mut k: usize = 0;
    proof {
        assert(s@.skip(0) =~= s@);
    }
    while k < slen && s[k] == 0
        invariant
            k <= slen,
            slen == s@.len(),
            strip_zeros(s@) == strip_zeros(s@.skip(k as int)),
        decreases slen - k,
    {
        proof {
            assert(s@.skip(k as int)[0] == s@[k as int]);
            assert(s@.skip(k as int).skip(1) =~= s@.skip(k as int + 1));
        }
        k = k + 1;
    }
    proof {
        if k == slen {
            assert(s@.skip(k as int) =~= Seq::<u8>::empty());
        } else {
            assert(s@.skip(k as int)[0] == s@[k as int]);
        }
        assert(strip_zeros(s@) == s@.skip(k as int));
    }
    let mut r: Vec<u8> = Vec::new();
    let mut i: usize = k;
    while i < slen
        invariant
            k <= i <= slen,
            slen == s@.len(),
            r@ == s@.subrange(k as int, i as int),
        decreases slen - i,
    {
        r.push(s[i]);
        i = i + 1;
        assert(r@ =~= s@.subrange(k as int, i as int));
    }
    proof {
        assert(r@ =~= s@.skip(k as int));
    }
    r
}

pub proof fn lemma_pow256_16()
    ensures
        pow256(16) == 0x100000000000000000000000000000000,
{
    reveal_with_fuel(pow256, 17);
}

pub proof fn lemma_pow256_mono(m: nat, n: nat)
    requires
        m <= n,
    ensures
        pow256(m) <= pow256(n),
    decreases n,
{
    if m < n {
        lemma_pow256_mono(m, (n - 1) as nat);
        lemma_pow256_pos((n - 1) as nat);
    }
}

} // verus!
