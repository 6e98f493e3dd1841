//! Big-endian byte encodings of unsigned integers.
//!
//! Every multi-byte quantity of the wire format (header fields, atom
//! payloads, lengths) is big-endian.  This module defines the mathematical
//! encoding, its inverse, the minimal encoded width, and executable
//! functions proved against them.

use vstd::prelude::*;

verus! {

/// 256 raised to `n`.
pub open spec fn pow256(n: nat) -> nat
    decreases n,
{
    if n == 0 {
        1
    } else {
        256 * pow256((n - 1) as nat)
    }
}

/// The low `n` bytes of `v`, big-endian (most significant byte first).
pub open spec fn be_bytes(v: nat, n: nat) -> Seq<u8>
    decreases n,
{
    if n == 0 {
        seq![]
    } else {
        be_bytes(v / 256, (n - 1) as nat).push((v % 256) as u8)
    }
}

/// The value a big-endian byte sequence denotes.
pub open spec fn be_val(s: Seq<u8>) -> nat
    decreases s.len(),
{
    if s.len() == 0 {
        0
    } else {
        be_val(s.drop_last()) * 256 + s.last() as nat
    }
}

/// The least width (at least one byte) that holds `v` big-endian.
pub open spec fn min_be_len(v: nat) -> nat
    decreases v,
{
    if v < 256 {
        1
    } else {
        1 + min_be_len(v / 256)
    }
}

pub proof fn lemma_pow256_pos(n: nat)
    ensures
        pow256(n) >= 1,
    decreases n,
{
    if n > 0 {
        lemma_pow256_pos((n - 1) as nat);
    }
}

pub proof fn lemma_be_bytes_len(v: nat, n: nat)
    ensures
        be_bytes(v, n).len() == n,
    decreases n,
{
    if n > 0 {
        lemma_be_bytes_len(v / 256, (n - 1) as nat);
    }
}

/// Decoding inverts encoding for every value that fits the width.
pub proof fn lemma_be_val_of_be_bytes(v: nat, n: nat)
    requires
        v < pow256(n),
    ensures
        be_val(be_bytes(v, n)) == v,
    decreases n,
{
    if n == 0 {
    } else {
        let m = (n - 1) as nat;
        assert(v / 256 < pow256(m)) by (nonlinear_arith)
            requires v < 256 * pow256(m),
        ;
        lemma_be_val_of_be_bytes(v / 256, m);
        lemma_be_bytes_len(v / 256, m);
        let s = be_bytes(v, n);
        assert(s.drop_last() =~= be_bytes(v / 256, m));
        assert(v / 256 * 256 + v % 256 == v) by (nonlinear_arith);
    }
}

/// No sequence of `n` bytes denotes a value as large as `pow256(n)`.
pub proof fn lemma_be_val_bound(s: Seq<u8>)
    ensures
        be_val(s) < pow256(s.len()),
    decreases s.len(),
{
    if s.len() > 0 {
        lemma_be_val_bound(s.drop_last());
        let p = pow256((s.len() - 1) as nat);
        assert(be_val(s.drop_last()) * 256 + 255 < 256 * p) by (nonlinear_arith)
            requires be_val(s.drop_last()) < p,
        ;
    }
}

/// The minimal width really holds the value.
pub proof fn lemma_min_be_len_fits(v: nat)
    ensures
        v < pow256(min_be_len(v)),
        min_be_len(v) >= 1,
    decreases v,
{
    if v < 256 {
        assert(pow256(1nat) == 256) by {
            reveal_with_fuel(pow256, 2);
        }
    } else {
        lemma_min_be_len_fits(v / 256);
        let m = min_be_len(v / 256);
        assert(min_be_len(v) == 1 + m);
        assert(pow256(1 + m) == 256 * pow256(m));
        assert(v < 256 * pow256(m)) by (nonlinear_arith)
            requires v / 256 < pow256(m), v >= 256,
        ;
    }
}

/// No width below the minimal one holds the value.
pub proof fn lemma_min_be_len_le(v: nat, n: nat)
    requires
        n >= 1,
        v < pow256(n),
    ensures
        min_be_len(v) <= n,
    decreases v,
{
    if v < 256 {
    } else {
        assert(n >= 2) by {
            if n == 1 {
                assert(pow256(1nat) == 256);
            }
        }
        assert(v / 256 < pow256((n - 1) as nat)) by (nonlinear_arith)
            requires v < 256 * pow256((n - 1) as nat),
        ;
        lemma_min_be_len_le(v / 256, (n - 1) as nat);
    }
}

/// Eight bytes hold every `u64`.
pub proof fn lemma_pow256_8()
    ensures
        pow256(8) == 0x1_0000_0000_0000_0000,
        pow256(4) == 0x1_0000_0000,
        pow256(3) == 0x100_0000,
        pow256(2) == 0x1_0000,
        pow256(1) == 0x100,
{
    reveal_with_fuel(pow256, 9);
}

/// The big-endian encoding of `v` in exactly `n` bytes.
pub fn u64_be_bytes(v: u64, n: usize) -> (r: Vec<u8>)
    ensures
        r@ == be_bytes(v as nat, n as nat),
        r@.len() == n,
    decreases n,
{
    proof {
        lemma_be_bytes_len(v as nat, n as nat);
    }
    if n == 0 {
        Vec::new()
    } else {
        let mut r = u64_be_bytes(v / 256, n - 1);
        r.push((v % 256) as u8);
        r
    }
}

/// The least width that holds `v`.
pub fn u64_min_be_len(v: u64) -> (n: usize)
    ensures
        n as nat == min_be_len(v as nat),
        1 <= n <= 8,
    decreases v,
{
    proof {
        lemma_pow256_8();
        lemma_min_be_len_le(v as nat, 8);
    }
    if v < 256 {
        1
    } else {
        let r = u64_min_be_len(v / 256);
        1 + r
    }
}

/// Reads the value of `n` big-endian bytes starting at `start`.
pub fn read_be_u64(bytes: &Vec<u8>, start: usize, n: usize) -> (v: u64)
    requires
        start + n <= bytes@.len(),
        n <= 8,
    ensures
        v as nat == be_val(bytes@.subrange(start as int, start as int + n as int)),
{
    let len = bytes.len();
    let mut v: u64 = 0;
    let mut i: usize = 0;
    proof {
        lemma_pow256_8();
        assert(bytes@.subrange(start as int, start as int) =~= Seq::<u8>::empty());
    }
    while i < n
        invariant
            i <= n,
            n <= 8,
            start + n <= len,
            len == bytes@.len(),
            v as nat == be_val(bytes@.subrange(start as int, start as int + i as int)),
            (v as nat) < pow256(i as nat),
            pow256(8) == 0x1_0000_0000_0000_0000,
        decreases n - i,
    {
        proof {
            let pre = bytes@.subrange(start as int, start as int + i as int);
            let post = bytes@.subrange(start as int, start as int + i as int + 1);
            assert(post.drop_last() =~= pre);
            assert(post.last() == bytes@[start as int + i as int]);
            assert(pow256((i + 1) as nat) == 256 * pow256(i as nat));
            if i < 7 {
                assert(pow256(i as nat) <= pow256(7nat)) by {
                    lemma_pow256_mono(i as nat, 7nat);
                }
                reveal_with_fuel(pow256, 9);
            } else {
                assert(i == 7);
            }
            assert(v as nat * 256 + 256 <= 256 * pow256(i as nat)) by (nonlinear_arith)
                requires (v as nat) < pow256(i as nat),
            ;
        }
        v = v * 256 + (bytes[start + i] as u64);
        i = i + 1;
    }
    proof {
        assert(bytes@.subrange(start as int, start as int + n as int)
            =~= bytes@.subrange(start as int, start as int + i as int));
    }
    v
}

pub proof fn lemma_pow256_mono(a: nat, b: nat)
    requires
        a <= b,
    ensures
        pow256(a) <= pow256(b),
    decreases b,
{
    if a < b {
        lemma_pow256_mono(a, (b - 1) as nat);
        lemma_pow256_pos((b - 1) as nat);
    }
}

/// Appends the `n`-byte big-endian encoding of `v` to `out`.
pub fn put_be(out: &mut Vec<u8>, v: u64, n: usize)
    ensures
        final(out)@ == old(out)@ + be_bytes(v as nat, n as nat),
{
    let mut chunk = u64_be_bytes(v, n);
    out.append(&mut chunk);
}

} // verus!
