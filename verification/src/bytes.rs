//! Little-endian encoding of 64-bit words as bytes.
use vstd::prelude::*;

use crate::common::pow2;

verus! {

/// Byte `i` (counting from the least significant) of `v`.
pub open spec fn byte_of(v: u64, i: nat) -> u8 {
    ((v >> ((8 * i) as u64)) & 0xff) as u8
}

/// The first `n` bytes of `v` in little-endian order.
pub open spec fn le_bytes(v: u64, n: nat) -> Seq<u8> {
    Seq::new(n, |i: int| byte_of(v, i as nat))
}

/// The number whose little-endian bytes are `b`.
pub open spec fn le_value(b: Seq<u8>) -> nat
    decreases b.len(),
{
    if b.len() == 0 {
        0
    } else {
        (b[0] as nat + 256 * le_value(b.drop_first())) as nat
    }
}

pub proof fn lemma_pow2_byte_step(k: nat)
    ensures
        pow2(8 * (k + 1)) == 256 * pow2(8 * k),
{
    reveal_with_fuel(pow2, 9);
    assert(8 * (k + 1) == 8 * k + 8) by (nonlinear_arith);
    let n = 8 * k;
    assert(pow2(n + 8) == 2 * pow2(n + 7));
    assert(pow2(n + 7) == 2 * pow2(n + 6));
    assert(pow2(n + 6) == 2 * pow2(n + 5));
    assert(pow2(n + 5) == 2 * pow2(n + 4));
    assert(pow2(n + 4) == 2 * pow2(n + 3));
    assert(pow2(n + 3) == 2 * pow2(n + 2));
    assert(pow2(n + 2) == 2 * pow2(n + 1));
    assert(pow2(n + 1) == 2 * pow2(n));
}

pub proof fn lemma_pow2_small()
    ensures
        pow2(0) == 1,
        pow2(8) == 0x100,
        pow2(16) == 0x1_0000,
        pow2(24) == 0x100_0000,
        pow2(32) == 0x1_0000_0000,
        pow2(40) == 0x100_0000_0000,
        pow2(48) == 0x1_0000_0000_0000,
        pow2(56) == 0x100_0000_0000_0000,
        pow2(64) == 0x1_0000_0000_0000_0000,
{
    reveal_with_fuel(pow2, 65);
}

/// A little-endian number of `b.len()` bytes is below `256^len`.
pub proof fn lemma_le_value_bound(b: Seq<u8>)
    ensures
        le_value(b) < pow2(8 * b.len()),
    decreases b.len(),
{
    if b.len() == 0 {
        reveal_with_fuel(pow2, 1);
    } else {
        lemma_le_value_bound(b.drop_first());
        lemma_pow2_byte_step((b.len() - 1) as nat);
        assert(8 * b.len() == 8 * ((b.len() - 1) as nat + 1));
    }
}

/// Reading back `n` bytes of `v`, for the access sizes 1, 2, 4 and 8,
/// gives `v` modulo `256^n`.
pub proof fn lemma_le_roundtrip(v: u64, n: nat)
    requires
        n == 1 || n == 2 || n == 4 || n == 8,
    ensures
        le_value(le_bytes(v, n)) == v as int % pow2(8 * n) as int,
{
    lemma_pow2_small();
    let b = le_bytes(v, n);
    let s1 = b.drop_first();
    let s2 = s1.drop_first();
    let s3 = s2.drop_first();
    assert(v >> 0u64 == v) by (bit_vector);
    assert(b[0] == (v & 0xff) as u8);
    assert((v & 0xff) < 256) by (bit_vector);
    assert(le_value(b) == b[0] + 256 * le_value(s1));
    if n >= 2 {
        assert(le_value(s1) == s1[0] + 256 * le_value(s2));
    }
    if n >= 4 {
        assert(le_value(s2) == s2[0] + 256 * le_value(s3));
        assert(le_value(s3) == s3[0] + 256 * le_value(s3.drop_first()));
    }
    if n == 1 {
        assert(le_value(s1) == 0);
        assert((v & 0xff) == v % 0x100) by (bit_vector);
    } else if n == 2 {
        assert(s1[0] == ((v >> 8u64) & 0xff) as u8);
        assert(((v >> 8u64) & 0xff) < 256) by (bit_vector);
        assert(le_value(s2) == 0);
        assert((v & 0xff) + 256 * ((v >> 8u64) & 0xff) == v % 0x1_0000) by (bit_vector);
    } else if n == 4 {
        let s4 = s3.drop_first();
        assert(s1[0] == ((v >> 8u64) & 0xff) as u8);
        assert(s2[0] == ((v >> 16u64) & 0xff) as u8);
        assert(s3[0] == ((v >> 24u64) & 0xff) as u8);
        assert(((v >> 8u64) & 0xff) < 256 && ((v >> 16u64) & 0xff) < 256 && ((v >> 24u64) & 0xff)
            < 256) by (bit_vector);
        assert(le_value(s4) == 0);
        assert((v & 0xff) + 256 * (((v >> 8u64) & 0xff) + 256 * (((v >> 16u64) & 0xff) + 256 * ((
        v >> 24u64) & 0xff))) == v % 0x1_0000_0000) by (bit_vector);
    } else {
        let s4 = s3.drop_first();
        let s5 = s4.drop_first();
        let s6 = s5.drop_first();
        let s7 = s6.drop_first();
        let s8 = s7.drop_first();
        assert(le_value(s4) == s4[0] + 256 * le_value(s5));
        assert(le_value(s5) == s5[0] + 256 * le_value(s6));
        assert(le_value(s6) == s6[0] + 256 * le_value(s7));
        assert(le_value(s7) == s7[0] + 256 * le_value(s8));
        assert(s1[0] == ((v >> 8u64) & 0xff) as u8);
        assert(s2[0] == ((v >> 16u64) & 0xff) as u8);
        assert(s3[0] == ((v >> 24u64) & 0xff) as u8);
        assert(s4[0] == ((v >> 32u64) & 0xff) as u8);
        assert(s5[0] == ((v >> 40u64) & 0xff) as u8);
        assert(s6[0] == ((v >> 48u64) & 0xff) as u8);
        assert(s7[0] == ((v >> 56u64) & 0xff) as u8);
        assert(((v >> 8u64) & 0xff) < 256 && ((v >> 16u64) & 0xff) < 256 && ((v >> 24u64) & 0xff)
            < 256 && ((v >> 32u64) & 0xff) < 256) by (bit_vector);
        assert(((v >> 40u64) & 0xff) < 256 && ((v >> 48u64) & 0xff) < 256 && ((v >> 56u64) & 0xff)
            < 256) by (bit_vector);
        assert(le_value(s8) == 0);
        assert((v & 0xff) + 256 * (((v >> 8u64) & 0xff) + 256 * (((v >> 16u64) & 0xff) + 256 * ((
        (v >> 24u64) & 0xff) + 256 * (((v >> 32u64) & 0xff) + 256 * (((v >> 40u64) & 0xff) + 256
            * (((v >> 48u64) & 0xff) + 256 * ((v >> 56u64) & 0xff))))))) == v) by (bit_vector);
        assert(v as int % 0x1_0000_0000_0000_0000 == v as int);
    }
}

/// Little-endian value of `b[start..start + n]`.
pub fn read_le(b: &Vec<u8>, start: usize, n: usize) -> (res: u64)
    requires
        n <= 8,
        start + n <= b@.len(),
    ensures
        res == le_value(b@.subrange(start as int, start + n)),
{
    let mut acc: u64 = 0;
    let mut i: usize = n;
    proof {
        lemma_pow2_small();
        assert(b@.subrange(start + n, start + n) =~= Seq::<u8>::empty());
    }
    while i > 0
        invariant
            i <= n <= 8,
            start + n <= b.len(),
            acc == le_value(b@.subrange(start + i, start + n)),
        decreases i,
    {
        let idx = start + (i - 1);
        let byte = b[idx];
        proof {
            let rest = b@.subrange(start + i, start + n);
            let s = b@.subrange(start + i - 1, start + n);
            assert(s.drop_first() =~= rest);
            lemma_le_value_bound(rest);
            lemma_pow2_small();
            assert(rest.len() <= 7);
            lemma_pow2_mono(8 * rest.len(), 56);
        }
        acc = acc * 256 + byte as u64;
        i = i - 1;
    }
    acc
}

pub proof fn lemma_pow2_mono(a: nat, b: nat)
    requires
        a <= b,
    ensures
        pow2(a) <= pow2(b),
    decreases b,
{
    if a < b {
        lemma_pow2_mono(a, (b - 1) as nat);
        reveal_with_fuel(pow2, 2);
    }
}

/// Byte `i` of `v`.
pub fn get_byte(v: u64, i: usize) -> (res: u8)
    requires
        i < 8,
    ensures
        res == byte_of(v, i as nat),
{
    let shift: u64 = 8 * i as u64;
    ((v >> shift) & 0xff) as u8
}

} // verus!
