//! Numbers as bytes, lowest byte first.

use vstd::prelude::*;
use vstd::arithmetic::div_mod::{
    lemma_fundamental_div_mod, lemma_mod_multiples_vanish, lemma_small_mod,
};

verus! {

/// Byte `k` of the number `v`, the lowest byte being byte 0.
pub open spec fn le_byte(v: nat, k: nat) -> u8
    decreases k,
{
    if k == 0 {
        (v % 256) as u8
    } else {
        le_byte(v / 256, (k - 1) as nat)
    }
}

/// The first `n` bytes of the number `v`, lowest first.
pub open spec fn le_bytes(v: nat, n: nat) -> Seq<u8> {
    Seq::new(n, |k: int| le_byte(v, k as nat))
}

/// Two to the power of `bits`, for 8, 16, 32 and 64 bits.
pub open spec fn two_to(bits: nat) -> int {
    if bits == 8 {
        0x100
    } else if bits == 16 {
        0x1_0000
    } else if bits == 32 {
        0x1_0000_0000
    } else {
        0x1_0000_0000_0000_0000
    }
}

/// The two's-complement form of `v` in `bits` bits, as an unsigned number:
/// `v` reduced modulo two to the power of `bits`, for 8, 16, 32 and 64
/// bits.
pub open spec fn twos_complement(v: int, bits: nat) -> nat {
    (v % two_to(bits)) as nat
}

/// Byte `j` of `v / 256` is byte `j + 1` of `v`.
pub proof fn lemma_le_byte_shift(v: nat, j: nat)
    ensures
        le_byte(v / 256, j) == le_byte(v, j + 1),
{
}

/// Appends the lowest `n` bytes of `v`, lowest first.
pub fn push_le(out: &mut Vec<u8>, v: u64, n: usize)
    requires
        n <= 8,
    ensures
        final(out)@ == old(out)@ + le_bytes(v as nat, n as nat),
{
    let mut cur = v;
    let mut k: usize = 0;
    while k < n
        invariant
            k <= n,
            n <= 8,
            out@.len() == old(out)@.len() + k,
            forall|i: int| 0 <= i < old(out)@.len() ==> out@[i] == old(out)@[i],
            forall|i: int|
                old(out)@.len() <= i < old(out)@.len() + k ==> #[trigger] out@[i] == le_byte(
                    v as nat,
                    (i - old(out)@.len()) as nat,
                ),
            forall|j: nat| #[trigger] le_byte(cur as nat, j) == le_byte(v as nat, k as nat + j),
        decreases n - k,
    {
        let b = (cur % 256) as u8;
        assert(b == le_byte(cur as nat, 0));
        let ghost prev = cur;
        out.push(b);
        cur = cur / 256;
        proof {
            assert forall|j: nat| #[trigger] le_byte(cur as nat, j) == le_byte(
                v as nat,
                (k + 1) as nat + j,
            ) by {
                lemma_le_byte_shift(prev as nat, j);
                assert(le_byte(prev as nat, j + 1) == le_byte(v as nat, k as nat + (j + 1)));
            }
        }
        k += 1;
    }
    assert(out@ =~= old(out)@ + le_bytes(v as nat, n as nat));
}

/// Appends the bytes `bytes`.
pub fn push_all(out: &mut Vec<u8>, bytes: &[u8])
    ensures
        final(out)@ == old(out)@ + bytes@,
{
    let mut i: usize = 0;
    while i < bytes.len()
        invariant
            i <= bytes@.len(),
            out@ == old(out)@ + bytes@.subrange(0, i as int),
        decreases bytes@.len() - i,
    {
        out.push(bytes[i]);
        assert(out@ =~= old(out)@ + bytes@.subrange(0, i + 1));
        i += 1;
    }
    assert(bytes@.subrange(0, bytes@.len() as int) =~= bytes@);
}

/// The two's-complement form of `v` in `bits` bits.
pub fn unsigned_form(v: i64, bits: u32) -> (r: u64)
    requires
        bits == 8 || bits == 16 || bits == 32 || bits == 64,
    ensures
        r == twos_complement(v as int, bits as nat),
{
    if bits == 64 {
        if v >= 0 {
            v as u64
        } else {
            let t = (-(v + 1)) as u64;
            proof {
                let vi = v as int;
                let m = 0x1_0000_0000_0000_0000int;
                assert(vi == m * (-1) + (m + vi));
                lemma_mod_multiples_vanish(-1, m + vi, m);
                lemma_small_mod((m + vi) as nat, m as nat);
            }
            u64::MAX - t
        }
    } else {
        let m: u64 = if bits == 8 {
            0x100
        } else if bits == 16 {
            0x1_0000
        } else {
            0x1_0000_0000
        };
        if v >= 0 {
            (v as u64) % m
        } else {
            let t = ((-(v + 1)) as u64) % m;
            proof {
                let n = -(v + 1) as int;
                let mi = m as int;
                let vi = v as int;
                lemma_fundamental_div_mod(n, mi);
                let q = n / mi;
                let tt = n % mi;
                assert(vi == mi * (-q - 1) + (mi - 1 - tt)) by (nonlinear_arith)
                    requires
                        n == mi * q + tt,
                        vi == -(n + 1),
                ;
                lemma_mod_multiples_vanish(-q - 1, mi - 1 - tt, mi);
                lemma_small_mod((mi - 1 - tt) as nat, mi as nat);
            }
            m - 1 - t
        }
    }
}

} // verus!
