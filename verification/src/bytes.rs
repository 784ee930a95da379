//! Byte-value statistic kernels: the 256-bin histogram behind the Shannon
//! entropy and byte-value chi-square tests, the exact scaled chi-square
//! numerator, and the byte sum behind the mean-value test.

use vstd::prelude::*;
use crate::bits::{ones_of, popcount8};

verus! {

/// How often the byte value `v` occurs in the sequence.
pub open spec fn occurrences(s: Seq<u8>, v: u8) -> int
    decreases s.len(),
{
    if s.len() == 0 {
        0
    } else {
        occurrences(s.drop_last(), v) + if s.last() == v {
            1int
        } else {
            0int
        }
    }
}

pub proof fn lemma_occurrences_bound(s: Seq<u8>, v: u8)
    ensures
        0 <= occurrences(s, v) <= s.len(),
    decreases s.len(),
{
    if s.len() > 0 {
        lemma_occurrences_bound(s.drop_last(), v);
    }
}

/// The byte histogram of an all-zero sample is concentrated in one bin:
/// the integer half of the claim that such a sample shows zero entropy.
pub proof fn lemma_zero_sample_histogram(s: Seq<u8>)
    requires
        forall|i: int| 0 <= i < s.len() ==> s[i] == 0u8,
    ensures
        occurrences(s, 0u8) == s.len(),
        forall|v: u8| v != 0u8 ==> occurrences(s, v) == 0,
    decreases s.len(),
{
    if s.len() > 0 {
        assert(forall|i: int| 0 <= i < s.len() - 1 ==> s.drop_last()[i] == 0u8);
        lemma_zero_sample_histogram(s.drop_last());
        assert(s.last() == 0u8);
        assert forall|v: u8| v != 0u8 implies occurrences(s, v) == 0 by {
            assert(occurrences(s, v) == occurrences(s.drop_last(), v));
        }
    }
}

/// Histogram kernel shared by the entropy and byte-value chi-square tests:
/// one occurrence count per byte value, or nothing on an empty sample.
pub fn byte_histogram(samples: &Vec<u8>) -> (r: Option<Vec<u64>>)
    ensures
        r is None <==> samples@.len() == 0,
        (r matches Some(h) ==> h@.len() == 256 && forall|v: int|
            0 <= v < 256 ==> h@[v] == occurrences(samples@, v as u8)),
{
    if samples.len() == 0 {
        return None;
    }
    let mut h: Vec<u64> = Vec::new();
    let mut w: usize = 0;
    while w < 256
        invariant
            w <= 256,
            h@.len() == w,
            forall|k: int| 0 <= k < w ==> h@[k] == 0,
        decreases 256 - w,
    {
        h.push(0);
        w += 1;
    }
    let mut i: usize = 0;
    while i < samples.len()
        invariant
            i <= samples@.len(),
            h@.len() == 256,
            forall|v: int|
                0 <= v < 256 ==> h@[v] == occurrences(samples@.subrange(0, i as int), v as u8),
        decreases samples@.len() - i,
    {
        let b: u8 = samples[i];
        proof {
            assert forall|v: u8| #[trigger] occurrences(samples@.subrange(0, i as int + 1), v)
                == occurrences(samples@.subrange(0, i as int), v) + if samples@[i as int] == v {
                1int
            } else {
                0int
            } by {
                assert(samples@.subrange(0, i as int + 1).drop_last() =~= samples@.subrange(
                    0,
                    i as int,
                ));
            }
            lemma_occurrences_bound(samples@.subrange(0, i as int), samples@[i as int]);
        }
        let old_count: u64 = h[b as usize];
        h.set(b as usize, old_count + 1);
        i += 1;
    }
    proof {
        assert(samples@.subrange(0, samples@.len() as int) =~= samples@);
    }
    Some(h)
}

/// Scaled chi-square numerator over the byte values below `m`: the sum of
/// `(256 * count - n)^2`, where `n` is the sample length. The byte-value
/// chi-square statistic equals the full sum divided by `256 * n`.
pub open spec fn chi_byte_scaled_upto(s: Seq<u8>, m: int) -> int
    decreases m,
{
    if m <= 0 {
        0
    } else {
        let d = 256 * occurrences(s, (m - 1) as u8) - s.len();
        chi_byte_scaled_upto(s, m - 1) + d * d
    }
}

/// Scaled chi-square numerator over all 256 byte values.
pub open spec fn chi_byte_scaled(s: Seq<u8>) -> int {
    chi_byte_scaled_upto(s, 256)
}

/// Chi-square kernel: the exact scaled numerator of the byte-value
/// chi-square statistic, or nothing on an empty sample.
pub fn chi_byte_scaled_stat(samples: &Vec<u8>) -> (r: Option<u128>)
    requires
        samples@.len() < 0x100_0000_0000,
    ensures
        r is None <==> samples@.len() == 0,
        (r matches Some(x) ==> x == chi_byte_scaled(samples@)),
{
    let n: usize = samples.len();
    if n == 0 {
        return None;
    }
    let h: Vec<u64> = byte_histogram(samples).unwrap();
    let mut sum: u128 = 0;
    let mut v: usize = 0;
    while v < 256
        invariant
            v <= 256,
            h@.len() == 256,
            n == samples@.len(),
            n < 0x100_0000_0000,
            forall|u: int| 0 <= u < 256 ==> h@[u] == occurrences(samples@, u as u8),
            sum == chi_byte_scaled_upto(samples@, v as int),
            sum <= v * 0x1_0000_0000_0000_0000_0000_0000,
        decreases 256 - v,
    {
        let c: u64 = h[v];
        proof {
            lemma_occurrences_bound(samples@, v as u8);
        }
        let scaled: u64 = 256 * c;
        let d: u64 = if scaled >= n as u64 {
            scaled - n as u64
        } else {
            n as u64 - scaled
        };
        proof {
            assert(d < 0x1_0000_0000_0000);
            assert((d as int) * (d as int) < 0x1_0000_0000_0000_0000_0000_0000)
                by (nonlinear_arith)
                requires
                    d < 0x1_0000_0000_0000,
            ;
        }
        let dd: u128 = (d as u128) * (d as u128);
        proof {
            let ghost ds = 256 * occurrences(samples@, v as u8) - samples@.len();
            assert(d == if ds >= 0 {
                ds
            } else {
                -ds
            });
            assert(dd == ds * ds) by (nonlinear_arith)
                requires
                    dd == (d as int) * (d as int),
                    d == if ds >= 0 {
                        ds
                    } else {
                        -ds
                    },
            ;
            assert(dd <= 0x1_0000_0000_0000_0000_0000_0000) by (nonlinear_arith)
                requires
                    dd == (d as int) * (d as int),
                    d < 0x1_0000_0000_0000,
            ;
        }
        sum = sum + dd;
        v += 1;
    }
    Some(sum)
}

/// A sample of length `256 * k` holding every byte value exactly `k` times
/// matches the uniform expectation bin for bin: its scaled chi-square
/// numerator vanishes.
pub proof fn lemma_balanced_sample_chi_zero(s: Seq<u8>, k: int)
    requires
        s.len() == 256 * k,
        forall|v: u8| occurrences(s, v) == k,
    ensures
        chi_byte_scaled(s) == 0,
{
    lemma_chi_upto_zero(s, k, 256);
}

proof fn lemma_chi_upto_zero(s: Seq<u8>, k: int, m: int)
    requires
        s.len() == 256 * k,
        forall|v: u8| occurrences(s, v) == k,
        m <= 256,
    ensures
        chi_byte_scaled_upto(s, m) == 0,
    decreases m,
{
    if m > 0 {
        lemma_chi_upto_zero(s, k, m - 1);
        assert(occurrences(s, (m - 1) as u8) == k);
    }
}

/// Sum of the set-bit counts of all byte values below `m`.
pub open spec fn pop_sum_below(m: int) -> int
    decreases m,
{
    if m <= 0 {
        0
    } else {
        pop_sum_below(m - 1) + popcount8((m - 1) as u8)
    }
}

proof fn lemma_pop_pair(a: u8)
    ensures
        popcount8(a) + popcount8((255 - a) as u8) == 8,
{
    assert(popcount8(a) + popcount8((255 - a) as u8) == 8) by (bit_vector);
}

proof fn lemma_pop_sum_fold(m: int)
    requires
        0 <= m <= 128,
    ensures
        pop_sum_below(m) + pop_sum_below(256) - pop_sum_below(256 - m) == 8 * m,
    decreases m,
{
    if m > 0 {
        lemma_pop_sum_fold(m - 1);
        lemma_pop_pair((m - 1) as u8);
        assert(pop_sum_below(256 - (m - 1)) == pop_sum_below(256 - m) + popcount8(
            (256 - m) as u8,
        ));
    }
}

/// Half the byte values account for the set bits the other half lacks:
/// over all 256 values the set-bit counts add up to 1024.
pub proof fn lemma_pop_sum_total()
    ensures
        pop_sum_below(256) == 1024,
{
    lemma_pop_sum_fold(128);
}

/// Occurrence-weighted sum of set-bit counts over the byte values
/// below `m`.
pub open spec fn weighted_ones_below(s: Seq<u8>, m: int) -> int
    decreases m,
{
    if m <= 0 {
        0
    } else {
        weighted_ones_below(s, m - 1) + occurrences(s, (m - 1) as u8) * popcount8((m - 1) as u8)
    }
}

proof fn lemma_weighted_empty(s: Seq<u8>, m: int)
    requires
        s.len() == 0,
    ensures
        weighted_ones_below(s, m) == 0,
    decreases m,
{
    if m > 0 {
        lemma_weighted_empty(s, m - 1);
    }
}

proof fn lemma_weighted_push(s: Seq<u8>, m: int)
    requires
        s.len() > 0,
        m <= 256,
    ensures
        weighted_ones_below(s, m) == weighted_ones_below(s.drop_last(), m) + if (s.last() as int)
            < m {
            popcount8(s.last()) as int
        } else {
            0int
        },
    decreases m,
{
    if m > 0 {
        lemma_weighted_push(s, m - 1);
        let v = (m - 1) as u8;
        let a = occurrences(s.drop_last(), v);
        let p = popcount8(v) as int;
        if s.last() == v {
            assert((a + 1) * p == a * p + p) by (nonlinear_arith);
        }
    }
}

/// The total set-bit count is the occurrence-weighted sum of per-value
/// set-bit counts: each byte contributes through its histogram bin.
pub proof fn lemma_ones_weighted(s: Seq<u8>)
    ensures
        ones_of(s) == weighted_ones_below(s, 256),
    decreases s.len(),
{
    if s.len() == 0 {
        lemma_weighted_empty(s, 256);
    } else {
        lemma_ones_weighted(s.drop_last());
        lemma_weighted_push(s, 256);
    }
}

proof fn lemma_weighted_const(s: Seq<u8>, k: int, m: int)
    requires
        forall|v: u8| occurrences(s, v) == k,
        m <= 256,
    ensures
        weighted_ones_below(s, m) == k * pop_sum_below(m),
    decreases m,
{
    if m > 0 {
        lemma_weighted_const(s, k, m - 1);
        let p = popcount8((m - 1) as u8) as int;
        assert(occurrences(s, (m - 1) as u8) == k);
        assert(k * (pop_sum_below(m - 1) + p) == k * pop_sum_below(m - 1) + k * p)
            by (nonlinear_arith);
    } else {
        assert(k * pop_sum_below(m) == 0) by (nonlinear_arith)
            requires
                pop_sum_below(m) == 0,
        ;
    }
}

/// A sample of length `256 * k` holding every byte value exactly `k`
/// times has exactly half of its bits set: the monobit proportion of
/// ones is exactly one half.
pub proof fn lemma_balanced_sample_ones(s: Seq<u8>, k: int)
    requires
        s.len() == 256 * k,
        forall|v: u8| occurrences(s, v) == k,
    ensures
        2 * ones_of(s) == 8 * s.len(),
{
    lemma_ones_weighted(s);
    lemma_weighted_const(s, k, 256);
    lemma_pop_sum_total();
    assert(2 * (k * 1024) == 8 * (256 * k)) by (nonlinear_arith);
}

/// Sum of all byte values of the sequence.
pub open spec fn sum_bytes(s: Seq<u8>) -> int
    decreases s.len(),
{
    if s.len() == 0 {
        0
    } else {
        sum_bytes(s.drop_last()) + s.last()
    }
}

pub proof fn lemma_sum_bytes_bound(s: Seq<u8>)
    ensures
        0 <= sum_bytes(s) <= 255 * s.len(),
    decreases s.len(),
{
    if s.len() > 0 {
        lemma_sum_bytes_bound(s.drop_last());
    }
}

/// Mean-value kernel: the exact sum of all byte values, or nothing on an
/// empty sample. The observed mean is this sum over the length.
pub fn byte_sum(samples: &Vec<u8>) -> (r: Option<u128>)
    ensures
        r is None <==> samples@.len() == 0,
        (r matches Some(x) ==> x == sum_bytes(samples@)),
{
    if samples.len() == 0 {
        return None;
    }
    let mut total: u128 = 0;
    let mut i: usize = 0;
    while i < samples.len()
        invariant
            i <= samples@.len(),
            total == sum_bytes(samples@.subrange(0, i as int)),
        decreases samples@.len() - i,
    {
        proof {
            lemma_sum_bytes_bound(samples@.subrange(0, i as int));
            assert(samples@.subrange(0, i as int + 1).drop_last() =~= samples@.subrange(
                0,
                i as int,
            ));
        }
        total = total + samples[i] as u128;
        i += 1;
    }
    proof {
        assert(samples@.subrange(0, samples@.len() as int) =~= samples@);
    }
    Some(total)
}

} // verus!
