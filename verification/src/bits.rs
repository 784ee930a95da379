//! Bit-level statistic kernels: the set-bit count behind the monobit test,
//! the Hamming-weight histogram behind the bit-weight chi-square test, and
//! the windowed bit-difference sums behind the avalanche test.

use vstd::prelude::*;

verus! {

/// Number of set bits in one byte.
pub open spec fn popcount8(b: u8) -> u32 {
    (((b >> 0u8) & 1) + ((b >> 1u8) & 1) + ((b >> 2u8) & 1) + ((b >> 3u8) & 1) + ((b >> 4u8) & 1)
        + ((b >> 5u8) & 1) + ((b >> 6u8) & 1) + ((b >> 7u8) & 1)) as u32
}

pub proof fn lemma_popcount8_bound(b: u8)
    ensures
        popcount8(b) <= 8,
{
    assert(((b >> 0u8) & 1) + ((b >> 1u8) & 1) + ((b >> 2u8) & 1) + ((b >> 3u8) & 1) + ((b
        >> 4u8) & 1) + ((b >> 5u8) & 1) + ((b >> 6u8) & 1) + ((b >> 7u8) & 1) <= 8)
        by (bit_vector);
}

/// Total number of set bits over a byte sequence.
pub open spec fn ones_of(s: Seq<u8>) -> int
    decreases s.len(),
{
    if s.len() == 0 {
        0
    } else {
        ones_of(s.drop_last()) + popcount8(s.last())
    }
}

pub proof fn lemma_ones_of_bound(s: Seq<u8>)
    ensures
        0 <= ones_of(s) <= 8 * s.len(),
    decreases s.len(),
{
    if s.len() > 0 {
        lemma_ones_of_bound(s.drop_last());
        lemma_popcount8_bound(s.last());
    }
}

pub fn popcount_byte(b: u8) -> (r: u32)
    ensures
        r == popcount8(b),
        r <= 8,
{
    let r: u32 = ((b >> 0) & 1) as u32 + ((b >> 1) & 1) as u32 + ((b >> 2) & 1) as u32 + ((b >> 3)
        & 1) as u32 + ((b >> 4) & 1) as u32 + ((b >> 5) & 1) as u32 + ((b >> 6) & 1) as u32 + ((b
        >> 7) & 1) as u32;
    proof {
        lemma_popcount8_bound(b);
    }
    r
}

/// Monobit kernel: the number of set bits over all bits of the sample, or
/// nothing when the sample is empty (the test is then skipped).
pub fn monobit_counts(samples: &Vec<u8>) -> (r: Option<u128>)
    ensures
        r is None <==> samples@.len() == 0,
        (r matches Some(c) ==> c == ones_of(samples@)),
{
    if samples.len() == 0 {
        return None;
    }
    let mut total: u128 = 0;
    let mut i: usize = 0;
    while i < samples.len()
        invariant
            i <= samples@.len(),
            total == ones_of(samples@.subrange(0, i as int)),
        decreases samples@.len() - i,
    {
        let c: u32 = popcount_byte(samples[i]);
        proof {
            lemma_ones_of_bound(samples@.subrange(0, i as int));
            assert(samples@.subrange(0, i as int + 1).drop_last() =~= samples@.subrange(
                0,
                i as int,
            ));
            assert(samples@.subrange(0, i as int + 1).last() == samples@[i as int]);
        }
        total = total + c as u128;
        i += 1;
    }
    proof {
        assert(samples@.subrange(0, samples@.len() as int) =~= samples@);
    }
    Some(total)
}

/// All set bits of an all-zero sample: none. The integer half of the claim
/// that a constant buffer shows zero proportion of ones.
pub proof fn lemma_ones_of_zero_sample(s: Seq<u8>)
    requires
        forall|i: int| 0 <= i < s.len() ==> s[i] == 0u8,
    ensures
        ones_of(s) == 0,
    decreases s.len(),
{
    if s.len() > 0 {
        assert(popcount8(0u8) == 0) by (bit_vector);
        lemma_ones_of_zero_sample(s.drop_last());
    }
}

/// How many bytes of the sequence have exactly `w` set bits.
pub open spec fn weight_count(s: Seq<u8>, w: int) -> int
    decreases s.len(),
{
    if s.len() == 0 {
        0
    } else {
        weight_count(s.drop_last(), w) + if popcount8(s.last()) == w {
            1int
        } else {
            0int
        }
    }
}

pub proof fn lemma_weight_count_bound(s: Seq<u8>, w: int)
    ensures
        0 <= weight_count(s, w) <= s.len(),
    decreases s.len(),
{
    if s.len() > 0 {
        lemma_weight_count_bound(s.drop_last(), w);
    }
}

/// Bit-weight kernel: the 9-bin histogram of byte Hamming weights, or
/// nothing when the sample is empty.
pub fn weight_histogram(samples: &Vec<u8>) -> (r: Option<Vec<u64>>)
    ensures
        r is None <==> samples@.len() == 0,
        (r matches Some(h) ==> h@.len() == 9 && forall|w: int|
            0 <= w < 9 ==> h@[w] == weight_count(samples@, w)),
{
    if samples.len() == 0 {
        return None;
    }
    let mut h: Vec<u64> = Vec::new();
    let mut w: usize = 0;
    while w < 9
        invariant
            w <= 9,
            h@.len() == w,
            forall|k: int| 0 <= k < w ==> h@[k] == 0,
        decreases 9 - w,
    {
        h.push(0);
        w += 1;
    }
    let mut i: usize = 0;
    while i < samples.len()
        invariant
            i <= samples@.len(),
            h@.len() == 9,
            forall|k: int| 0 <= k < 9 ==> h@[k] == weight_count(samples@.subrange(0, i as int), k),
        decreases samples@.len() - i,
    {
        let c: u32 = popcount_byte(samples[i]);
        proof {
            assert forall|k: int| 0 <= k < 9 implies weight_count(
                samples@.subrange(0, i as int + 1),
                k,
            ) == weight_count(samples@.subrange(0, i as int), k) + if popcount8(samples@[i as int])
                == k {
                1int
            } else {
                0int
            } by {
                assert(samples@.subrange(0, i as int + 1).drop_last() =~= samples@.subrange(
                    0,
                    i as int,
                ));
            }
            lemma_weight_count_bound(samples@.subrange(0, i as int), c as int);
        }
        let old_count: u64 = h[c as usize];
        h.set(c as usize, old_count + 1);
        i += 1;
    }
    proof {
        assert(samples@.subrange(0, samples@.len() as int) =~= samples@);
    }
    Some(h)
}

/// Number of adjacent 20-byte window pairs the avalanche test walks over a
/// sample of length `n`: pairs start every 40 bytes strictly below `n - 40`.
pub open spec fn window_pairs(n: int) -> int {
    if n <= 40 {
        0
    } else {
        (n - 41) / 40 + 1
    }
}

/// Differing bits between the two 20-byte windows of pair `k`, over the
/// first `j` byte positions of the windows.
pub open spec fn window_diff_upto(s: Seq<u8>, k: int, j: int) -> int
    decreases j,
{
    if j <= 0 {
        0
    } else {
        window_diff_upto(s, k, j - 1) + popcount8(s[40 * k + j - 1] ^ s[40 * k + 20 + j - 1])
    }
}

/// Differing bits between the two full 20-byte windows of pair `k`.
pub open spec fn window_diff_bits(s: Seq<u8>, k: int) -> int {
    window_diff_upto(s, k, 20)
}

/// Total differing bits over the first `k` window pairs.
pub open spec fn avalanche_total(s: Seq<u8>, k: int) -> int
    decreases k,
{
    if k <= 0 {
        0
    } else {
        avalanche_total(s, k - 1) + window_diff_bits(s, k - 1)
    }
}

pub proof fn lemma_window_diff_upto_bound(s: Seq<u8>, k: int, j: int)
    ensures
        0 <= window_diff_upto(s, k, j) <= 8 * j || j < 0,
    decreases j,
{
    if j > 0 {
        lemma_window_diff_upto_bound(s, k, j - 1);
        lemma_popcount8_bound(s[40 * k + j - 1] ^ s[40 * k + 20 + j - 1]);
    }
}

pub proof fn lemma_avalanche_total_bound(s: Seq<u8>, k: int)
    ensures
        0 <= avalanche_total(s, k) <= 160 * k || k < 0,
    decreases k,
{
    if k > 0 {
        lemma_avalanche_total_bound(s, k - 1);
        lemma_window_diff_upto_bound(s, k - 1, 20);
    }
}

/// Avalanche kernel: the summed bit difference over all adjacent window
/// pairs and the number of pairs, or nothing when no full pair fits (the
/// sample is 40 bytes or shorter).
pub fn avalanche_sums(samples: &Vec<u8>) -> (r: Option<(u128, u64)>)
    ensures
        r is None <==> samples@.len() <= 40,
        (r matches Some(c) ==> {
            let p = window_pairs(samples@.len() as int);
            c.0 == avalanche_total(samples@, p) && c.1 == p && p > 0
        }),
{
    let n: usize = samples.len();
    if n <= 40 {
        return None;
    }
    let pairs: usize = (n - 41) / 40 + 1;
    let mut total: u128 = 0;
    let mut k: usize = 0;
    while k < pairs
        invariant
            k <= pairs,
            pairs == window_pairs(n as int),
            n == samples@.len(),
            n > 40,
            total == avalanche_total(samples@, k as int),
        decreases pairs - k,
    {
        proof {
            assert(40 * (pairs - 1) <= n - 41) by (nonlinear_arith)
                requires
                    pairs == (n - 41) / 40 + 1,
                    n > 40,
            ;
            assert(40 * k <= 40 * (pairs - 1)) by (nonlinear_arith)
                requires
                    k < pairs,
            ;
        }
        let base: usize = 40 * k;
        let mut j: usize = 0;
        while j < 20
            invariant
                j <= 20,
                base == 40 * k,
                40 * k + 40 <= n,
                n == samples@.len(),
                total == avalanche_total(samples@, k as int) + window_diff_upto(
                    samples@,
                    k as int,
                    j as int,
                ),
            decreases 20 - j,
        {
            let a: u8 = samples[base + j];
            let b: u8 = samples[base + 20 + j];
            let c: u32 = popcount_byte(a ^ b);
            proof {
                lemma_avalanche_total_bound(samples@, k as int);
                lemma_window_diff_upto_bound(samples@, k as int, j as int);
            }
            total = total + c as u128;
            j += 1;
        }
        proof {
            assert(total == avalanche_total(samples@, k as int + 1));
        }
        k += 1;
    }
    Some((total, pairs as u64))
}

} // verus!
