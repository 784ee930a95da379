//! Sequential statistic kernels: strictly increasing four-byte chunks
//! (run-ups), the xor-prefix predictor hit count (prediction), and the raw
//! sums behind the cyclic-shift correlation test (uncorrelation).

use vstd::prelude::*;

verus! {

/// Whether the `k`-th four-byte chunk is strictly increasing.
pub open spec fn is_run_up(s: Seq<u8>, k: int) -> bool {
    s[4 * k] < s[4 * k + 1] && s[4 * k + 1] < s[4 * k + 2] && s[4 * k + 2] < s[4 * k + 3]
}

/// Number of strictly increasing chunks among the first `k` chunks.
pub open spec fn run_ups_upto(s: Seq<u8>, k: int) -> int
    decreases k,
{
    if k <= 0 {
        0
    } else {
        run_ups_upto(s, k - 1) + if is_run_up(s, k - 1) {
            1int
        } else {
            0int
        }
    }
}

pub proof fn lemma_run_ups_upto_bound(s: Seq<u8>, k: int)
    ensures
        0 <= run_ups_upto(s, k) <= k || k < 0,
    decreases k,
{
    if k > 0 {
        lemma_run_ups_upto_bound(s, k - 1);
    }
}

/// Run-ups kernel: how many of the sample's four-byte chunks are strictly
/// increasing, with the chunk count, or nothing below four bytes.
pub fn run_up_counts(samples: &Vec<u8>) -> (r: Option<(u64, u64)>)
    ensures
        r is None <==> samples@.len() < 4,
        (r matches Some(c) ==> {
            let chunks = samples@.len() as int / 4;
            c.0 == run_ups_upto(samples@, chunks) && c.1 == chunks && c.1 >= 1
        }),
{
    let n: usize = samples.len();
    if n < 4 {
        return None;
    }
    let chunks: usize = n / 4;
    let mut count: u64 = 0;
    let mut k: usize = 0;
    while k < chunks
        invariant
            k <= chunks,
            chunks == n as int / 4,
            n == samples@.len(),
            n >= 4,
            count == run_ups_upto(samples@, k as int),
        decreases chunks - k,
    {
        proof {
            lemma_run_ups_upto_bound(samples@, k as int);
            assert(4 * (k as int) + 3 < n) by (nonlinear_arith)
                requires
                    k < n as int / 4,
                    n >= 4,
            ;
        }
        let base: usize = 4 * k;
        if samples[base] < samples[base + 1] && samples[base + 1] < samples[base + 2]
            && samples[base + 2] < samples[base + 3] {
            count = count + 1;
        }
        k += 1;
    }
    Some((count, chunks as u64))
}

/// Bitwise xor of the first `i` bytes of the sequence.
pub open spec fn xor_upto(s: Seq<u8>, i: int) -> u8
    decreases i,
{
    if i <= 0 {
        0u8
    } else {
        xor_upto(s, i - 1) ^ s[i - 1]
    }
}

/// Number of positions in `2 .. j` where the byte equals the xor of all
/// the bytes before it.
pub open spec fn prediction_hits(s: Seq<u8>, j: int) -> int
    decreases j,
{
    if j <= 2 {
        0
    } else {
        prediction_hits(s, j - 1) + if xor_upto(s, j - 1) == s[j - 1] {
            1int
        } else {
            0int
        }
    }
}

pub proof fn lemma_prediction_hits_bound(s: Seq<u8>, j: int)
    ensures
        0 <= prediction_hits(s, j) <= j - 2 || j <= 2,
    decreases j,
{
    if j > 2 {
        lemma_prediction_hits_bound(s, j - 1);
    }
}

/// Prediction kernel: the number of bytes correctly predicted by the xor
/// of all preceding bytes, with the number of predictions made, or nothing
/// below three bytes.
pub fn prediction_counts(samples: &Vec<u8>) -> (r: Option<(u64, u64)>)
    ensures
        r is None <==> samples@.len() < 3,
        (r matches Some(c) ==> c.0 == prediction_hits(samples@, samples@.len() as int) && c.1
            == samples@.len() - 2),
{
    let n: usize = samples.len();
    if n < 3 {
        return None;
    }
    let mut hits: u64 = 0;
    let mut pred: u8 = samples[0];
    proof {
        assert(0u8 ^ pred == pred) by (bit_vector);
        assert(xor_upto(samples@, 0) == 0u8);
        assert(xor_upto(samples@, 1) == xor_upto(samples@, 0) ^ samples@[0]);
    }
    let mut i: usize = 2;
    while i < n
        invariant
            2 <= i <= n,
            n == samples@.len(),
            pred == xor_upto(samples@, i as int - 1),
            hits == prediction_hits(samples@, i as int),
        decreases n - i,
    {
        proof {
            lemma_prediction_hits_bound(samples@, i as int);
        }
        pred = pred ^ samples[i - 1];
        if pred == samples[i] {
            hits = hits + 1;
        }
        i += 1;
    }
    proof {
        lemma_prediction_hits_bound(samples@, n as int);
    }
    Some((hits, (n - 2) as u64))
}

/// Index of the cyclic predecessor of position `i` in a sequence of
/// length `n`: the shifted companion series pairs each byte with the one
/// before it, wrapping around at the start.
pub open spec fn shift_index(n: int, i: int) -> int {
    if i == 0 {
        n - 1
    } else {
        i - 1
    }
}

/// Sum of the first `j` byte values.
pub open spec fn sum_upto(s: Seq<u8>, j: int) -> int
    decreases j,
{
    if j <= 0 {
        0
    } else {
        sum_upto(s, j - 1) + s[j - 1]
    }
}

/// Sum of the squares of the first `j` byte values.
pub open spec fn sumsq_upto(s: Seq<u8>, j: int) -> int
    decreases j,
{
    if j <= 0 {
        0
    } else {
        sumsq_upto(s, j - 1) + s[j - 1] * s[j - 1]
    }
}

/// Sum over the first `j` positions of each byte times its cyclic
/// predecessor.
pub open spec fn sumprod_upto(s: Seq<u8>, j: int) -> int
    decreases j,
{
    if j <= 0 {
        0
    } else {
        sumprod_upto(s, j - 1) + s[j - 1] * s[shift_index(s.len() as int, j - 1)]
    }
}

/// Sum of the first `j` values of the cyclically shifted series.
pub open spec fn sum_shift_upto(s: Seq<u8>, j: int) -> int
    decreases j,
{
    if j <= 0 {
        0
    } else {
        sum_shift_upto(s, j - 1) + s[shift_index(s.len() as int, j - 1)]
    }
}

/// Sum of squares of the first `j` values of the cyclically shifted series.
pub open spec fn sumsq_shift_upto(s: Seq<u8>, j: int) -> int
    decreases j,
{
    if j <= 0 {
        0
    } else {
        sumsq_shift_upto(s, j - 1) + s[shift_index(s.len() as int, j - 1)] * s[shift_index(
            s.len() as int,
            j - 1,
        )]
    }
}

proof fn lemma_shift_sum_partial(s: Seq<u8>, j: int)
    requires
        1 <= j <= s.len(),
    ensures
        sum_shift_upto(s, j) == s[s.len() - 1] + sum_upto(s, j - 1),
        sumsq_shift_upto(s, j) == s[s.len() - 1] * s[s.len() - 1] + sumsq_upto(s, j - 1),
    decreases j,
{
    if j > 1 {
        lemma_shift_sum_partial(s, j - 1);
    } else {
        assert(sum_shift_upto(s, 0) == 0);
        assert(sumsq_shift_upto(s, 0) == 0);
        assert(sum_upto(s, 0) == 0);
        assert(sumsq_upto(s, 0) == 0);
    }
}

/// The cyclic shift is a permutation: the shifted series has the same sum
/// and the same sum of squares as the sample itself.
pub proof fn lemma_cyclic_shift_sums(s: Seq<u8>)
    requires
        s.len() >= 1,
    ensures
        sum_shift_upto(s, s.len() as int) == sum_upto(s, s.len() as int),
        sumsq_shift_upto(s, s.len() as int) == sumsq_upto(s, s.len() as int),
{
    lemma_shift_sum_partial(s, s.len() as int);
}

pub proof fn lemma_series_sums_bounds(s: Seq<u8>, j: int)
    ensures
        0 <= sum_upto(s, j) <= 255 * j || j < 0,
        0 <= sumsq_upto(s, j) <= 65025 * j || j < 0,
        0 <= sumprod_upto(s, j) <= 65025 * j || j < 0,
    decreases j,
{
    if j > 0 {
        lemma_series_sums_bounds(s, j - 1);
        let a = s[j - 1];
        let b = s[shift_index(s.len() as int, j - 1)];
        assert(a * a <= 65025 && a * b <= 65025) by (nonlinear_arith)
            requires
                0 <= a < 256,
                0 <= b < 256,
        ;
    }
}

/// Uncorrelation kernel: the exact sums feeding the cyclic-shift Pearson
/// correlation (sum, sum of squares, and cross products with the shifted
/// series), or nothing below two bytes.
pub fn correlation_sums(samples: &Vec<u8>) -> (r: Option<(u128, u128, u128)>)
    ensures
        r is None <==> samples@.len() < 2,
        (r matches Some(c) ==> {
            let n = samples@.len() as int;
            c.0 == sum_upto(samples@, n) && c.1 == sumsq_upto(samples@, n) && c.2 == sumprod_upto(
                samples@,
                n,
            )
        }),
{
    let n: usize = samples.len();
    if n < 2 {
        return None;
    }
    let mut sx: u128 = 0;
    let mut sxx: u128 = 0;
    let mut sxy: u128 = 0;
    let mut i: usize = 0;
    while i < n
        invariant
            i <= n,
            n == samples@.len(),
            n >= 2,
            sx == sum_upto(samples@, i as int),
            sxx == sumsq_upto(samples@, i as int),
            sxy == sumprod_upto(samples@, i as int),
        decreases n - i,
    {
        proof {
            lemma_series_sums_bounds(samples@, i as int);
        }
        let x: u8 = samples[i];
        let prev: u8 = if i == 0 {
            samples[n - 1]
        } else {
            samples[i - 1]
        };
        proof {
            assert((x as int) * (x as int) <= 65025 && (x as int) * (prev as int) <= 65025)
                by (nonlinear_arith)
                requires
                    x < 256,
                    prev < 256,
            ;
        }
        sx = sx + x as u128;
        sxx = sxx + (x as u128) * (x as u128);
        sxy = sxy + (x as u128) * (prev as u128);
        i += 1;
    }
    Some((sx, sxx, sxy))
}

} // verus!
