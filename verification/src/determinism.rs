//! Idempotence of the battery: every kernel's contract pins its result as
//! a function of the sample alone, so two calls on the same immutable
//! buffer yield identical results. Each lemma takes two results admitted
//! by one kernel's contract for one sample and shows they coincide.

use vstd::prelude::*;
use crate::bits::{avalanche_total, ones_of, weight_count, window_pairs};
use crate::bytes::{chi_byte_scaled, occurrences, sum_bytes};
use crate::compress::deflate_of;
use crate::dispatch::{spec_test_id, TestId};
use crate::gaps::{gap_bin_count_upto, gaps_total_upto};
use crate::points::word_at;
use crate::runs::{count_above, count_below, med2_of, purged, transitions};
use crate::series::{prediction_hits, run_ups_upto, sum_upto, sumprod_upto, sumsq_upto};

verus! {

/// Two set-bit counts for one sample coincide.
pub proof fn lemma_monobit_deterministic(s: Seq<u8>, r1: Option<u128>, r2: Option<u128>)
    requires
        r1 is None <==> s.len() == 0,
        r2 is None <==> s.len() == 0,
        (r1 matches Some(c) ==> c == ones_of(s)),
        (r2 matches Some(c) ==> c == ones_of(s)),
    ensures
        r1 == r2,
{
}

/// Two Hamming-weight histograms for one sample hold the same counts.
pub proof fn lemma_weight_histogram_deterministic(s: Seq<u8>, h1: Seq<u64>, h2: Seq<u64>)
    requires
        h1.len() == 9,
        h2.len() == 9,
        forall|w: int| 0 <= w < 9 ==> h1[w] == weight_count(s, w),
        forall|w: int| 0 <= w < 9 ==> h2[w] == weight_count(s, w),
    ensures
        h1 == h2,
{
    assert(h1 =~= h2);
}

/// Two byte histograms for one sample hold the same counts.
pub proof fn lemma_byte_histogram_deterministic(s: Seq<u8>, h1: Seq<u64>, h2: Seq<u64>)
    requires
        h1.len() == 256,
        h2.len() == 256,
        forall|v: int| 0 <= v < 256 ==> h1[v] == occurrences(s, v as u8),
        forall|v: int| 0 <= v < 256 ==> h2[v] == occurrences(s, v as u8),
    ensures
        h1 == h2,
{
    assert(h1 =~= h2);
}

/// Two scaled chi-square numerators for one sample coincide.
pub proof fn lemma_chi_byte_deterministic(s: Seq<u8>, r1: Option<u128>, r2: Option<u128>)
    requires
        r1 is None <==> s.len() == 0,
        r2 is None <==> s.len() == 0,
        (r1 matches Some(x) ==> x == chi_byte_scaled(s)),
        (r2 matches Some(x) ==> x == chi_byte_scaled(s)),
    ensures
        r1 == r2,
{
}

/// Two byte sums for one sample coincide.
pub proof fn lemma_byte_sum_deterministic(s: Seq<u8>, r1: Option<u128>, r2: Option<u128>)
    requires
        r1 is None <==> s.len() == 0,
        r2 is None <==> s.len() == 0,
        (r1 matches Some(x) ==> x == sum_bytes(s)),
        (r2 matches Some(x) ==> x == sum_bytes(s)),
    ensures
        r1 == r2,
{
}

/// Two avalanche sums for one sample coincide.
pub proof fn lemma_avalanche_deterministic(
    s: Seq<u8>,
    r1: Option<(u128, u64)>,
    r2: Option<(u128, u64)>,
)
    requires
        r1 is None <==> s.len() <= 40,
        r2 is None <==> s.len() <= 40,
        (r1 matches Some(c) ==> c.0 == avalanche_total(s, window_pairs(s.len() as int)) && c.1
            == window_pairs(s.len() as int)),
        (r2 matches Some(c) ==> c.0 == avalanche_total(s, window_pairs(s.len() as int)) && c.1
            == window_pairs(s.len() as int)),
    ensures
        r1 == r2,
{
}

/// Two runs counts for one sample coincide.
pub proof fn lemma_runs_deterministic(
    s: Seq<u8>,
    r1: Option<(u64, u64, u64)>,
    r2: Option<(u64, u64, u64)>,
)
    requires
        r1 is None <==> s.len() == 0 || count_above(s, med2_of(s)) == 0 || count_below(
            s,
            med2_of(s),
        ) == 0,
        r2 is None <==> s.len() == 0 || count_above(s, med2_of(s)) == 0 || count_below(
            s,
            med2_of(s),
        ) == 0,
        (r1 matches Some(c) ==> c.0 == 1 + transitions(purged(s, med2_of(s))) && c.1 == count_above(
            s,
            med2_of(s),
        ) && c.2 == count_below(s, med2_of(s))),
        (r2 matches Some(c) ==> c.0 == 1 + transitions(purged(s, med2_of(s))) && c.1 == count_above(
            s,
            med2_of(s),
        ) && c.2 == count_below(s, med2_of(s))),
    ensures
        r1 == r2,
{
}

/// Two run-up counts for one sample coincide.
pub proof fn lemma_run_ups_deterministic(
    s: Seq<u8>,
    r1: Option<(u64, u64)>,
    r2: Option<(u64, u64)>,
)
    requires
        r1 is None <==> s.len() < 4,
        r2 is None <==> s.len() < 4,
        (r1 matches Some(c) ==> c.0 == run_ups_upto(s, s.len() as int / 4) && c.1 == s.len() as int
            / 4),
        (r2 matches Some(c) ==> c.0 == run_ups_upto(s, s.len() as int / 4) && c.1 == s.len() as int
            / 4),
    ensures
        r1 == r2,
{
}

/// Two prediction counts for one sample coincide.
pub proof fn lemma_prediction_deterministic(
    s: Seq<u8>,
    r1: Option<(u64, u64)>,
    r2: Option<(u64, u64)>,
)
    requires
        r1 is None <==> s.len() < 3,
        r2 is None <==> s.len() < 3,
        (r1 matches Some(c) ==> c.0 == prediction_hits(s, s.len() as int) && c.1 == s.len() - 2),
        (r2 matches Some(c) ==> c.0 == prediction_hits(s, s.len() as int) && c.1 == s.len() - 2),
    ensures
        r1 == r2,
{
}

/// Two correlation sum triples for one sample coincide.
pub proof fn lemma_correlation_deterministic(
    s: Seq<u8>,
    r1: Option<(u128, u128, u128)>,
    r2: Option<(u128, u128, u128)>,
)
    requires
        r1 is None <==> s.len() < 2,
        r2 is None <==> s.len() < 2,
        (r1 matches Some(c) ==> c.0 == sum_upto(s, s.len() as int) && c.1 == sumsq_upto(
            s,
            s.len() as int,
        ) && c.2 == sumprod_upto(s, s.len() as int)),
        (r2 matches Some(c) ==> c.0 == sum_upto(s, s.len() as int) && c.1 == sumsq_upto(
            s,
            s.len() as int,
        ) && c.2 == sumprod_upto(s, s.len() as int)),
    ensures
        r1 == r2,
{
}

/// Two gap histograms for one sample hold the same buckets and total.
pub proof fn lemma_gaps_deterministic(s: Seq<u8>, h1: Seq<u64>, t1: u64, h2: Seq<u64>, t2: u64)
    requires
        h1.len() == 10,
        h2.len() == 10,
        t1 == gaps_total_upto(s, s.len() as int - 1),
        t2 == gaps_total_upto(s, s.len() as int - 1),
        forall|b: int| 0 <= b < 10 ==> h1[b] == gap_bin_count_upto(s, s.len() as int - 1, b),
        forall|b: int| 0 <= b < 10 ==> h2[b] == gap_bin_count_upto(s, s.len() as int - 1, b),
    ensures
        h1 == h2,
        t1 == t2,
{
    assert(h1 =~= h2);
}

/// Two word extractions for one sample coincide.
pub proof fn lemma_words_deterministic(s: Seq<u8>, w1: Seq<u32>, w2: Seq<u32>)
    requires
        w1.len() == s.len() as int / 4,
        w2.len() == s.len() as int / 4,
        forall|k: int| 0 <= k < w1.len() ==> w1[k] == word_at(s, 4 * k),
        forall|k: int| 0 <= k < w2.len() ==> w2[k] == word_at(s, 4 * k),
    ensures
        w1 == w2,
{
    assert(w1 =~= w2);
}

/// Two compressed-size readings for one sample coincide: the deflate
/// image is a function of the sample bytes.
pub proof fn lemma_compression_deterministic(
    s: Seq<u8>,
    r1: Option<(usize, usize)>,
    r2: Option<(usize, usize)>,
)
    requires
        r1 is None <==> s.len() == 0,
        r2 is None <==> s.len() == 0,
        (r1 matches Some(c) ==> c.0 == deflate_of(s).len() && c.1 == s.len()),
        (r2 matches Some(c) ==> c.0 == deflate_of(s).len() && c.1 == s.len()),
    ensures
        r1 == r2,
{
}

/// Two registry lookups of one name coincide.
pub proof fn lemma_dispatch_deterministic(
    name: Seq<char>,
    r1: Option<TestId>,
    r2: Option<TestId>,
)
    requires
        r1 == spec_test_id(name),
        r2 == spec_test_id(name),
    ensures
        r1 == r2,
{
}

} // verus!
