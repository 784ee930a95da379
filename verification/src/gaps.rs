//! Gaps-test kernel: for every position whose byte value occurs again
//! later, the distance to its first repeat, binned into ten fixed buckets.

use vstd::prelude::*;

verus! {

/// Whether the byte at `cp` occurs again at or after position `j`.
pub open spec fn has_match_from(s: Seq<u8>, cp: int, j: int) -> bool
    decreases s.len() - j,
{
    if j < 0 || j >= s.len() {
        false
    } else {
        s[j] == s[cp] || has_match_from(s, cp, j + 1)
    }
}

/// Position of the first repeat of the byte at `cp`, searching from `j`.
pub open spec fn first_match_from(s: Seq<u8>, cp: int, j: int) -> int
    decreases s.len() - j,
{
    if j < 0 || j >= s.len() {
        s.len() as int
    } else if s[j] == s[cp] {
        j
    } else {
        first_match_from(s, cp, j + 1)
    }
}

/// Whether position `cp` contributes a gap: its byte has a later repeat.
pub open spec fn has_gap(s: Seq<u8>, cp: int) -> bool {
    has_match_from(s, cp, cp + 1)
}

/// The gap at `cp`: number of bytes strictly between `cp` and the first
/// repeat of its value.
pub open spec fn gap_at(s: Seq<u8>, cp: int) -> int {
    first_match_from(s, cp, cp + 1) - cp - 1
}

/// Histogram bucket of a gap by the fixed bin edges; a gap beyond the
/// last edge falls in no bucket.
pub open spec fn bin_of(g: int) -> int {
    if g <= 26 {
        0
    } else if g <= 56 {
        1
    } else if g <= 90 {
        2
    } else if g <= 130 {
        3
    } else if g <= 176 {
        4
    } else if g <= 233 {
        5
    } else if g <= 307 {
        6
    } else if g <= 410 {
        7
    } else if g <= 587 {
        8
    } else if g <= 1000000000 {
        9
    } else {
        10
    }
}

/// Number of positions below `cp` that contribute a gap.
pub open spec fn gaps_total_upto(s: Seq<u8>, cp: int) -> int
    decreases cp,
{
    if cp <= 0 {
        0
    } else {
        gaps_total_upto(s, cp - 1) + if has_gap(s, cp - 1) {
            1int
        } else {
            0int
        }
    }
}

/// Number of gaps from positions below `cp` that land in bucket `b`.
pub open spec fn gap_bin_count_upto(s: Seq<u8>, cp: int, b: int) -> int
    decreases cp,
{
    if cp <= 0 {
        0
    } else {
        gap_bin_count_upto(s, cp - 1, b) + if has_gap(s, cp - 1) && bin_of(gap_at(s, cp - 1))
            == b {
            1int
        } else {
            0int
        }
    }
}

pub proof fn lemma_gap_counts_bound(s: Seq<u8>, cp: int, b: int)
    ensures
        0 <= gaps_total_upto(s, cp) <= cp || cp < 0,
        0 <= gap_bin_count_upto(s, cp, b) <= gaps_total_upto(s, cp),
    decreases cp,
{
    if cp > 0 {
        lemma_gap_counts_bound(s, cp - 1, b);
    }
}

/// Search for the first repeat of the byte at `cp`, as the measured gap.
fn find_gap(samples: &Vec<u8>, cp: usize) -> (g: Option<usize>)
    requires
        cp < samples@.len(),
    ensures
        g is Some <==> has_gap(samples@, cp as int),
        (g matches Some(gv) ==> gv == gap_at(samples@, cp as int)),
{
    let n: usize = samples.len();
    let mut j: usize = cp + 1;
    while j < n
        invariant
            cp + 1 <= j <= n,
            n == samples@.len(),
            cp < n,
            has_match_from(samples@, cp as int, cp as int + 1) == has_match_from(
                samples@,
                cp as int,
                j as int,
            ),
            first_match_from(samples@, cp as int, cp as int + 1) == first_match_from(
                samples@,
                cp as int,
                j as int,
            ),
        decreases n - j,
    {
        if samples[j] == samples[cp] {
            return Some(j - cp - 1);
        }
        j += 1;
    }
    None
}

/// Gaps kernel: the ten-bucket histogram of first-repeat distances and
/// the total number of gaps found, or nothing when the sample is empty
/// or no byte value ever repeats.
pub fn gap_histogram(samples: &Vec<u8>) -> (r: Option<(Vec<u64>, u64)>)
    ensures
        ({
            let s = samples@;
            let total = gaps_total_upto(s, s.len() as int - 1);
            &&& (r is None <==> s.len() == 0 || total == 0)
            &&& (r matches Some(p) ==> p.1 == total && p.0@.len() == 10 && forall|b: int|
                0 <= b < 10 ==> p.0@[b] == gap_bin_count_upto(s, s.len() as int - 1, b))
        }),
{
    let n: usize = samples.len();
    if n == 0 {
        return None;
    }
    let mut hist: Vec<u64> = Vec::new();
    let mut w: usize = 0;
    while w < 10
        invariant
            w <= 10,
            hist@.len() == w,
            forall|k: int| 0 <= k < w ==> hist@[k] == 0,
        decreases 10 - w,
    {
        hist.push(0);
        w += 1;
    }
    let mut total: u64 = 0;
    let mut cp: usize = 0;
    while cp < n - 1
        invariant
            cp <= n - 1,
            n == samples@.len(),
            n >= 1,
            hist@.len() == 10,
            total == gaps_total_upto(samples@, cp as int),
            forall|b: int| 0 <= b < 10 ==> hist@[b] == gap_bin_count_upto(samples@, cp as int, b),
        decreases n - 1 - cp,
    {
        proof {
            lemma_gap_counts_bound(samples@, cp as int, 0);
        }
        match find_gap(samples, cp) {
            Some(gap) => {
                total = total + 1;
                let b: usize = if gap <= 26 {
                    0
                } else if gap <= 56 {
                    1
                } else if gap <= 90 {
                    2
                } else if gap <= 130 {
                    3
                } else if gap <= 176 {
                    4
                } else if gap <= 233 {
                    5
                } else if gap <= 307 {
                    6
                } else if gap <= 410 {
                    7
                } else if gap <= 587 {
                    8
                } else if gap <= 1000000000 {
                    9
                } else {
                    10
                };
                if b < 10 {
                    proof {
                        lemma_gap_counts_bound(samples@, cp as int, b as int);
                    }
                    let old_count: u64 = hist[b];
                    hist.set(b, old_count + 1);
                }
            },
            None => {},
        }
        cp += 1;
    }
    if total == 0 {
        return None;
    }
    Some((hist, total))
}

} // verus!
