//! Point-extraction kernels: the 31-bit words behind the Monte-Carlo pi
//! test (one per four-byte chunk) and the 3D points behind the shells test
//! (one coordinate triple per twelve-byte chunk).

use vstd::prelude::*;

verus! {

/// The big-endian 32-bit word starting at byte offset `off`, with its
/// sign bit discarded.
pub open spec fn word_at(s: Seq<u8>, off: int) -> u32 {
    (((s[off] as u32) << 24u32) | ((s[off + 1] as u32) << 16u32) | ((s[off + 2] as u32) << 8u32)
        | (s[off + 3] as u32)) >> 1u32
}

fn read_word(samples: &Vec<u8>, off: usize) -> (r: u32)
    requires
        off + 4 <= samples@.len(),
    ensures
        r == word_at(samples@, off as int),
        r < 0x80000000,
{
    let n: usize = samples.len();
    proof {
        assert(off + 4 <= n);
    }
    let x: u32 = ((samples[off] as u32) << 24) | ((samples[off + 1] as u32) << 16) | ((samples[off
        + 2] as u32) << 8) | (samples[off + 3] as u32);
    let r: u32 = x >> 1;
    proof {
        assert(r < 0x80000000) by (bit_vector)
            requires
                r == x >> 1u32,
        ;
    }
    r
}

/// Monte-Carlo pi kernel: the normalized 31-bit word of each complete
/// four-byte chunk, or nothing below four bytes. The estimator maps each
/// word into the unit interval and averages a quarter-circle integrand
/// over them.
pub fn pi_words(samples: &Vec<u8>) -> (r: Option<Vec<u32>>)
    ensures
        r is None <==> samples@.len() < 4,
        (r matches Some(w) ==> {
            &&& w@.len() == samples@.len() as int / 4
            &&& w@.len() >= 1
            &&& forall|k: int|
                0 <= k < w@.len() ==> w@[k] == word_at(samples@, 4 * k) && w@[k] < 0x80000000
        }),
{
    let n: usize = samples.len();
    if n < 4 {
        return None;
    }
    let chunks: usize = n / 4;
    let mut out: Vec<u32> = Vec::new();
    let mut k: usize = 0;
    while k < chunks
        invariant
            k <= chunks,
            chunks == n as int / 4,
            n == samples@.len(),
            n >= 4,
            out@.len() == k,
            forall|j: int| 0 <= j < k ==> out@[j] == word_at(samples@, 4 * j) && out@[j] < 0x80000000,
        decreases chunks - k,
    {
        proof {
            assert(4 * (k as int) + 4 <= n) by (nonlinear_arith)
                requires
                    k < n as int / 4,
                    n >= 4,
            ;
        }
        let w: u32 = read_word(samples, 4 * k);
        out.push(w);
        k += 1;
    }
    Some(out)
}

/// Shells kernel: one coordinate triple of normalized 31-bit words per
/// complete twelve-byte chunk, or nothing below twelve bytes. The
/// estimator maps each triple into the unit cube and bins the points by
/// distance from the origin into equal-volume shells.
pub fn shell_points(samples: &Vec<u8>) -> (r: Option<Vec<(u32, u32, u32)>>)
    ensures
        r is None <==> samples@.len() < 12,
        (r matches Some(p) ==> {
            &&& p@.len() == samples@.len() as int / 12
            &&& p@.len() >= 1
            &&& forall|k: int|
                0 <= k < p@.len() ==> p@[k].0 == word_at(samples@, 12 * k) && p@[k].1 == word_at(
                    samples@,
                    12 * k + 4,
                ) && p@[k].2 == word_at(samples@, 12 * k + 8)
        }),
{
    let n: usize = samples.len();
    if n < 12 {
        return None;
    }
    let chunks: usize = n / 12;
    let mut out: Vec<(u32, u32, u32)> = Vec::new();
    let mut k: usize = 0;
    while k < chunks
        invariant
            k <= chunks,
            chunks == n as int / 12,
            n == samples@.len(),
            n >= 12,
            out@.len() == k,
            forall|j: int|
                0 <= j < k ==> out@[j].0 == word_at(samples@, 12 * j) && out@[j].1 == word_at(
                    samples@,
                    12 * j + 4,
                ) && out@[j].2 == word_at(samples@, 12 * j + 8),
        decreases chunks - k,
    {
        proof {
            assert(12 * (k as int) + 12 <= n) by (nonlinear_arith)
                requires
                    k < n as int / 12,
                    n >= 12,
            ;
        }
        let base: usize = 12 * k;
        let x: u32 = read_word(samples, base);
        let y: u32 = read_word(samples, base + 4);
        let z: u32 = read_word(samples, base + 8);
        out.push((x, y, z));
        k += 1;
    }
    Some(out)
}

} // verus!
