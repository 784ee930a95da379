//! Runs-test kernel: the sample median (read off an ascending copy of the
//! sample), the dichotomous above/below series it induces, and the count
//! of runs in that series.

use vstd::prelude::*;
use vstd::relations::{sorted_by, total_ordering};
use vstd::seq_lib::lemma_sorted_unique;
use crate::bytes::{byte_histogram, occurrences};

verus! {

/// The byte ordering the median is defined over.
pub open spec fn byte_leq() -> spec_fn(u8, u8) -> bool {
    |a: u8, b: u8| a <= b
}

/// The sample in ascending byte order.
pub open spec fn ascending(s: Seq<u8>) -> Seq<u8> {
    s.sort_by(byte_leq())
}

/// Twice the sample median: the middle element of the ascending order,
/// or the sum of the two middle elements when the length is even.
pub open spec fn med2_of(s: Seq<u8>) -> int {
    let t = ascending(s);
    let n = s.len() as int;
    if n % 2 == 0 {
        t[n / 2 - 1] + t[n / 2]
    } else {
        2 * t[n / 2]
    }
}

pub proof fn lemma_byte_leq_total()
    ensures
        total_ordering(byte_leq()),
{
    let leq = byte_leq();
    assert forall|a: u8, b: u8| #[trigger] leq(a, b) || #[trigger] leq(b, a) by {}
}

proof fn lemma_occurrences_eq_count(s: Seq<u8>, u: u8)
    ensures
        occurrences(s, u) == s.to_multiset().count(u),
    decreases s.len(),
{
    broadcast use vstd::seq_lib::group_to_multiset_ensures;
    broadcast use vstd::multiset::group_multiset_axioms;

    if s.len() == 0 {
        assert(!s.contains(u));
    } else {
        lemma_occurrences_eq_count(s.drop_last(), u);
        assert(s =~= s.drop_last().push(s.last()));
        assert(s.drop_last().push(s.last()).to_multiset() =~= s.drop_last().to_multiset().insert(
            s.last(),
        ));
    }
}

/// Ascending copy of the sample by counting, pinned to the mathematical
/// sorted order.
pub fn sorted_copy(samples: &Vec<u8>) -> (r: Vec<u8>)
    ensures
        r@ == ascending(samples@),
        r@.len() == samples@.len(),
{
    proof {
        lemma_byte_leq_total();
        samples@.lemma_sort_by_ensures(byte_leq());
    }
    if samples.len() == 0 {
        let r: Vec<u8> = Vec::new();
        proof {
            broadcast use vstd::seq_lib::group_to_multiset_ensures;

            assert(ascending(samples@).to_multiset() =~= samples@.to_multiset());
            assert(ascending(samples@).to_multiset().len() == ascending(samples@).len());
            assert(samples@.to_multiset().len() == samples@.len());
            assert(ascending(samples@).len() == 0);
            assert(r@ =~= ascending(samples@));
        }
        return r;
    }
    let h: Vec<u64> = byte_histogram(samples).unwrap();
    let mut out: Vec<u8> = Vec::new();
    let mut v: usize = 0;
    while v < 256
        invariant
            v <= 256,
            h@.len() == 256,
            forall|u: int| 0 <= u < 256 ==> h@[u] == occurrences(samples@, u as u8),
            sorted_by(out@, byte_leq()),
            forall|t: int| 0 <= t < out@.len() ==> (out@[t] as int) < v,
            forall|u: u8| #[trigger]
                occurrences(out@, u) == if (u as int) < v {
                    occurrences(samples@, u)
                } else {
                    0int
                },
        decreases 256 - v,
    {
        let c: u64 = h[v];
        let mut j: u64 = 0;
        while j < c
            invariant
                j <= c,
                v < 256,
                c == occurrences(samples@, v as u8),
                sorted_by(out@, byte_leq()),
                forall|t: int| 0 <= t < out@.len() ==> (out@[t] as int) <= v,
                forall|u: u8| #[trigger]
                    occurrences(out@, u) == if (u as int) < v {
                        occurrences(samples@, u)
                    } else if u as int == v {
                        j as int
                    } else {
                        0int
                    },
            decreases c - j,
        {
            let ghost old_out = out@;
            out.push(v as u8);
            proof {
                assert(out@.drop_last() =~= old_out);
                assert(out@.last() == v as u8);
                assert forall|u: u8| #[trigger] occurrences(out@, u) == occurrences(old_out, u)
                    + if u as int == v {
                    1int
                } else {
                    0int
                } by {}
                let leq = byte_leq();
                assert forall|a: int, b: int| 0 <= a < b < out@.len() implies #[trigger] leq(
                    out@[a],
                    out@[b],
                ) by {
                    if b < out@.len() - 1 {
                        assert(leq(old_out[a], old_out[b]));
                    }
                }
            }
            j += 1;
        }
        v += 1;
    }
    proof {
        assert forall|u: u8| #[trigger] occurrences(out@, u) == occurrences(samples@, u) by {
            if u as int >= 256 {
            }
        }
        assert forall|u: u8| #[trigger] out@.to_multiset().count(u)
            == samples@.to_multiset().count(u) by {
            lemma_occurrences_eq_count(out@, u);
            lemma_occurrences_eq_count(samples@, u);
        }
        assert(out@.to_multiset() =~= samples@.to_multiset());
        lemma_sorted_unique(out@, ascending(samples@), byte_leq());
        assert(out@ =~= ascending(samples@));
        broadcast use vstd::seq_lib::group_to_multiset_ensures;

        assert(out@.to_multiset().len() == out@.len());
        assert(samples@.to_multiset().len() == samples@.len());
    }
    out
}

/// Bytes strictly above the median among the first `j` (compared as
/// doubled values against the doubled median).
pub open spec fn count_above(s: Seq<u8>, m: int) -> int
    decreases s.len(),
{
    if s.len() == 0 {
        0
    } else {
        count_above(s.drop_last(), m) + if 2 * s.last() > m {
            1int
        } else {
            0int
        }
    }
}

/// Bytes strictly below the median.
pub open spec fn count_below(s: Seq<u8>, m: int) -> int
    decreases s.len(),
{
    if s.len() == 0 {
        0
    } else {
        count_below(s.drop_last(), m) + if 2 * s.last() < m {
            1int
        } else {
            0int
        }
    }
}

/// The dichotomous series: one symbol per byte off the median, `true` for
/// above and `false` for below; bytes equal to the median are dropped.
pub open spec fn purged(s: Seq<u8>, m: int) -> Seq<bool>
    decreases s.len(),
{
    if s.len() == 0 {
        Seq::empty()
    } else {
        let p = purged(s.drop_last(), m);
        if 2 * s.last() > m {
            p.push(true)
        } else if 2 * s.last() < m {
            p.push(false)
        } else {
            p
        }
    }
}

/// Number of adjacent symbol changes in a dichotomous series.
pub open spec fn transitions(q: Seq<bool>) -> int
    decreases q.len(),
{
    if q.len() <= 1 {
        0
    } else {
        transitions(q.drop_last()) + if q[q.len() - 2] != q.last() {
            1int
        } else {
            0int
        }
    }
}

pub proof fn lemma_purged_len(s: Seq<u8>, m: int)
    ensures
        purged(s, m).len() == count_above(s, m) + count_below(s, m),
        0 <= count_above(s, m),
        0 <= count_below(s, m),
        count_above(s, m) + count_below(s, m) <= s.len(),
    decreases s.len(),
{
    if s.len() > 0 {
        lemma_purged_len(s.drop_last(), m);
    }
}

pub proof fn lemma_transitions_bound(q: Seq<bool>)
    ensures
        0 <= transitions(q),
        q.len() >= 1 ==> transitions(q) <= q.len() - 1,
    decreases q.len(),
{
    if q.len() > 1 {
        lemma_transitions_bound(q.drop_last());
    }
}

/// Runs kernel: the observed run count of the above/below-median series
/// together with the above and below counts, or nothing when the sample
/// is empty or every byte falls on one side of (or on) the median — the
/// Wald–Wolfowitz standardization is degenerate there.
pub fn runs_counts(samples: &Vec<u8>) -> (r: Option<(u64, u64, u64)>)
    ensures
        ({
            let s = samples@;
            let m = med2_of(s);
            &&& (r is None <==> s.len() == 0 || count_above(s, m) == 0 || count_below(s, m) == 0)
            &&& (r matches Some(c) ==> c.0 == 1 + transitions(purged(s, m)) && c.1 == count_above(
                s,
                m,
            ) && c.2 == count_below(s, m))
        }),
{
    let n: usize = samples.len();
    if n == 0 {
        return None;
    }
    let sorted: Vec<u8> = sorted_copy(samples);
    let med2: u32 = if n % 2 == 0 {
        sorted[n / 2 - 1] as u32 + sorted[n / 2] as u32
    } else {
        2 * (sorted[n / 2] as u32)
    };
    proof {
        assert(med2 == med2_of(samples@));
    }
    let mut above: u64 = 0;
    let mut below: u64 = 0;
    let mut trans: u64 = 0;
    let mut have_last: bool = false;
    let mut last_sym: bool = false;
    let mut i: usize = 0;
    while i < n
        invariant
            i <= n,
            n == samples@.len(),
            med2 == med2_of(samples@),
            above == count_above(samples@.subrange(0, i as int), med2 as int),
            below == count_below(samples@.subrange(0, i as int), med2 as int),
            trans == transitions(purged(samples@.subrange(0, i as int), med2 as int)),
            purged(samples@.subrange(0, i as int), med2 as int).len() == above + below,
            have_last <==> above + below > 0,
            have_last ==> last_sym == purged(samples@.subrange(0, i as int), med2 as int).last(),
        decreases n - i,
    {
        let ghost pre = samples@.subrange(0, i as int);
        let ghost post = samples@.subrange(0, i as int + 1);
        proof {
            assert(post.drop_last() =~= pre);
            assert(post.last() == samples@[i as int]);
            lemma_purged_len(pre, med2 as int);
            lemma_transitions_bound(purged(pre, med2 as int));
        }
        let b: u8 = samples[i];
        let doubled: u32 = 2 * (b as u32);
        if doubled > med2 {
            proof {
                assert(purged(post, med2 as int) == purged(pre, med2 as int).push(true));
                assert(purged(post, med2 as int).drop_last() =~= purged(pre, med2 as int));
            }
            if have_last && !last_sym {
                trans = trans + 1;
            }
            above = above + 1;
            have_last = true;
            last_sym = true;
        } else if doubled < med2 {
            proof {
                assert(purged(post, med2 as int) == purged(pre, med2 as int).push(false));
                assert(purged(post, med2 as int).drop_last() =~= purged(pre, med2 as int));
            }
            if have_last && last_sym {
                trans = trans + 1;
            }
            below = below + 1;
            have_last = true;
            last_sym = false;
        } else {
            proof {
                assert(purged(post, med2 as int) == purged(pre, med2 as int));
            }
        }
        i += 1;
    }
    proof {
        assert(samples@.subrange(0, n as int) =~= samples@);
        lemma_purged_len(samples@, med2 as int);
        lemma_transitions_bound(purged(samples@, med2 as int));
    }
    if above == 0 || below == 0 {
        return None;
    }
    Some((1 + trans, above, below))
}

} // verus!
