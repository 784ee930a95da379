//! Deterministic reference generator: a twisted-feedback pseudo-random
//! generator over a 624-word state array, used by the distribution-uniformity
//! test to synthesize a comparison sample. Every step is pinned bit-exactly
//! by the spec functions below, so a seed determines the whole output stream.

use vstd::prelude::*;

verus! {

/// Output tempering: two xor-shift steps with fixed masks.
pub open spec fn temper(y: u32) -> u32 {
    let y1 = y ^ ((y << 7u32) & 0xe46e1700u32);
    y1 ^ ((y1 << 15u32) & 0x9b868000u32)
}

/// The word the refill pass writes into slot `i`, given the state as it
/// stands when the pass reaches `i` (earlier slots already refreshed).
pub open spec fn twist_at(s: Seq<u32>, i: int) -> u32 {
    let x = ((s[i] & 0x80000000u32) + (s[(i + 1) % 624] & 0x7fffffffu32)) as u32;
    let xa = if x % 2 != 0 {
        (x >> 1u32) ^ 0x9908b0dfu32
    } else {
        x >> 1u32
    };
    s[(i + 397) % 624] ^ xa
}

/// State after the refill pass has rewritten slots `0 .. k` in place.
pub open spec fn twist_upto(s: Seq<u32>, k: int) -> Seq<u32>
    decreases k,
{
    if k <= 0 {
        s
    } else {
        let t = twist_upto(s, k - 1);
        t.update(k - 1, twist_at(t, k - 1))
    }
}

/// State after one full refill pass over all 624 slots.
pub open spec fn twisted(s: Seq<u32>) -> Seq<u32> {
    twist_upto(s, 624)
}

/// Word `i` of the seeded state: slot 0 holds the seed, and each later slot
/// expands the previous one by a fixed multiplier, wrapping modulo 2^32.
pub open spec fn seeded_at(seed: u32, i: int) -> u32
    decreases i,
{
    if i <= 0 {
        seed
    } else {
        let prev = seeded_at(seed, i - 1);
        vstd::wrapping::u32_specs::wrapping_add(
            vstd::wrapping::u32_specs::wrapping_mul(1812433253u32, prev ^ (prev >> 30u32)),
            i as u32,
        )
    }
}

/// The full 624-word state produced from a 32-bit seed.
pub open spec fn seeded(seed: u32) -> Seq<u32> {
    Seq::new(624, |i: int| seeded_at(seed, i))
}

/// State array a draw reads from: a refill happens exactly when the cursor
/// has wrapped to 0.
pub open spec fn step_state(s: Seq<u32>, i: int) -> Seq<u32> {
    if i == 0 {
        twisted(s)
    } else {
        s
    }
}

/// The word a single draw returns, from state `s` with cursor `i`.
pub open spec fn step_output(s: Seq<u32>, i: int) -> u32 {
    temper(step_state(s, i)[i])
}

/// Cursor position after one draw.
pub open spec fn step_cursor(i: int) -> int {
    (i + 1) % 624
}

/// Generator configuration (state array, cursor) after `n` draws from a
/// freshly seeded generator.
pub open spec fn state_after(seed: u32, n: nat) -> (Seq<u32>, int)
    decreases n,
{
    if n == 0 {
        (seeded(seed), 0)
    } else {
        let (s, i) = state_after(seed, (n - 1) as nat);
        (step_state(s, i), step_cursor(i))
    }
}

/// The `n`-th word (counting from 0) of the output stream for a seed.
pub open spec fn stream_nth(seed: u32, n: nat) -> u32 {
    let (s, i) = state_after(seed, n);
    step_output(s, i)
}

pub proof fn lemma_twist_upto_len(s: Seq<u32>, k: int)
    requires
        k <= s.len(),
    ensures
        twist_upto(s, k).len() == s.len(),
    decreases k,
{
    if k > 0 {
        lemma_twist_upto_len(s, k - 1);
        assert(twist_upto(s, k) == twist_upto(s, k - 1).update(k - 1, twist_at(twist_upto(s, k - 1), k - 1)));
    }
}

pub struct Well19937c {
    state: Vec<u32>,
    index: usize,
}

impl Well19937c {
    /// The 624-word state array.
    pub closed spec fn state_seq(&self) -> Seq<u32> {
        self.state@
    }

    /// The cursor into the state array.
    pub closed spec fn cursor(&self) -> int {
        self.index as int
    }

    pub open spec fn wf(&self) -> bool {
        self.state_seq().len() == 624 && 0 <= self.cursor() < 624
    }

    /// Creates a generator whose state is the deterministic expansion of
    /// the given seed, with the cursor at 0.
    #[verifier::rlimit(50)]
    pub fn new(seed: u32) -> (g: Self)
        ensures
            g.wf(),
            g.state_seq() == seeded(seed),
            g.cursor() == 0,
    {
        let mut state: Vec<u32> = Vec::new();
        state.push(seed);
        let mut i: usize = 1;
        while i < 624
            invariant
                1 <= i <= 624,
                state@.len() == i,
                forall|j: int| 0 <= j < i ==> state@[j] == seeded_at(seed, j),
            decreases 624 - i,
        {
            let prev: u32 = state[i - 1];
            let v: u32 = 1812433253u32.wrapping_mul(prev ^ (prev >> 30)).wrapping_add(i as u32);
            proof {
                assert(prev == seeded_at(seed, i as int - 1));
                assert(v == seeded_at(seed, i as int));
            }
            state.push(v);
            i += 1;
        }
        let g = Well19937c { state, index: 0 };
        proof {
            assert(g.state_seq() =~= seeded(seed));
        }
        g
    }

    /// One in-place refill pass over the state; resets the cursor to 0.
    #[verifier::rlimit(50)]
    pub fn twist(&mut self)
        requires
            old(self).wf(),
        ensures
            final(self).wf(),
            final(self).state_seq() == twisted(old(self).state_seq()),
            final(self).cursor() == 0,
    {
        let ghost s0 = self.state@;
        let mut i: usize = 0;
        while i < 624
            invariant
                0 <= i <= 624,
                self.state@.len() == 624,
                self.state@ == twist_upto(s0, i as int),
            decreases 624 - i,
        {
            let ghost t = self.state@;
            let a: u32 = self.state[i];
            let b: u32 = self.state[(i + 1) % 624];
            let hi: u32 = a & 0x80000000;
            let lo: u32 = b & 0x7fffffff;
            assert(hi <= 0x80000000 && lo <= 0x7fffffff) by (bit_vector)
                requires
                    hi == a & 0x80000000,
                    lo == b & 0x7fffffff,
            ;
            let x: u32 = hi + lo;
            let mut xa: u32 = x >> 1;
            if x % 2 != 0 {
                xa = xa ^ 0x9908b0df;
            }
            let m: u32 = self.state[(i + 397) % 624];
            let v: u32 = m ^ xa;
            proof {
                assert(a == t[i as int]);
                assert(b == t[(i as int + 1) % 624]);
                assert(m == t[(i as int + 397) % 624]);
                assert(x == ((a & 0x80000000u32) + (b & 0x7fffffffu32)) as u32);
                assert(v == twist_at(t, i as int));
            }
            self.state.set(i, v);
            proof {
                assert(self.state@ =~= twist_upto(s0, i as int + 1));
            }
            i += 1;
        }
        self.index = 0;
    }

    /// Draws the next word: refills when the cursor has wrapped to 0, then
    /// tempers the word under the cursor and advances the cursor.
    pub fn next_u32(&mut self) -> (r: u32)
        requires
            old(self).wf(),
        ensures
            final(self).wf(),
            final(self).state_seq() == step_state(old(self).state_seq(), old(self).cursor()),
            r == step_output(old(self).state_seq(), old(self).cursor()),
            final(self).cursor() == step_cursor(old(self).cursor()),
    {
        if self.index == 0 {
            proof {
                lemma_twist_upto_len(self.state@, 624);
            }
            self.twist();
        }
        let y: u32 = self.state[self.index];
        self.index = (self.index + 1) % 624;
        let y1: u32 = y ^ ((y << 7) & 0xe46e1700);
        let y2: u32 = y1 ^ ((y1 << 15) & 0x9b868000);
        y2
    }
}

/// The first `len` words of the output stream for a seed: the comparison
/// sample the distribution-uniformity test is built on.
pub fn uniform_words(len: usize, seed: u32) -> (r: Vec<u32>)
    ensures
        r@.len() == len,
        forall|k: int| 0 <= k < len ==> r@[k] == stream_nth(seed, k as nat),
{
    let mut g = Well19937c::new(seed);
    let mut out: Vec<u32> = Vec::new();
    let mut k: usize = 0;
    while k < len
        invariant
            k <= len,
            g.wf(),
            out@.len() == k,
            g.state_seq() == state_after(seed, k as nat).0,
            g.cursor() == state_after(seed, k as nat).1,
            forall|j: int| 0 <= j < k ==> out@[j] == stream_nth(seed, j as nat),
        decreases len - k,
    {
        let w: u32 = g.next_u32();
        proof {
            assert(state_after(seed, (k + 1) as nat).0 == step_state(
                state_after(seed, k as nat).0,
                state_after(seed, k as nat).1,
            ));
            assert(w == stream_nth(seed, k as nat));
        }
        out.push(w);
        k += 1;
    }
    out
}

/// Same seed, same stream: two output sequences pinned to one seed agree
/// word for word, however they were drawn.
pub proof fn lemma_same_seed_same_stream(seed: u32, a: Seq<u32>, b: Seq<u32>)
    requires
        a.len() == b.len(),
        forall|k: int| 0 <= k < a.len() ==> a[k] == stream_nth(seed, k as nat),
        forall|k: int| 0 <= k < b.len() ==> b[k] == stream_nth(seed, k as nat),
    ensures
        a == b,
{
    assert(a =~= b);
}

} // verus!
