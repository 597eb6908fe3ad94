//! Surrogate ids.
//!
//! An id is the image of a counter under a fixed bijection of the 64-bit
//! words, so two ids drawn from one generator differ whenever their counter
//! values differ, whatever the clock says. The bijection only scatters the
//! ids; uniqueness comes from the counter.

use vstd::prelude::*;

verus! {

pub const MIX_MULTIPLIER: u64 = 0xff51afd7ed558ccd;

pub const MIX_INVERSE: u64 = 0x4f74430c22a54005;

/// Folds the upper half of a word into its lower half.
pub open spec fn fold(x: u64) -> u64 {
    x ^ (x >> 32)
}

/// Multiplication by an odd constant, modulo 2^64.
pub open spec fn scale(x: u64) -> u64 {
    x.wrapping_mul(MIX_MULTIPLIER)
}

/// The id that stands for counter value `n`.
pub open spec fn mix(n: u64) -> u64 {
    fold(scale(fold(n)))
}

pub proof fn lemma_fold_involution(x: u64)
    ensures
        fold(fold(x)) == x,
{
    assert((x ^ (x >> 32)) ^ ((x ^ (x >> 32)) >> 32) == x) by (bit_vector);
}

pub proof fn lemma_scale_inverse(x: u64)
    ensures
        scale(x).wrapping_mul(MIX_INVERSE) == x,
{
    assert(x.wrapping_mul(0xff51afd7ed558ccd).wrapping_mul(0x4f74430c22a54005) == x) by (bit_vector);
}

/// Different counter values stand for different ids.
pub proof fn lemma_mix_injective(a: u64, b: u64)
    requires
        mix(a) == mix(b),
    ensures
        a == b,
{
    lemma_fold_involution(scale(fold(a)));
    lemma_fold_involution(scale(fold(b)));
    lemma_scale_inverse(fold(a));
    lemma_scale_inverse(fold(b));
    lemma_fold_involution(a);
    lemma_fold_involution(b);
}

/// Computes [`mix`].
pub fn mix_word(n: u64) -> (id: u64)
    ensures
        id == mix(n),
{
    let a = n ^ (n >> 32);
    let b = a.wrapping_mul(MIX_MULTIPLIER);
    b ^ (b >> 32)
}

/// A source of ids that never hands out the same id twice.
pub struct IdGenerator {
    counter: u64,
}

impl IdGenerator {
    /// How many ids have been handed out.
    pub closed spec fn count(&self) -> nat {
        self.counter as nat
    }

    /// The ids that have been handed out.
    pub open spec fn issued(&self) -> Set<u64> {
        Set::new(|id: u64| exists|n: u64| 1 <= n <= self.count() && mix(n) == id)
    }

    /// `after` is `before` with one more id, `id`, handed out.
    pub open spec fn step(before: IdGenerator, after: IdGenerator, id: u64) -> bool {
        &&& before.count() < u64::MAX
        &&& after.count() == before.count() + 1
        &&& id == mix(after.count() as u64)
    }

    /// A generator that has handed out nothing.
    pub fn new() -> (g: IdGenerator)
        ensures
            g.count() == 0,
            g.issued() == Set::<u64>::empty(),
    {
        let g = IdGenerator { counter: 0 };
        assert(g.issued() =~= Set::<u64>::empty());
        g
    }

    /// Resumes a generator that had handed out `count` ids.
    pub fn resume(count: u64) -> (g: IdGenerator)
        ensures
            g.count() == count,
    {
        IdGenerator { counter: count }
    }

    /// How many ids have been handed out.
    pub fn issued_count(&self) -> (n: u64)
        ensures
            n == self.count(),
    {
        self.counter
    }

    /// Whether another id can be drawn.
    pub fn can_issue(&self) -> (r: bool)
        ensures
            r == (self.count() < u64::MAX),
    {
        self.counter < u64::MAX
    }

    /// Draws an id that this generator has not handed out before.
    pub fn next_id(&mut self) -> (id: u64)
        requires
            old(self).count() < u64::MAX,
        ensures
            Self::step(*old(self), *final(self), id),
            !old(self).issued().contains(id),
            final(self).issued() == old(self).issued().insert(id),
    {
        self.counter = self.counter + 1;
        let id = mix_word(self.counter);
        proof {
            lemma_step_fresh(*old(self), *self, id);
        }
        id
    }
}

/// A step hands out an id that was not handed out before, and nothing else.
pub proof fn lemma_step_fresh(before: IdGenerator, after: IdGenerator, id: u64)
    requires
        IdGenerator::step(before, after, id),
    ensures
        !before.issued().contains(id),
        after.issued() == before.issued().insert(id),
{
    if before.issued().contains(id) {
        let n = choose|n: u64| 1 <= n <= before.count() && mix(n) == id;
        lemma_mix_injective(n, after.count() as u64);
    }
    assert forall|k: u64| after.issued().contains(k) <==> before.issued().insert(id).contains(
        k,
    ) by {
        if after.issued().contains(k) {
            let n = choose|n: u64| 1 <= n <= after.count() && mix(n) == k;
            if n <= before.count() {
                assert(before.issued().contains(k));
            }
        }
        if before.issued().contains(k) {
            let n = choose|n: u64| 1 <= n <= before.count() && mix(n) == k;
            assert(1 <= n <= after.count() && mix(n) == k);
        }
        if k == id {
            assert(1 <= (after.count() as u64) <= after.count() && mix(after.count() as u64) == k);
        }
    }
    assert(after.issued() =~= before.issued().insert(id));
}

/// Two ids drawn one after the other differ, whatever else stays the same
/// between the two draws.
pub proof fn lemma_successive_ids_differ(
    g0: IdGenerator,
    g1: IdGenerator,
    g2: IdGenerator,
    first: u64,
    second: u64,
)
    requires
        IdGenerator::step(g0, g1, first),
        IdGenerator::step(g1, g2, second),
    ensures
        first != second,
{
    lemma_step_fresh(g0, g1, first);
    lemma_step_fresh(g1, g2, second);
    assert(g1.issued().contains(first));
}

} // verus!
