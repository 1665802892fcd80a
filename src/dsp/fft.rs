//! Sizing of discrete Fourier transforms.

use vstd::arithmetic::power2::{lemma2_to64, lemma_pow2_strictly_increases, lemma_pow2_unfold, pow2};
use vstd::prelude::*;

verus! {

/// The largest power of two that a `usize` holds on every target, and so the
/// largest request that [`optimal_size`] can round up.
pub open spec fn largest_size() -> nat {
    usize::MAX as nat / 2 + 1
}

/// `p` is the smallest power of two that is at least `m`.
pub open spec fn is_smallest_power_of_two_at_least(p: nat, m: nat) -> bool {
    &&& exists|e: nat| p == pow2(e)
    &&& m <= p
    &&& forall|e: nat| m <= #[trigger] pow2(e) ==> p <= pow2(e)
}

/// Returns the smallest power of two that is at least `min_size`: the
/// transform length that fast algorithms handle best. A request of `0` or `1`
/// gives `1`.
pub fn optimal_size(min_size: usize) -> (size: usize)
    requires
        min_size <= largest_size(),
    ensures
        is_smallest_power_of_two_at_least(size as nat, min_size as nat),
{
    let mut size: usize = 1;
    let ghost mut e: nat = 0;
    proof {
        lemma2_to64();
    }
    while size < min_size
        invariant
            size == pow2(e),
            size >= 1,
            min_size <= largest_size(),
            e == 0 || pow2((e - 1) as nat) < min_size,
        decreases usize::MAX - size,
    {
        proof {
            lemma_pow2_unfold(e + 1);
        }
        size = size * 2;
        proof {
            e = e + 1;
        }
    }
    proof {
        assert forall|k: nat| min_size <= #[trigger] pow2(k) implies size <= pow2(k) by {
            if k < e {
                if k < (e - 1) as nat {
                    lemma_pow2_strictly_increases(k, (e - 1) as nat);
                }
            } else if k > e {
                lemma_pow2_strictly_increases(e, k);
            }
        }
    }
    size
}

} // verus!
