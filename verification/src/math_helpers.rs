//! What sampling a range and defuzzifying a curve decide without arithmetic.

use crate::scalar::Scalar;
use vstd::prelude::*;

verus! {

/// The number of points into which a range is cut for a requested count of
/// `n`: `n` itself, and a single point where `n` is 0 or 1.
pub open spec fn points(n: usize) -> int {
    if n <= 1 {
        1
    } else {
        n as int
    }
}

/// `mus` is zero everywhere: no rule has fired for the output whose
/// aggregated curve it is.
pub open spec fn silent(mus: Seq<Scalar>) -> bool {
    forall|k: int| 0 <= k < mus.len() ==> (#[trigger] mus[k])@ == 0
}

/// The rank of the sample that stands for a silent curve: the one in the
/// middle, at position `len / 2`, and zero where there are no samples.
pub open spec fn middle(xs: Seq<Scalar>) -> int {
    if xs.len() > 0 {
        xs[xs.len() as int / 2]@
    } else {
        0
    }
}

/// The number of points into which a range is cut for a requested count of `n`.
pub fn point_count(n: usize) -> (count: usize)
    ensures
        count == points(n),
        count >= 1,
{
    if n <= 1 {
        1
    } else {
        n
    }
}

/// Whether the curve is zero everywhere.
pub fn is_silent(mus: &Vec<Scalar>) -> (r: bool)
    ensures
        r == silent(mus@),
{
    let zero = Scalar::zero();
    let mut k: usize = 0;
    while k < mus.len()
        invariant
            k <= mus.len(),
            zero@ == 0,
            forall|m: int| 0 <= m < k ==> (#[trigger] mus@[m])@ == 0,
        decreases mus.len() - k,
    {
        proof {
            Scalar::lemma_rank_determines(mus@[k as int], zero);
        }
        if mus[k] != zero {
            return false;
        }
        k += 1;
    }
    true
}

/// The crisp value of a silent curve over the sample points `xs`: the
/// middle sample, and zero where there are no samples.
pub fn midpoint_sample(xs: &Vec<Scalar>) -> (r: Scalar)
    ensures
        r@ == middle(xs@),
{
    if xs.len() > 0 {
        xs[xs.len() / 2]
    } else {
        Scalar::zero()
    }
}

} // verus!
