//! Stable argmax: the index of the largest entry, ties broken in favour of
//! the smallest index. The classifier decodes both softmax outputs (handed
//! over as order-preserving keys) and one-hot target rows with this rule.
use vstd::prelude::*;

verus! {

/// `r` is the position of the maximum of `v`, and no earlier position
/// reaches that maximum.
pub open spec fn is_stable_argmax(v: Seq<u64>, r: int) -> bool {
    &&& 0 <= r < v.len()
    &&& forall|i: int| 0 <= i < v.len() ==> v[i] <= v[r]
    &&& forall|i: int| 0 <= i < r ==> v[i] < v[r]
}

/// A sequence has at most one stable argmax.
pub proof fn lemma_stable_argmax_unique(v: Seq<u64>, r1: int, r2: int)
    requires
        is_stable_argmax(v, r1),
        is_stable_argmax(v, r2),
    ensures
        r1 == r2,
{
    if r1 < r2 {
        assert(v[r1] < v[r2]);
        assert(v[r2] <= v[r1]);
    }
    if r2 < r1 {
        assert(v[r2] < v[r1]);
        assert(v[r1] <= v[r2]);
    }
}

/// An entry strictly above every other entry is the stable argmax.
pub proof fn lemma_unambiguous_maximum(v: Seq<u64>, m: int, r: int)
    requires
        0 <= m < v.len(),
        forall|i: int| 0 <= i < v.len() && i != m ==> v[i] < v[m],
        is_stable_argmax(v, r),
    ensures
        r == m,
{
    if r != m {
        assert(v[r] < v[m]);
        assert(v[m] <= v[r]);
    }
}

/// First index of the maximum entry of a non-empty vector.
pub fn stable_argmax(v: &Vec<u64>) -> (r: usize)
    requires
        v@.len() > 0,
    ensures
        is_stable_argmax(v@, r as int),
{
    let mut best: usize = 0;
    let mut i: usize = 1;
    while i < v.len()
        invariant
            1 <= i <= v@.len(),
            best < i,
            forall|j: int| 0 <= j < i ==> v@[j] <= v@[best as int],
            forall|j: int| 0 <= j < best ==> v@[j] < v@[best as int],
        decreases v@.len() - i,
    {
        if v[i] > v[best] {
            best = i;
        }
        i = i + 1;
    }
    best
}

} // verus!
