//! One-hot encoding of class indices, and its decoding by stable argmax.
//! A one-hot row of width `k` for class `c` holds a single 1 at column `c`
//! and 0 everywhere else, so it sums to exactly 1.
use crate::argmax::{is_stable_argmax, stable_argmax};
use vstd::prelude::*;

verus! {

/// The one-hot row of width `k` with its single 1 at column `c`.
pub open spec fn one_hot_row(c: int, k: nat) -> Seq<u64> {
    Seq::new(k, |j: int| if j == c { 1u64 } else { 0u64 })
}

/// Sum of the entries of a row.
pub open spec fn row_sum(s: Seq<u64>) -> int
    decreases s.len(),
{
    if s.len() == 0 {
        0
    } else {
        row_sum(s.drop_last()) + s.last()
    }
}

proof fn lemma_row_sum_zero(s: Seq<u64>)
    requires
        forall|j: int| 0 <= j < s.len() ==> s[j] == 0u64,
    ensures
        row_sum(s) == 0,
    decreases s.len(),
{
    if s.len() > 0 {
        lemma_row_sum_zero(s.drop_last());
    }
}

/// Every one-hot row sums to exactly 1, and its single 1 sits at the
/// column named by the encoded class index.
pub proof fn lemma_one_hot_row_sum(c: int, k: nat)
    requires
        0 <= c < k,
    ensures
        row_sum(one_hot_row(c, k)) == 1,
        one_hot_row(c, k)[c] == 1u64,
        forall|j: int| 0 <= j < k && j != c ==> one_hot_row(c, k)[j] == 0u64,
    decreases k,
{
    let s = one_hot_row(c, k);
    if c == k - 1 {
        lemma_row_sum_zero(s.drop_last());
    } else {
        lemma_one_hot_row_sum(c, (k - 1) as nat);
        assert(s.drop_last() =~= one_hot_row(c, (k - 1) as nat));
    }
}

/// Decoding a one-hot row by stable argmax recovers the encoded class.
pub proof fn lemma_decode_one_hot(c: int, k: nat, r: int)
    requires
        0 <= c < k,
        is_stable_argmax(one_hot_row(c, k), r),
    ensures
        r == c,
{
    let s = one_hot_row(c, k);
    assert(s[c] <= s[r]);
    if r != c {
        assert(s[r] == 0u64);
    }
}

/// Encoding a whole class-index sequence one-hot and decoding every row
/// by stable argmax gives back exactly the original indices.
pub proof fn lemma_decode_round_trip(labels: Seq<usize>, k: nat, decoded: Seq<usize>)
    requires
        forall|i: int| 0 <= i < labels.len() ==> (#[trigger] labels[i]) < k,
        decoded.len() == labels.len(),
        forall|i: int|
            0 <= i < labels.len() ==> is_stable_argmax(
                one_hot_row((#[trigger] labels[i]) as int, k),
                decoded[i] as int,
            ),
    ensures
        decoded == labels,
{
    assert forall|i: int| 0 <= i < labels.len() implies decoded[i] == labels[i] by {
        lemma_decode_one_hot(labels[i] as int, k, decoded[i] as int);
    }
    assert(decoded =~= labels);
}

/// Expand each class index into a one-hot target row of width `k`.
pub fn one_hot(labels: &Vec<usize>, k: usize) -> (r: Vec<Vec<u64>>)
    requires
        forall|i: int| 0 <= i < labels@.len() ==> labels@[i] < k,
    ensures
        r@.len() == labels@.len(),
        forall|i: int| 0 <= i < r@.len() ==> #[trigger] r@[i]@ == one_hot_row(
            labels@[i] as int,
            k as nat,
        ),
{
    let mut rows: Vec<Vec<u64>> = Vec::new();
    let mut i: usize = 0;
    while i < labels.len()
        invariant
            i <= labels@.len(),
            rows@.len() == i,
            forall|i2: int| 0 <= i2 < labels@.len() ==> labels@[i2] < k,
            forall|i2: int| 0 <= i2 < i ==> #[trigger] rows@[i2]@ == one_hot_row(
                labels@[i2] as int,
                k as nat,
            ),
        decreases labels@.len() - i,
    {
        let c = labels[i];
        let mut row: Vec<u64> = Vec::new();
        let mut j: usize = 0;
        while j < k
            invariant
                j <= k,
                c < k,
                row@.len() == j,
                forall|j2: int| 0 <= j2 < j ==> row@[j2] == (if j2 == c { 1u64 } else { 0u64 }),
            decreases k - j,
        {
            if j == c {
                row.push(1u64);
            } else {
                row.push(0u64);
            }
            j = j + 1;
        }
        proof {
            assert(row@ =~= one_hot_row(c as int, k as nat));
        }
        rows.push(row);
        i = i + 1;
    }
    rows
}

/// Decode a matrix of non-empty target rows, each to the first index of its
/// maximum entry.
pub fn decode_targets(targets: &Vec<Vec<u64>>) -> (r: Vec<usize>)
    requires
        forall|i: int| 0 <= i < targets@.len() ==> #[trigger] targets@[i]@.len() > 0,
    ensures
        r@.len() == targets@.len(),
        forall|i: int| 0 <= i < r@.len() ==> is_stable_argmax(targets@[i]@, r@[i] as int),
{
    let mut out: Vec<usize> = Vec::new();
    let mut i: usize = 0;
    while i < targets.len()
        invariant
            i <= targets@.len(),
            out@.len() == i,
            forall|i2: int| 0 <= i2 < targets@.len() ==> #[trigger] targets@[i2]@.len() > 0,
            forall|i2: int| 0 <= i2 < i ==> is_stable_argmax(targets@[i2]@, out@[i2] as int),
        decreases targets@.len() - i,
    {
        let d = stable_argmax(&targets[i]);
        out.push(d);
        i = i + 1;
    }
    out
}

} // verus!
