//! Train/test partitioning of a dataset of `n` paired rows at a fixed
//! 0.8 / 0.2 ratio. The split is by position: the first `train_len(n)` rows
//! train, the remaining `n / 5` rows test, so feature/target row pairing is
//! never broken.
use vstd::prelude::*;

verus! {

/// Number of rows assigned to the training part of an `n`-row dataset.
pub open spec fn spec_train_len(n: nat) -> nat {
    (n - n / 5) as nat
}

/// Number of rows assigned to the test part of an `n`-row dataset.
pub open spec fn spec_test_len(n: nat) -> nat {
    n / 5
}

/// Where an `n`-row dataset is cut: rows `0 .. train_len(n)` train and rows
/// `train_len(n) .. n` test, four rows in five (rounded up) going to training.
pub fn train_len(n: usize) -> (t: usize)
    ensures
        t == spec_train_len(n as nat),
        t + spec_test_len(n as nat) == n,
        t <= n,
        n >= 5 ==> t >= 1 && spec_test_len(n as nat) >= 1,
{
    n - n / 5
}

} // verus!
