//! Evaluation of a test split: how many predicted class indices match the
//! actual ones, and the sum of squared index differences. Accuracy is
//! `correct / total` and mean-squared-error is `sq_err_sum / total`; both
//! divisions belong to the harness, which owns the floating-point boundary,
//! and both are undefined on an empty test split.
use crate::errors::CoreError;
use vstd::prelude::*;

verus! {

/// Class indices are bounded so that the squared-error sum provably fits
/// in a `u128`; no dataset in memory can discover this many classes.
pub const INDEX_LIMIT: u64 = 0x1_0000_0000;

/// The largest possible squared difference of two indices below
/// `INDEX_LIMIT`: `(INDEX_LIMIT - 1) * (INDEX_LIMIT - 1)`.
pub const SQ_ERR_TERM_LIMIT: u128 = 0xffff_fffe_0000_0001;

/// How many positions of `p` and `a` agree.
pub open spec fn correct_count(p: Seq<usize>, a: Seq<usize>) -> int
    decreases p.len(),
{
    if p.len() == 0 || a.len() == 0 {
        0
    } else {
        correct_count(p.drop_last(), a.drop_last()) + if p.last() == a.last() {
            1int
        } else {
            0int
        }
    }
}

/// Sum over all positions of the squared difference of predicted and
/// actual class index.
pub open spec fn sq_err_sum(p: Seq<usize>, a: Seq<usize>) -> int
    decreases p.len(),
{
    if p.len() == 0 || a.len() == 0 {
        0
    } else {
        sq_err_sum(p.drop_last(), a.drop_last()) + (p.last() - a.last()) * (p.last() - a.last())
    }
}

/// At most every position agrees: `0 <= correct_count <= len`, which is
/// accuracy lying in [0, 1] once divided by the row count.
pub proof fn lemma_correct_count_bounds(p: Seq<usize>, a: Seq<usize>)
    ensures
        0 <= correct_count(p, a),
        correct_count(p, a) <= p.len(),
    decreases p.len(),
{
    if p.len() > 0 && a.len() > 0 {
        lemma_correct_count_bounds(p.drop_last(), a.drop_last());
    }
}

/// A sum of squares is never negative: mean-squared-error is >= 0.
pub proof fn lemma_sq_err_sum_nonneg(p: Seq<usize>, a: Seq<usize>)
    ensures
        sq_err_sum(p, a) >= 0,
    decreases p.len(),
{
    if p.len() > 0 && a.len() > 0 {
        lemma_sq_err_sum_nonneg(p.drop_last(), a.drop_last());
        let d = p.last() - a.last();
        assert(d * d >= 0) by (nonlinear_arith);
    }
}

/// The counts a test split is judged by.
#[derive(Debug, Clone, Copy, PartialEq, Eq, Structural)]
pub struct Metrics {
    /// Number of test rows.
    pub total: usize,
    /// Number of rows whose predicted class index equals the actual one.
    pub correct: usize,
    /// Sum of squared differences of predicted and actual class index.
    pub sq_err_sum: u128,
}

/// Count matches and squared index error over paired prediction/actual
/// rows; an empty pairing has no defined accuracy and is refused.
pub fn evaluate(predictions: &Vec<usize>, actuals: &Vec<usize>) -> (r: Result<Metrics, CoreError>)
    requires
        predictions@.len() == actuals@.len(),
        forall|i: int| 0 <= i < predictions@.len() ==> predictions@[i] < INDEX_LIMIT
            && actuals@[i] < INDEX_LIMIT,
    ensures
        match r {
            Ok(m) => {
                &&& predictions@.len() > 0
                &&& m.total == predictions@.len()
                &&& m.correct == correct_count(predictions@, actuals@)
                &&& m.sq_err_sum == sq_err_sum(predictions@, actuals@)
            },
            Err(e) => e == (CoreError::DataError) && predictions@.len() == 0,
        },
{
    if predictions.len() == 0 {
        return Err(CoreError::DataError);
    }
    let ghost pv = predictions@;
    let ghost av = actuals@;
    let mut correct: usize = 0;
    let mut sse: u128 = 0;
    let mut i: usize = 0;
    while i < predictions.len()
        invariant
            predictions@ == pv,
            actuals@ == av,
            pv.len() == av.len(),
            i <= pv.len(),
            forall|j: int| 0 <= j < pv.len() ==> pv[j] < INDEX_LIMIT && av[j] < INDEX_LIMIT,
            correct == correct_count(pv.take(i as int), av.take(i as int)),
            correct <= i,
            sse == sq_err_sum(pv.take(i as int), av.take(i as int)),
            sse <= i as u128 * SQ_ERR_TERM_LIMIT,
        decreases pv.len() - i,
    {
        let p = predictions[i];
        let a = actuals[i];
        let d: u128 = if p >= a {
            (p - a) as u128
        } else {
            (a - p) as u128
        };
        proof {
            let pt = pv.take(i as int + 1);
            let at = av.take(i as int + 1);
            assert(pt.drop_last() =~= pv.take(i as int));
            assert(at.drop_last() =~= av.take(i as int));
            lemma_correct_count_bounds(pv.take(i as int), av.take(i as int));
            let dd = p - a;
            assert(d * d == dd * dd) by (nonlinear_arith)
                requires
                    d == dd || d == -dd,
            ;
            assert(d * d <= 0xffff_fffe_0000_0001) by (nonlinear_arith)
                requires
                    0 <= d <= 0xffff_ffff,
            ;
        }
        if p == a {
            correct = correct + 1;
        }
        sse = sse + d * d;
        i = i + 1;
    }
    proof {
        assert(pv.take(pv.len() as int) =~= pv);
        assert(av.take(av.len() as int) =~= av);
        lemma_correct_count_bounds(pv, av);
    }
    Ok(Metrics { total: predictions.len(), correct, sq_err_sum: sse })
}

} // verus!
