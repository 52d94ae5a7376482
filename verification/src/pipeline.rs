//! The two halves of a training run that surround the numeric work. Before
//! training, `prepare` turns raw records into a train/test partition of
//! validated feature rows and one-hot targets, keeping row pairing intact.
//! After the harness has trained its parameters and predicted a class
//! index per test row, `summarize` decodes the actual indices from the
//! test targets and counts matches and squared index error.
use crate::argmax::is_stable_argmax;
use crate::encode::{decode_targets, one_hot, one_hot_row};
use crate::errors::CoreError;
use crate::evaluate::{correct_count, evaluate, sq_err_sum, Metrics, INDEX_LIMIT};
use crate::split::{spec_test_len, spec_train_len, train_len};
use crate::vectorize::{all_valid, classes_of, first_invalid_at, idx_of, label_seq, names_view,
    record_fields, row_fields, vectorize, FeatureRow, Record, Vectorized};
use vstd::prelude::*;

verus! {

/// A dataset partitioned for one training run: feature rows and one-hot
/// targets of the training split, the same pair for the test split, and
/// the class-name table shared by both.
#[derive(Debug)]
pub struct Prepared {
    pub class_names: Vec<String>,
    pub train_features: Vec<FeatureRow>,
    pub train_targets: Vec<Vec<u64>>,
    pub test_features: Vec<FeatureRow>,
    pub test_targets: Vec<Vec<u64>>,
}

/// Preparation succeeded exactly so: the class table holds the distinct
/// labels in first-seen order; the first `train_len` rows and their
/// one-hot targets form the training split and the remaining rows the
/// test split, in input order with pairing intact.
pub open spec fn prepare_ok(records: Seq<Record>, p: Prepared) -> bool {
    let labels = label_seq(records);
    let classes = classes_of(labels);
    let n = records.len();
    let t = spec_train_len(n);
    let k = classes.len();
    &&& names_view(p.class_names@) == classes
    &&& forall|i: int| 0 <= i < n ==> 0 <= idx_of(classes, #[trigger] labels[i]) < k
    &&& p.train_features@.len() == t
    &&& p.test_features@.len() == spec_test_len(n)
    &&& forall|i: int|
        0 <= i < t ==> row_fields(#[trigger] p.train_features@[i]) == record_fields(records[i])
    &&& forall|i: int|
        0 <= i < spec_test_len(n) ==> row_fields(#[trigger] p.test_features@[i])
            == record_fields(records[t + i])
    &&& p.train_targets@.len() == t
    &&& forall|i: int|
        0 <= i < t ==> (#[trigger] p.train_targets@[i])@ == one_hot_row(
            idx_of(classes, labels[i]),
            k,
        )
    &&& p.test_targets@.len() == spec_test_len(n)
    &&& forall|i: int|
        0 <= i < spec_test_len(n) ==> (#[trigger] p.test_targets@[i])@ == one_hot_row(
            idx_of(classes, labels[t + i]),
            k,
        )
}

/// Vectorize and encode the whole dataset, then cut it into the training
/// and test splits. Rejected inputs: the first feature field that is not
/// a real-number literal, or a dataset that leaves the test split empty.
pub fn prepare(records: &Vec<Record>) -> (r: Result<Prepared, CoreError>)
    ensures
        match r {
            Ok(p) => {
                &&& all_valid(records@)
                &&& spec_test_len(records@.len()) > 0
                &&& prepare_ok(records@, p)
            },
            Err(e) => match e {
                CoreError::ParseError { row, field } => first_invalid_at(
                    records@,
                    row as int,
                    field as int,
                ),
                CoreError::DataError => all_valid(records@) && spec_test_len(records@.len()) == 0,
            },
        },
{
    let v: Vectorized = match vectorize(records) {
        Ok(v) => v,
        Err(e) => {
            return Err(e);
        },
    };
    proof {
        let labels_s = label_seq(records@);
        let classes = classes_of(labels_s);
        assert forall|i: int| 0 <= i < records@.len() implies 0 <= idx_of(
            classes,
            #[trigger] labels_s[i],
        ) < classes.len() by {
            assert(v.labels@[i] as int == idx_of(classes, labels_s[i]));
            assert(v.labels@[i] < classes.len());
        }
    }
    let Vectorized { features, labels, class_names } = v;
    let n = features.len();
    let t = train_len(n);
    if n - t == 0 {
        return Err(CoreError::DataError);
    }
    let k = class_names.len();
    let targets = one_hot(&labels, k);
    let mut train_features = features;
    let test_features = train_features.split_off(t);
    let mut train_targets = targets;
    let test_targets = train_targets.split_off(t);
    Ok(Prepared { class_names, train_features, train_targets, test_features, test_targets })
}

/// Whatever indices the harness predicts, the actual indices decoded from
/// a prepared test split are exactly the class indices of the test rows:
/// the split and the one-hot round trip lose nothing.
pub proof fn lemma_actuals_are_test_labels(records: Seq<Record>, p: Prepared, actuals: Seq<usize>)
    requires
        prepare_ok(records, p),
        actuals.len() == p.test_targets@.len(),
        forall|i: int|
            0 <= i < actuals.len() ==> is_stable_argmax(
                (#[trigger] p.test_targets@[i])@,
                actuals[i] as int,
            ),
    ensures
        forall|i: int|
            0 <= i < actuals.len() ==> (#[trigger] actuals[i]) as int == idx_of(
                classes_of(label_seq(records)),
                label_seq(records)[spec_train_len(records.len()) + i],
            ),
{
    let labels = label_seq(records);
    let classes = classes_of(labels);
    let t = spec_train_len(records.len());
    assert forall|i: int| 0 <= i < actuals.len() implies (#[trigger] actuals[i]) as int == idx_of(
        classes,
        labels[t + i],
    ) by {
        assert(p.test_targets@[i]@ == one_hot_row(idx_of(classes, labels[t + i]), classes.len()));
        assert(is_stable_argmax(p.test_targets@[i]@, actuals[i] as int));
        crate::encode::lemma_decode_one_hot(
            idx_of(classes, labels[t + i]),
            classes.len(),
            actuals[i] as int,
        );
    }
}

/// The outcome of one training run, as the reporting boundary takes it:
/// predicted and actual class indices per test row, the match and
/// squared-error counts over them, and the ordered class names.
#[derive(Debug)]
pub struct Summary {
    pub predictions: Vec<usize>,
    pub actuals: Vec<usize>,
    pub metrics: Metrics,
    pub class_names: Vec<String>,
}

/// Decode the actual class index of every test row from its one-hot
/// target by stable argmax, and count how the predictions fare against
/// them; an empty test split has no defined accuracy and is refused.
pub fn summarize(predictions: Vec<usize>, test_targets: &Vec<Vec<u64>>, class_names: Vec<String>)
    -> (r: Result<Summary, CoreError>)
    requires
        predictions@.len() == test_targets@.len(),
        forall|i: int|
            0 <= i < test_targets@.len() ==> 0 < (#[trigger] test_targets@[i])@.len()
                <= INDEX_LIMIT,
        forall|i: int| 0 <= i < predictions@.len() ==> (#[trigger] predictions@[i]) < INDEX_LIMIT,
    ensures
        match r {
            Ok(s) => {
                &&& predictions@.len() > 0
                &&& s.predictions@ == predictions@
                &&& s.class_names@ == class_names@
                &&& s.actuals@.len() == test_targets@.len()
                &&& forall|i: int|
                    0 <= i < s.actuals@.len() ==> is_stable_argmax(
                        (#[trigger] test_targets@[i])@,
                        s.actuals@[i] as int,
                    )
                &&& s.metrics.total == predictions@.len()
                &&& s.metrics.correct == correct_count(predictions@, s.actuals@)
                &&& s.metrics.sq_err_sum == sq_err_sum(predictions@, s.actuals@)
            },
            Err(e) => e == (CoreError::DataError) && predictions@.len() == 0,
        },
{
    let actuals = decode_targets(test_targets);
    proof {
        assert forall|i: int| 0 <= i < actuals@.len() implies (#[trigger] actuals@[i])
            < INDEX_LIMIT by {
            assert(is_stable_argmax(test_targets@[i]@, actuals@[i] as int));
        }
    }
    let metrics = match evaluate(&predictions, &actuals) {
        Ok(m) => m,
        Err(e) => {
            return Err(e);
        },
    };
    Ok(Summary { predictions, actuals, metrics, class_names })
}

} // verus!
