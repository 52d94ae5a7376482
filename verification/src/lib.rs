//! A single-layer softmax classifier over tabular feature data, with its
//! discrete core verified: record validation, class-table construction,
//! one-hot encoding, train/test splitting, stable argmax decoding, and
//! the accuracy / squared-error counts of evaluation.
//!
//! Floating-point arithmetic (the forward pass and the gradient updates)
//! cannot be reasoned about here and lives in the surrounding harness; the
//! harness hands this library plain values (strings, indices, order keys)
//! and takes plain values back.
use vstd::prelude::*;

mod argmax;
mod encode;
mod errors;
mod evaluate;
mod numeral;
mod pipeline;
mod split;
mod vectorize;

pub use argmax::{is_stable_argmax, lemma_stable_argmax_unique, lemma_unambiguous_maximum,
    stable_argmax};
pub use encode::{decode_targets, lemma_decode_one_hot, lemma_decode_round_trip,
    lemma_one_hot_row_sum, one_hot, one_hot_row, row_sum};
pub use errors::CoreError;
pub use evaluate::{correct_count, evaluate, lemma_correct_count_bounds, lemma_sq_err_sum_nonneg,
    sq_err_sum, Metrics, INDEX_LIMIT};
pub use numeral::{check_float_literal, is_float_literal};
pub use pipeline::{lemma_actuals_are_test_labels, prepare, prepare_ok, summarize, Prepared,
    Summary};
pub use split::{spec_test_len, spec_train_len, train_len};
pub use vectorize::{all_valid, classes_of, first_invalid_at, idx_of, label_seq,
    lemma_classes_distinct, lemma_idx_of_first, lemma_vectorize_deterministic,
    names_view, record_fields,
    record_valid, row_fields, vectorize, vectorize_ok, FeatureRow, Record, Vectorized};

verus! {

} // verus!
