use rice_classifier::{
    decode_targets, evaluate, one_hot, prepare, stable_argmax, summarize, train_len, vectorize,
    CoreError, Record,
};

fn rec(solidity: &str, aspect_ratio: &str, roundness: &str, compactness: &str, label: &str) -> Record {
    Record {
        solidity: solidity.to_string(),
        aspect_ratio: aspect_ratio.to_string(),
        roundness: roundness.to_string(),
        compactness: compactness.to_string(),
        label: label.to_string(),
    }
}

#[test]
fn class_table_first_seen_order() {
    let records = vec![
        rec("1", "2", "3", "4", "b"),
        rec("5", "6", "7", "8", "a"),
        rec("9", "1", "2", "3", "b"),
        rec("4", "5", "6", "7", "c"),
    ];
    let v = vectorize(&records).unwrap();
    assert_eq!(v.class_names, vec!["b".to_string(), "a".to_string(), "c".to_string()]);
    assert_eq!(v.labels, vec![0, 1, 0, 2]);
    assert_eq!(v.features.len(), 4);
    assert_eq!(v.features[2].solidity, "9");
    assert_eq!(v.features[2].compactness, "3");
}

#[test]
fn vectorize_is_deterministic() {
    let mk = || {
        vec![
            rec("0.5", "1e2", "-3", ".25", "x"),
            rec("inf", "2", "3", "4", "y"),
            rec("0.5", "1e2", "-3", ".25", "x"),
        ]
    };
    let a = vectorize(&mk()).unwrap();
    let b = vectorize(&mk()).unwrap();
    assert_eq!(a.labels, b.labels);
    assert_eq!(a.class_names, b.class_names);
    assert_eq!(a.features.len(), b.features.len());
    for (ra, rb) in a.features.iter().zip(b.features.iter()) {
        assert_eq!(ra.solidity, rb.solidity);
        assert_eq!(ra.aspect_ratio, rb.aspect_ratio);
        assert_eq!(ra.roundness, rb.roundness);
        assert_eq!(ra.compactness, rb.compactness);
    }
}

#[test]
fn vectorize_reports_first_bad_field() {
    let records = vec![
        rec("1", "2", "3", "4", "a"),
        rec("5", "6", "oops", "4x", "b"),
        rec("bad", "2", "3", "4", "a"),
    ];
    match vectorize(&records) {
        Err(CoreError::ParseError { row, field }) => {
            assert_eq!(row, 1);
            assert_eq!(field, 2);
        },
        other => panic!("expected a parse error, got {:?}", other),
    }
}

#[test]
fn one_hot_rows_sum_to_one() {
    let labels = vec![0usize, 2, 1, 2];
    let rows = one_hot(&labels, 3);
    assert_eq!(rows.len(), 4);
    for (i, row) in rows.iter().enumerate() {
        assert_eq!(row.len(), 3);
        assert_eq!(row.iter().sum::<u64>(), 1);
        assert_eq!(row[labels[i]], 1);
        for (j, &x) in row.iter().enumerate() {
            if j != labels[i] {
                assert_eq!(x, 0);
            }
        }
    }
}

#[test]
fn decode_inverts_one_hot() {
    let labels = vec![3usize, 0, 2, 2, 1];
    let rows = one_hot(&labels, 4);
    assert_eq!(decode_targets(&rows), labels);
}

#[test]
fn argmax_takes_first_of_ties() {
    assert_eq!(stable_argmax(&vec![1, 3, 3, 2]), 1);
    assert_eq!(stable_argmax(&vec![7, 7, 7]), 0);
    assert_eq!(stable_argmax(&vec![5]), 0);
    assert_eq!(stable_argmax(&vec![0, 0, 9, 0]), 2);
}

#[test]
fn split_keeps_four_in_five() {
    assert_eq!(train_len(10), 8);
    assert_eq!(train_len(5), 4);
    assert_eq!(train_len(9), 8);
    assert_eq!(train_len(4), 4);
    assert_eq!(train_len(0), 0);
}

#[test]
fn evaluate_counts_matches_and_squared_error() {
    let predictions = vec![0usize, 1, 2, 1];
    let actuals = vec![0usize, 2, 2, 3];
    let m = evaluate(&predictions, &actuals).unwrap();
    assert_eq!(m.total, 4);
    assert_eq!(m.correct, 2);
    assert_eq!(m.sq_err_sum, 1 + 4);
    let accuracy = m.correct as f64 / m.total as f64;
    let mse = m.sq_err_sum as f64 / m.total as f64;
    assert!((0.0..=1.0).contains(&accuracy));
    assert!(mse >= 0.0);
    assert_eq!(accuracy, 0.5);
    assert_eq!(mse, 1.25);
}

#[test]
fn evaluate_refuses_empty_split() {
    let empty: Vec<usize> = Vec::new();
    assert_eq!(evaluate(&empty, &empty), Err(CoreError::DataError));
}

#[test]
fn summarize_decodes_actuals() {
    let labels = vec![1usize, 0, 1];
    let targets = one_hot(&labels, 2);
    let s = summarize(vec![1, 1, 1], &targets, vec!["a".to_string(), "b".to_string()]).unwrap();
    assert_eq!(s.actuals, labels);
    assert_eq!(s.predictions, vec![1, 1, 1]);
    assert_eq!(s.metrics.total, 3);
    assert_eq!(s.metrics.correct, 2);
    assert_eq!(s.metrics.sq_err_sum, 1);
    assert_eq!(s.class_names, vec!["a".to_string(), "b".to_string()]);
}

#[test]
fn summarize_refuses_empty_split() {
    let targets: Vec<Vec<u64>> = Vec::new();
    let names = vec!["a".to_string()];
    assert!(matches!(summarize(Vec::new(), &targets, names), Err(CoreError::DataError)));
}

#[test]
fn prepare_splits_without_breaking_pairing() {
    let mut records = Vec::new();
    for i in 0..10 {
        let label = if i % 2 == 0 { "even" } else { "odd" };
        records.push(rec(&format!("0.{}", i), "1", "2", "3", label));
    }
    let p = prepare(&records).unwrap();
    assert_eq!(p.class_names, vec!["even".to_string(), "odd".to_string()]);
    assert_eq!(p.train_features.len(), 8);
    assert_eq!(p.test_features.len(), 2);
    assert_eq!(p.train_targets.len(), 8);
    assert_eq!(p.test_targets.len(), 2);
    assert_eq!(p.test_features[0].solidity, "0.8");
    assert_eq!(p.test_features[1].solidity, "0.9");
    assert_eq!(p.test_targets[0], vec![1, 0]);
    assert_eq!(p.test_targets[1], vec![0, 1]);
    for (i, row) in p.train_targets.iter().enumerate() {
        let expect = if i % 2 == 0 { vec![1u64, 0] } else { vec![0u64, 1] };
        assert_eq!(*row, expect);
    }
}

#[test]
fn prepare_refuses_tiny_datasets() {
    assert!(matches!(prepare(&Vec::new()), Err(CoreError::DataError)));
    let four = vec![
        rec("1", "2", "3", "4", "a"),
        rec("1", "2", "3", "4", "a"),
        rec("1", "2", "3", "4", "b"),
        rec("1", "2", "3", "4", "b"),
    ];
    assert!(matches!(prepare(&four), Err(CoreError::DataError)));
}

#[test]
fn prepare_propagates_parse_errors() {
    let mut records = Vec::new();
    for _ in 0..6 {
        records.push(rec("1", "2", "3", "4", "a"));
    }
    records.push(rec("1", "not-a-number", "3", "4", "a"));
    assert!(matches!(
        prepare(&records),
        Err(CoreError::ParseError { row: 6, field: 1 })
    ));
}
