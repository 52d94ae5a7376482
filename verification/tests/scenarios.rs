use rice_classifier::{prepare, stable_argmax, summarize, FeatureRow, Record};

fn rec(features: [f64; 4], label: &str) -> Record {
    Record {
        solidity: format!("{}", features[0]),
        aspect_ratio: format!("{}", features[1]),
        roundness: format!("{}", features[2]),
        compactness: format!("{}", features[3]),
        label: label.to_string(),
    }
}

fn parse_row(row: &FeatureRow) -> [f64; 4] {
    [
        row.solidity.parse().unwrap(),
        row.aspect_ratio.parse().unwrap(),
        row.roundness.parse().unwrap(),
        row.compactness.parse().unwrap(),
    ]
}

fn softmax(x: &[f64]) -> Vec<f64> {
    let max = x.iter().cloned().fold(f64::NEG_INFINITY, f64::max);
    let exps: Vec<f64> = x.iter().map(|v| (v - max).exp()).collect();
    let sum: f64 = exps.iter().sum();
    exps.iter().map(|e| e / sum).collect()
}

fn forward(w: &[Vec<f64>], b: &[f64], x: &[f64; 4]) -> Vec<f64> {
    let k = b.len();
    let mut logits = b.to_vec();
    for (i, xi) in x.iter().enumerate() {
        for j in 0..k {
            logits[j] += xi * w[i][j];
        }
    }
    softmax(&logits)
}

fn train_step(w: &mut [Vec<f64>], b: &mut [f64], lr: f64, x: &[f64; 4], target: &[f64]) {
    let y = forward(w, b, x);
    let k = b.len();
    for j in 0..k {
        let e = y[j] - target[j];
        let g = y[j] * (1.0 - y[j]) * e;
        for (i, xi) in x.iter().enumerate() {
            w[i][j] -= lr * xi * g;
        }
        b[j] -= lr * g;
    }
}

fn predict(w: &[Vec<f64>], b: &[f64], x: &[f64; 4]) -> usize {
    let probs = forward(w, b, x);
    let keys: Vec<u64> = probs.iter().map(|p| p.to_bits()).collect();
    stable_argmax(&keys)
}

#[test]
fn separable_classes_reach_full_accuracy() {
    let mut records = Vec::new();
    for i in 0..5 {
        let small = 0.05 + 0.02 * i as f64;
        let large = 0.75 + 0.02 * i as f64;
        records.push(rec([small, 0.5, 0.5, 0.5], "low"));
        records.push(rec([large, 0.5, 0.5, 0.5], "high"));
    }
    let p = prepare(&records).unwrap();
    assert_eq!(p.train_features.len(), 8);
    assert_eq!(p.test_features.len(), 2);

    let k = p.class_names.len();
    assert_eq!(k, 2);
    let mut w: Vec<Vec<f64>> = (0..4)
        .map(|i| (0..k).map(|j| 0.01 * (i * k + j + 1) as f64).collect())
        .collect();
    let mut b = vec![0.0; k];
    let lr = 0.1;
    for _ in 0..500 {
        for (row, target) in p.train_features.iter().zip(p.train_targets.iter()) {
            let x = parse_row(row);
            let t: Vec<f64> = target.iter().map(|&v| v as f64).collect();
            train_step(&mut w, &mut b, lr, &x, &t);
        }
    }

    let predictions: Vec<usize> = p
        .test_features
        .iter()
        .map(|row| predict(&w, &b, &parse_row(row)))
        .collect();
    let s = summarize(predictions, &p.test_targets, p.class_names).unwrap();
    assert_eq!(s.metrics.total, 2);
    assert_eq!(s.metrics.correct, 2);
    let accuracy = s.metrics.correct as f64 / s.metrics.total as f64;
    assert_eq!(accuracy, 1.0);
    assert_eq!(s.metrics.sq_err_sum, 0);
}

#[test]
fn single_class_dataset_is_trivially_right() {
    let mut records = Vec::new();
    for i in 0..6 {
        records.push(rec([0.1 * i as f64, 0.2, 0.3, 0.4], "only"));
    }
    let p = prepare(&records).unwrap();
    assert_eq!(p.class_names, vec!["only".to_string()]);
    for row in p.train_targets.iter().chain(p.test_targets.iter()) {
        assert_eq!(*row, vec![1u64]);
    }
    let predictions = vec![0usize; p.test_targets.len()];
    let s = summarize(predictions, &p.test_targets, p.class_names).unwrap();
    assert_eq!(s.metrics.correct, s.metrics.total);
    assert_eq!(s.metrics.sq_err_sum, 0);
    let accuracy = s.metrics.correct as f64 / s.metrics.total as f64;
    assert_eq!(accuracy, 1.0);
}

#[test]
fn malformed_row_aborts_ingestion() {
    let mut records = Vec::new();
    for i in 0..5 {
        records.push(rec([0.1 * i as f64, 0.2, 0.3, 0.4], "a"));
    }
    records.push(Record {
        solidity: "0.5".to_string(),
        aspect_ratio: "0.6".to_string(),
        roundness: "round".to_string(),
        compactness: "0.8".to_string(),
        label: "b".to_string(),
    });
    assert!(prepare(&records).is_err());
    assert!(rice_classifier::vectorize(&records).is_err());
}
