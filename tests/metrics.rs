use mnist_embed::metrics::{ConfusionMatrix, MetricError};

#[test]
fn confusion_counts_pairs() {
    let actual = vec![0, 1, 2, 2, 1, 0];
    let predicted = vec![0, 2, 2, 1, 1, 0];
    let m = ConfusionMatrix::new(&actual, &predicted, 3).unwrap();
    assert_eq!(m.count(0, 0), 2);
    assert_eq!(m.count(1, 1), 1);
    assert_eq!(m.count(1, 2), 1);
    assert_eq!(m.count(2, 1), 1);
    assert_eq!(m.count(2, 2), 1);
    assert_eq!(m.count(0, 1), 0);
    assert_eq!(m.total(), 6);
    assert_eq!(m.trace(), 4);
}

#[test]
fn trace_over_total_is_accuracy() {
    let actual = vec![3, 1, 4, 1, 5, 9, 2, 6];
    let predicted = vec![3, 1, 4, 0, 5, 9, 2, 5];
    let m = ConfusionMatrix::new(&actual, &predicted, 10).unwrap();
    let (correct, total) = m.accuracy_ratio();
    assert_eq!((correct, total), (6, 8));
    let direct = actual.iter().zip(&predicted).filter(|(a, p)| a == p).count() as f64 / actual.len() as f64;
    assert!((correct as f64 / total as f64 - direct).abs() < 1e-9);
    assert!((m.trace() as f64 / m.total() as f64 - 0.75).abs() < 1e-9);
}

#[test]
fn empty_confusion_matrix() {
    let m = ConfusionMatrix::new(&vec![], &vec![], 2).unwrap();
    assert_eq!(m.trace(), 0);
    assert_eq!(m.total(), 0);
    assert_eq!(m.count(1, 0), 0);
}

#[test]
fn length_mismatch_is_rejected() {
    assert!(matches!(ConfusionMatrix::new(&vec![0, 1], &vec![0], 2), Err(MetricError::LengthMismatch)));
}

#[test]
fn label_beyond_classes_is_rejected() {
    assert!(matches!(ConfusionMatrix::new(&vec![0, 1], &vec![0, 2], 2), Err(MetricError::LabelOutOfRange)));
    assert!(matches!(ConfusionMatrix::new(&vec![3, 1], &vec![0, 1], 2), Err(MetricError::LabelOutOfRange)));
}
