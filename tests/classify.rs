use mnist_embed::classify::{distinct_labels, one_vs_all_targets, FitError};

#[test]
fn targets_mark_the_class() {
    let labels = vec![0, 1, 0, 2, 1];
    assert_eq!(one_vs_all_targets(&labels, 1), Ok(vec![false, true, false, false, true]));
    assert_eq!(one_vs_all_targets(&labels, 2), Ok(vec![false, false, false, true, false]));
}

#[test]
fn absent_class_has_no_positive() {
    assert_eq!(one_vs_all_targets(&vec![0, 1, 0], 4), Err(FitError::NoPositive));
    assert_eq!(one_vs_all_targets(&vec![], 0), Err(FitError::NoPositive));
}

#[test]
fn single_class_has_no_negative() {
    assert_eq!(one_vs_all_targets(&vec![3, 3, 3], 3), Err(FitError::NoNegative));
}

#[test]
fn distinct_labels_ascend() {
    assert_eq!(distinct_labels(&vec![7, 1, 7, 0, 9, 1]), vec![0, 1, 7, 9]);
    assert_eq!(distinct_labels(&vec![]), Vec::<u8>::new());
    assert_eq!(distinct_labels(&vec![255, 0]), vec![0, 255]);
}
