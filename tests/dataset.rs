use mnist_embed::dataset::{DataError, Digits};

fn three_images() -> (Vec<u8>, Vec<u8>) {
    let img: Vec<u8> = (0u8..12).map(|v| v * 20).collect();
    (img, vec![0, 9, 5])
}

#[test]
fn loads_requested_shape() {
    let (img, lbl) = three_images();
    let ds = Digits::from_buffers(img.clone(), lbl, 3, 2, 2).unwrap();
    assert_eq!(ds.n_samples, 3);
    assert_eq!(ds.n_features, 4);
    assert_eq!(ds.sample(0), vec![0, 20, 40, 60]);
    assert_eq!(ds.sample(1), vec![80, 100, 120, 140]);
    assert_eq!(ds.pixel(2, 3), 220);
    assert_eq!(ds.label(1), 9);
    assert_eq!(ds.labels, vec![0, 9, 5]);
    assert_eq!(ds.pixels, img);
}

#[test]
fn short_image_buffer_is_shape_mismatch() {
    let (mut img, lbl) = three_images();
    img.pop();
    assert_eq!(Digits::from_buffers(img, lbl, 3, 2, 2).err(), Some(DataError::ShapeMismatch));
}

#[test]
fn label_count_mismatch_is_shape_mismatch() {
    let (img, _) = three_images();
    assert_eq!(Digits::from_buffers(img, vec![1, 2], 3, 2, 2).err(), Some(DataError::ShapeMismatch));
}

#[test]
fn fewer_samples_than_requested_is_shape_mismatch() {
    let (img, lbl) = three_images();
    assert_eq!(Digits::from_buffers(img, lbl, 4, 2, 2).err(), Some(DataError::ShapeMismatch));
}

#[test]
fn overflowing_image_size_is_shape_mismatch() {
    assert_eq!(
        Digits::from_buffers(vec![], vec![], 0, usize::MAX, 2).err(),
        Some(DataError::ShapeMismatch)
    );
}

#[test]
fn label_above_nine_is_rejected() {
    let (img, _) = three_images();
    assert_eq!(Digits::from_buffers(img, vec![0, 10, 5], 3, 2, 2).err(), Some(DataError::LabelOutOfRange));
}

#[test]
fn shape_is_checked_before_labels() {
    assert_eq!(Digits::from_buffers(vec![1, 2, 3], vec![10], 1, 2, 2).err(), Some(DataError::ShapeMismatch));
}

#[test]
fn empty_set_loads() {
    let ds = Digits::from_buffers(vec![], vec![], 0, 28, 28).unwrap();
    assert_eq!(ds.n_samples, 0);
    assert_eq!(ds.n_features, 784);
}

#[test]
fn every_label_of_a_load_is_a_digit() {
    let img = vec![7u8; 10 * 4];
    let lbl: Vec<u8> = (0u8..10).collect();
    let ds = Digits::from_buffers(img, lbl, 10, 2, 2).unwrap();
    for i in 0..ds.n_samples {
        assert!(ds.label(i) <= 9);
        assert_eq!(ds.sample(i).len(), 4);
    }
}

#[test]
fn split_partitions_in_order() {
    let (img, lbl) = three_images();
    let ds = Digits::from_buffers(img, lbl, 3, 2, 2).unwrap();
    let (trn, val) = ds.split(2);
    assert_eq!(trn.n_samples, 2);
    assert_eq!(val.n_samples, 1);
    assert_eq!(trn.labels, vec![0, 9]);
    assert_eq!(val.labels, vec![5]);
    assert_eq!(trn.sample(1), vec![80, 100, 120, 140]);
    assert_eq!(val.sample(0), vec![160, 180, 200, 220]);
}

#[test]
fn split_at_ends() {
    let (img, lbl) = three_images();
    let ds = Digits::from_buffers(img, lbl, 3, 2, 2).unwrap();
    let (trn, val) = ds.split(3);
    assert_eq!(trn.n_samples, 3);
    assert_eq!(val.n_samples, 0);
    assert!(val.pixels.is_empty());
}

#[test]
fn scaled_intensities_lie_in_unit_interval() {
    let img: Vec<u8> = vec![0, 1, 128, 255];
    let ds = Digits::from_buffers(img, vec![3], 1, 2, 2).unwrap();
    for j in 0..ds.n_features {
        let p = ds.pixel(0, j);
        let v = (p as f64) / 255.;
        assert!((0.0..=1.0).contains(&v));
        assert_eq!(v * 255., p as f64);
    }
}
