use mnist_embed::config::PipelineConfig;

#[test]
fn reference_defaults() {
    let c = PipelineConfig::default_config();
    assert_eq!(c.trn_size, 5000);
    assert_eq!(c.tst_size, 100);
    assert_eq!((c.rows, c.cols), (28, 28));
    assert_eq!(c.pca_components, 50);
    assert_eq!(c.embedding_size, 2);
    assert_eq!(c.max_iter, 1000);
}
