use vstd::prelude::*;

verus! {

/// The integer parameters of the embedding pipeline.
#[derive(Debug, Clone, Copy, PartialEq, Eq, Structural)]
pub struct PipelineConfig {
    /// Number of training images to load.
    pub trn_size: usize,
    /// Number of test images to load.
    pub tst_size: usize,
    /// Image height in pixels.
    pub rows: usize,
    /// Image width in pixels.
    pub cols: usize,
    /// Number of principal components kept (unwhitened).
    pub pca_components: usize,
    /// Dimension of the t-SNE embedding.
    pub embedding_size: usize,
    /// Iteration bound of the t-SNE gradient descent.
    pub max_iter: usize,
}

impl PipelineConfig {
    /// The parameters of the reference run: 5000 training and 100 test
    /// images of 28 by 28 pixels, 50 principal components, and a
    /// two-dimensional embedding after at most 1000 iterations.
    pub fn default_config() -> (r: PipelineConfig)
        ensures
            r.trn_size == 5000,
            r.tst_size == 100,
            r.rows == 28,
            r.cols == 28,
            r.pca_components == 50,
            r.embedding_size == 2,
            r.max_iter == 1000,
    {
        PipelineConfig {
            trn_size: 5000,
            tst_size: 100,
            rows: 28,
            cols: 28,
            pca_components: 50,
            embedding_size: 2,
            max_iter: 1000,
        }
    }
}

} // verus!
