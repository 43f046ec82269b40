use vstd::prelude::*;

verus! {

/// Why a pair of raw image and label buffers could not become a dataset.
#[derive(Debug, Clone, Copy, PartialEq, Eq, Structural)]
pub enum DataError {
    /// The buffers do not hold exactly the requested number of samples
    /// of the requested dimensions.
    ShapeMismatch,
    /// A label is not a digit class (it exceeds nine).
    LabelOutOfRange,
}

/// The largest digit class.
pub const MAX_LABEL: u8 = 9;

/// Every label is a digit class.
pub open spec fn labels_are_digits(labels: Seq<u8>) -> bool {
    forall|i: int| 0 <= i < labels.len() ==> labels[i] <= MAX_LABEL
}

/// The image size `rows * cols` fits in a `usize`, and the buffers hold
/// exactly `n` images of that size and `n` labels.
pub open spec fn shape_fits(img: Seq<u8>, lbl: Seq<u8>, n: nat, rows: nat, cols: nat) -> bool {
    &&& rows * cols <= usize::MAX
    &&& img.len() == n * (rows * cols)
    &&& lbl.len() == n
}

/// Sample `i` of a row-major buffer with `d` features per sample.
pub open spec fn sample_of(pixels: Seq<u8>, d: nat, i: int) -> Seq<u8> {
    pixels.subrange(i * d, i * d + d)
}

/// Sample `i` of `n` samples of `d` features lies inside a buffer of `n * d` values.
proof fn lemma_sample_in_bounds(i: int, n: int, d: int)
    requires
        0 <= i < n,
        0 <= d,
    ensures
        0 <= i * d,
        i * d + d <= n * d,
{
    assert(0 <= i * d) by (nonlinear_arith)
        requires 0 <= i, 0 <= d;
    assert(i * d + d <= n * d) by (nonlinear_arith)
        requires i < n, 0 <= d;
}

proof fn lemma_mul_le(k: int, n: int, d: int)
    requires
        0 <= k <= n,
        0 <= d,
    ensures
        0 <= k * d <= n * d,
{
    assert(0 <= k * d <= n * d) by (nonlinear_arith)
        requires 0 <= k <= n, 0 <= d;
}

/// A labelled set of grayscale images, each flattened to `n_features` raw
/// pixel intensities (0 to 255) stored row-major, one row per sample.
pub struct Digits {
    pub n_samples: usize,
    pub n_features: usize,
    pub pixels: Vec<u8>,
    pub labels: Vec<u8>,
}

impl Digits {
    /// The sample count and feature length agree with both buffers, and every
    /// label is a digit class.
    pub open spec fn wf(&self) -> bool {
        &&& self.pixels@.len() == self.n_samples * self.n_features
        &&& self.labels@.len() == self.n_samples
        &&& labels_are_digits(self.labels@)
    }

    /// The feature vectors, one per sample, in order.
    pub open spec fn rows(&self) -> Seq<Seq<u8>> {
        Seq::new(self.n_samples as nat, |i: int| sample_of(self.pixels@, self.n_features as nat, i))
    }

    /// Packages the flat buffers that the corpus hands out as `n` samples of
    /// `rows` by `cols` pixels. Fails with `ShapeMismatch` unless the image
    /// buffer holds exactly `n * rows * cols` intensities and the label buffer
    /// exactly `n` labels; then with `LabelOutOfRange` if a label exceeds nine.
    pub fn from_buffers(img: Vec<u8>, lbl: Vec<u8>, n: usize, rows: usize, cols: usize) -> (r: Result<Digits, DataError>)
        ensures
            r is Ok <==> shape_fits(img@, lbl@, n as nat, rows as nat, cols as nat) && labels_are_digits(lbl@),
            (r matches Err(DataError::ShapeMismatch)) <==> !shape_fits(img@, lbl@, n as nat, rows as nat, cols as nat),
            (r matches Err(DataError::LabelOutOfRange)) <==> shape_fits(img@, lbl@, n as nat, rows as nat, cols as nat) && !labels_are_digits(lbl@),
            r matches Ok(ds) ==> {
                &&& ds.wf()
                &&& ds.rows().len() == n
                &&& forall|i: int| 0 <= i < n ==> (#[trigger] ds.rows()[i]).len() == rows * cols
                &&& ds.labels@.len() == n
                &&& labels_are_digits(ds.labels@)
                &&& ds.n_samples == n
                &&& ds.n_features == rows * cols
                &&& ds.pixels@ == img@
                &&& ds.labels@ == lbl@
            },
    {
        let n_img = img.len();
        let d = match rows.checked_mul(cols) {
            Some(d) => d,
            None => return Err(DataError::ShapeMismatch),
        };
        let total = match n.checked_mul(d) {
            Some(t) => t,
            None => return Err(DataError::ShapeMismatch),
        };
        if n_img != total || lbl.len() != n {
            return Err(DataError::ShapeMismatch);
        }
        let mut i: usize = 0;
        while i < lbl.len()
            invariant
                i <= lbl@.len(),
                shape_fits(img@, lbl@, n as nat, rows as nat, cols as nat),
                d == rows * cols,
                forall|j: int| 0 <= j < i ==> lbl@[j] <= MAX_LABEL,
            decreases lbl@.len() - i,
        {
            if lbl[i] > MAX_LABEL {
                assert(lbl@[i as int] > MAX_LABEL);
                return Err(DataError::LabelOutOfRange);
            }
            i = i + 1;
        }
        let ds = Digits { n_samples: n, n_features: d, pixels: img, labels: lbl };
        proof {
            ds.lemma_rows_shape();
        }
        Ok(ds)
    }

    /// Each of the `n_samples` rows of a well-formed set holds `n_features` values.
    pub proof fn lemma_rows_shape(&self)
        requires
            self.wf(),
        ensures
            self.rows().len() == self.n_samples,
            forall|i: int| 0 <= i < self.n_samples ==> (#[trigger] self.rows()[i]).len() == self.n_features,
    {
        assert forall|i: int| 0 <= i < self.n_samples implies (#[trigger] self.rows()[i]).len() == self.n_features by {
            lemma_sample_in_bounds(i, self.n_samples as int, self.n_features as int);
        }
    }

    /// The value of feature `j` of sample `i`.
    pub fn pixel(&self, i: usize, j: usize) -> (r: u8)
        requires
            self.wf(),
            i < self.n_samples,
            j < self.n_features,
        ensures
            r == self.rows()[i as int][j as int],
    {
        // The buffer length bounds the index arithmetic below.
        let _len = self.pixels.len();
        proof {
            lemma_sample_in_bounds(i as int, self.n_samples as int, self.n_features as int);
        }
        self.pixels[i * self.n_features + j]
    }

    /// The label of sample `i`.
    pub fn label(&self, i: usize) -> (r: u8)
        requires
            self.wf(),
            i < self.n_samples,
        ensures
            r == self.labels@[i as int],
            r <= MAX_LABEL,
    {
        self.labels[i]
    }

    /// A copy of the feature vector of sample `i`.
    pub fn sample(&self, i: usize) -> (r: Vec<u8>)
        requires
            self.wf(),
            i < self.n_samples,
        ensures
            r@ == self.rows()[i as int],
    {
        // The buffer length bounds the index arithmetic below.
        let _len = self.pixels.len();
        proof {
            lemma_sample_in_bounds(i as int, self.n_samples as int, self.n_features as int);
        }
        let start = i * self.n_features;
        let mut r: Vec<u8> = Vec::new();
        let mut j: usize = 0;
        while j < self.n_features
            invariant
                self.wf(),
                start == i * self.n_features,
                start + self.n_features <= self.pixels@.len(),
                self.pixels@.len() <= usize::MAX,
                j <= self.n_features,
                r@ == self.pixels@.subrange(start as int, start + j),
            decreases self.n_features - j,
        {
            r.push(self.pixels[start + j]);
            j = j + 1;
            proof {
                assert(r@ =~= self.pixels@.subrange(start as int, start + j));
            }
        }
        r
    }

    /// Splits off the first `k` samples as a training set; the rest form the
    /// validation set. The two are disjoint and, in order, make up the whole.
    pub fn split(self, k: usize) -> (r: (Digits, Digits))
        requires
            self.wf(),
            k <= self.n_samples,
        ensures
            r.0.wf(),
            r.1.wf(),
            r.0.n_features == self.n_features,
            r.1.n_features == self.n_features,
            r.0.n_samples == k,
            r.1.n_samples == self.n_samples - k,
            r.0.rows() == self.rows().subrange(0, k as int),
            r.1.rows() == self.rows().subrange(k as int, self.n_samples as int),
            r.0.labels@ == self.labels@.subrange(0, k as int),
            r.1.labels@ == self.labels@.subrange(k as int, self.n_samples as int),
            r.0.rows() + r.1.rows() == self.rows(),
            r.0.labels@ + r.1.labels@ == self.labels@,
    {
        let n = self.n_samples;
        let d = self.n_features;
        let ghost old_rows = self.rows();
        let ghost old_pixels = self.pixels@;
        let ghost old_labels = self.labels@;
        proof {
            lemma_mul_le(k as int, n as int, d as int);
        }
        let mut pixels = self.pixels;
        let mut labels = self.labels;
        // The buffer length bounds the split point.
        let _len = pixels.len();
        let rest_pixels = pixels.split_off(k * d);
        let rest_labels = labels.split_off(k);
        let first = Digits { n_samples: k, n_features: d, pixels, labels };
        let second = Digits { n_samples: n - k, n_features: d, pixels: rest_pixels, labels: rest_labels };
        proof {
            lemma_mul_le(k as int, n as int, d as int);
            assert((n - k) * d == n * d - k * d) by (nonlinear_arith);
            assert forall|i: int| 0 <= i < k implies #[trigger] first.rows()[i] == old_rows[i] by {
                lemma_sample_in_bounds(i, k as int, d as int);
                assert(first.rows()[i] =~= old_rows[i]);
            }
            assert forall|i: int| 0 <= i < n - k implies #[trigger] second.rows()[i] == old_rows[k + i] by {
                lemma_sample_in_bounds(i, (n - k) as int, d as int);
                assert((k + i) * d == k * d + i * d) by (nonlinear_arith);
                assert(second.rows()[i] =~= old_rows[k + i]);
            }
            assert(first.rows() =~= old_rows.subrange(0, k as int));
            assert(second.rows() =~= old_rows.subrange(k as int, n as int));
            assert(first.rows() + second.rows() =~= old_rows);
            assert(first.labels@ + second.labels@ =~= old_labels);
        }
        (first, second)
    }
}

} // verus!
