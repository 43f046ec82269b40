use vstd::prelude::*;

verus! {

/// Why a confusion matrix could not be built.
#[derive(Debug, Clone, Copy, PartialEq, Eq, Structural)]
pub enum MetricError {
    /// The actual and predicted label lists differ in length.
    LengthMismatch,
    /// A label is not below the number of classes.
    LabelOutOfRange,
}

/// How many of the first `k` samples have actual label `a` and predicted label `p`.
pub open spec fn pair_count(actual: Seq<u8>, predicted: Seq<u8>, a: int, p: int, k: int) -> nat
    decreases k,
{
    if k <= 0 {
        0
    } else {
        pair_count(actual, predicted, a, p, k - 1) + if actual[k - 1] == a && predicted[k - 1] == p {
            1nat
        } else {
            0nat
        }
    }
}

/// How many of the first `k` samples are predicted correctly.
pub open spec fn match_count(actual: Seq<u8>, predicted: Seq<u8>, k: int) -> nat
    decreases k,
{
    if k <= 0 {
        0
    } else {
        match_count(actual, predicted, k - 1) + if actual[k - 1] == predicted[k - 1] {
            1nat
        } else {
            0nat
        }
    }
}

/// The sum of the first `c` diagonal cells of the confusion matrix over the
/// first `k` samples.
pub open spec fn diag_sum(actual: Seq<u8>, predicted: Seq<u8>, c: int, k: int) -> nat
    decreases c,
{
    if c <= 0 {
        0
    } else {
        diag_sum(actual, predicted, c - 1, k) + pair_count(actual, predicted, c - 1, c - 1, k)
    }
}

/// How many classes below `c` equal both the actual and the predicted label of sample `i`.
pub open spec fn diag_hits(actual: Seq<u8>, predicted: Seq<u8>, c: int, i: int) -> nat
    decreases c,
{
    if c <= 0 {
        0
    } else {
        diag_hits(actual, predicted, c - 1, i) + if actual[i] == c - 1 && predicted[i] == c - 1 {
            1nat
        } else {
            0nat
        }
    }
}

/// Every label is below `n`.
pub open spec fn labels_below(labels: Seq<u8>, n: nat) -> bool {
    forall|i: int| 0 <= i < labels.len() ==> labels[i] < n
}

proof fn lemma_diag_hits(actual: Seq<u8>, predicted: Seq<u8>, c: int, i: int)
    requires
        0 <= i < actual.len(),
        i < predicted.len(),
    ensures
        diag_hits(actual, predicted, c, i) == if actual[i] == predicted[i] && actual[i] < c {
            1nat
        } else {
            0nat
        },
    decreases c,
{
    if c > 0 {
        lemma_diag_hits(actual, predicted, c - 1, i);
    }
}

proof fn lemma_diag_sum_step(actual: Seq<u8>, predicted: Seq<u8>, c: int, k: int)
    requires
        k > 0,
    ensures
        diag_sum(actual, predicted, c, k) == diag_sum(actual, predicted, c, k - 1) + diag_hits(actual, predicted, c, k - 1),
    decreases c,
{
    if c > 0 {
        lemma_diag_sum_step(actual, predicted, c - 1, k);
    }
}

proof fn lemma_diag_sum_monotone(actual: Seq<u8>, predicted: Seq<u8>, c: int, d: int, k: int)
    requires
        c <= d,
    ensures
        diag_sum(actual, predicted, c, k) <= diag_sum(actual, predicted, d, k),
    decreases d - c,
{
    if c < d {
        lemma_diag_sum_monotone(actual, predicted, c, d - 1, k);
    }
}

proof fn lemma_match_count_bound(actual: Seq<u8>, predicted: Seq<u8>, k: int)
    requires
        k >= 0,
    ensures
        match_count(actual, predicted, k) <= k,
    decreases k,
{
    if k > 0 {
        lemma_match_count_bound(actual, predicted, k - 1);
    }
}

proof fn lemma_pair_count_bound(actual: Seq<u8>, predicted: Seq<u8>, a: int, p: int, k: int)
    requires
        k >= 0,
    ensures
        pair_count(actual, predicted, a, p, k) <= k,
    decreases k,
{
    if k > 0 {
        lemma_pair_count_bound(actual, predicted, a, p, k - 1);
    }
}

/// The diagonal of the confusion matrix over `n` classes sums to the number
/// of correctly predicted samples, when every label is below `n`: the trace
/// divided by the sample count is the accuracy.
pub proof fn lemma_trace_is_correct_count(actual: Seq<u8>, predicted: Seq<u8>, n: nat)
    requires
        actual.len() == predicted.len(),
        labels_below(actual, n),
        labels_below(predicted, n),
    ensures
        diag_sum(actual, predicted, n as int, actual.len() as int) == match_count(actual, predicted, actual.len() as int),
{
    lemma_trace_prefix(actual, predicted, n, actual.len() as int);
}

proof fn lemma_trace_prefix(actual: Seq<u8>, predicted: Seq<u8>, n: nat, k: int)
    requires
        actual.len() == predicted.len(),
        0 <= k <= actual.len(),
        labels_below(actual, n),
    ensures
        diag_sum(actual, predicted, n as int, k) == match_count(actual, predicted, k),
    decreases k,
{
    if k == 0 {
        lemma_diag_sum_zero(actual, predicted, n as int);
    } else {
        lemma_trace_prefix(actual, predicted, n, k - 1);
        lemma_diag_sum_step(actual, predicted, n as int, k);
        lemma_diag_hits(actual, predicted, n as int, k - 1);
    }
}

proof fn lemma_diag_sum_zero(actual: Seq<u8>, predicted: Seq<u8>, c: int)
    ensures
        diag_sum(actual, predicted, c, 0) == 0,
    decreases c,
{
    if c > 0 {
        lemma_diag_sum_zero(actual, predicted, c - 1);
    }
}

/// Counts the samples whose actual label is `a` and predicted label is `p`.
fn count_pair(actual: &Vec<u8>, predicted: &Vec<u8>, a: usize, p: usize) -> (r: usize)
    requires
        actual@.len() == predicted@.len(),
    ensures
        r == pair_count(actual@, predicted@, a as int, p as int, actual@.len() as int),
{
    let mut r: usize = 0;
    let mut i: usize = 0;
    while i < actual.len()
        invariant
            actual@.len() == predicted@.len(),
            i <= actual@.len(),
            r == pair_count(actual@, predicted@, a as int, p as int, i as int),
        decreases actual@.len() - i,
    {
        proof {
            lemma_pair_count_bound(actual@, predicted@, a as int, p as int, i as int);
        }
        if actual[i] as usize == a && predicted[i] as usize == p {
            r = r + 1;
        }
        i = i + 1;
    }
    r
}

/// Whether every label is below `n`.
fn all_below(labels: &Vec<u8>, n: usize) -> (r: bool)
    ensures
        r == labels_below(labels@, n as nat),
{
    let mut i: usize = 0;
    while i < labels.len()
        invariant
            i <= labels@.len(),
            forall|j: int| 0 <= j < i ==> labels@[j] < n,
        decreases labels@.len() - i,
    {
        if labels[i] as usize >= n {
            assert(labels@[i as int] >= n);
            return false;
        }
        i = i + 1;
    }
    true
}

/// Counts of actual-versus-predicted label pairs over a validation set:
/// `cells[a][p]` is the number of samples of actual class `a` predicted as `p`.
pub struct ConfusionMatrix {
    pub n_classes: usize,
    pub cells: Vec<Vec<usize>>,
    pub n_samples: usize,
    pub actual: Ghost<Seq<u8>>,
    pub predicted: Ghost<Seq<u8>>,
}

impl ConfusionMatrix {
    /// The matrix is square over `n_classes` and each cell counts its pair
    /// over the labels it was built from.
    pub open spec fn wf(&self) -> bool {
        &&& self.actual@.len() == self.n_samples
        &&& self.predicted@.len() == self.n_samples
        &&& labels_below(self.actual@, self.n_classes as nat)
        &&& labels_below(self.predicted@, self.n_classes as nat)
        &&& self.cells@.len() == self.n_classes
        &&& forall|a: int| 0 <= a < self.n_classes ==> #[trigger] self.cells@[a]@.len() == self.n_classes
        &&& forall|a: int, p: int| 0 <= a < self.n_classes && 0 <= p < self.n_classes ==>
            #[trigger] self.cells@[a]@[p] == pair_count(self.actual@, self.predicted@, a, p, self.n_samples as int)
    }

    /// Tabulates `actual` against `predicted` over `n_classes` classes.
    /// Fails with `LengthMismatch` when the two lists differ in length, and
    /// otherwise with `LabelOutOfRange` when a label is not below `n_classes`.
    pub fn new(actual: &Vec<u8>, predicted: &Vec<u8>, n_classes: usize) -> (r: Result<ConfusionMatrix, MetricError>)
        ensures
            r is Ok <==> actual@.len() == predicted@.len() && labels_below(actual@, n_classes as nat)
                && labels_below(predicted@, n_classes as nat),
            (r matches Err(MetricError::LengthMismatch)) <==> actual@.len() != predicted@.len(),
            (r matches Err(MetricError::LabelOutOfRange)) <==> actual@.len() == predicted@.len() && !(
            labels_below(actual@, n_classes as nat) && labels_below(predicted@, n_classes as nat)),
            r matches Ok(m) ==> {
                &&& m.wf()
                &&& m.n_classes == n_classes
                &&& m.n_samples == actual@.len()
                &&& m.actual@ == actual@
                &&& m.predicted@ == predicted@
            },
    {
        if actual.len() != predicted.len() {
            return Err(MetricError::LengthMismatch);
        }
        if !all_below(actual, n_classes) || !all_below(predicted, n_classes) {
            return Err(MetricError::LabelOutOfRange);
        }
        let mut cells: Vec<Vec<usize>> = Vec::new();
        let mut a: usize = 0;
        while a < n_classes
            invariant
                actual@.len() == predicted@.len(),
                a <= n_classes,
                cells@.len() == a,
                forall|x: int| 0 <= x < a ==> #[trigger] cells@[x]@.len() == n_classes,
                forall|x: int, p: int| 0 <= x < a && 0 <= p < n_classes ==>
                    #[trigger] cells@[x]@[p] == pair_count(actual@, predicted@, x, p, actual@.len() as int),
            decreases n_classes - a,
        {
            let mut row: Vec<usize> = Vec::new();
            let mut p: usize = 0;
            while p < n_classes
                invariant
                    actual@.len() == predicted@.len(),
                    p <= n_classes,
                    row@.len() == p,
                    forall|q: int| 0 <= q < p ==>
                        #[trigger] row@[q] == pair_count(actual@, predicted@, a as int, q, actual@.len() as int),
                decreases n_classes - p,
            {
                row.push(count_pair(actual, predicted, a, p));
                p = p + 1;
            }
            cells.push(row);
            a = a + 1;
        }
        Ok(ConfusionMatrix {
            n_classes,
            cells,
            n_samples: actual.len(),
            actual: Ghost(actual@),
            predicted: Ghost(predicted@),
        })
    }

    /// The number of samples of actual class `a` predicted as class `p`.
    pub fn count(&self, a: usize, p: usize) -> (r: usize)
        requires
            self.wf(),
            a < self.n_classes,
            p < self.n_classes,
        ensures
            r == pair_count(self.actual@, self.predicted@, a as int, p as int, self.n_samples as int),
    {
        self.cells[a][p]
    }

    /// The number of samples tabulated.
    pub fn total(&self) -> (r: usize)
        ensures
            r == self.n_samples,
    {
        self.n_samples
    }

    /// The sum of the diagonal: the number of correctly predicted samples.
    pub fn trace(&self) -> (r: usize)
        requires
            self.wf(),
        ensures
            r == diag_sum(self.actual@, self.predicted@, self.n_classes as int, self.n_samples as int),
            r == match_count(self.actual@, self.predicted@, self.n_samples as int),
    {
        let ghost act = self.actual@;
        let ghost pre = self.predicted@;
        let ghost k = self.n_samples as int;
        proof {
            lemma_trace_is_correct_count(act, pre, self.n_classes as nat);
            lemma_match_count_bound(act, pre, k);
        }
        let mut sum: usize = 0;
        let mut c: usize = 0;
        while c < self.n_classes
            invariant
                self.wf(),
                act == self.actual@,
                pre == self.predicted@,
                k == self.n_samples,
                c <= self.n_classes,
                sum == diag_sum(act, pre, c as int, k),
                diag_sum(act, pre, self.n_classes as int, k) <= k,
            decreases self.n_classes - c,
        {
            proof {
                lemma_diag_sum_monotone(act, pre, c + 1, self.n_classes as int, k);
            }
            sum = sum + self.cells[c][c];
            c = c + 1;
        }
        sum
    }

    /// The accuracy as a fraction: the number of correctly predicted samples
    /// over the number of samples.
    pub fn accuracy_ratio(&self) -> (r: (usize, usize))
        requires
            self.wf(),
        ensures
            r.0 == match_count(self.actual@, self.predicted@, self.n_samples as int),
            r.1 == self.n_samples,
    {
        (self.trace(), self.total())
    }
}

} // verus!
