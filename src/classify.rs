use vstd::prelude::*;

verus! {

/// Why a binary "one class against the rest" sub-problem cannot be fitted.
#[derive(Debug, Clone, Copy, PartialEq, Eq, Structural)]
pub enum FitError {
    /// No sample carries the class.
    NoPositive,
    /// Every sample carries the class.
    NoNegative,
}

/// Some sample carries label `class`.
pub open spec fn has_label(labels: Seq<u8>, class: u8) -> bool {
    exists|i: int| 0 <= i < labels.len() && labels[i] == class
}

/// Some sample carries a label other than `class`.
pub open spec fn has_other(labels: Seq<u8>, class: u8) -> bool {
    exists|i: int| 0 <= i < labels.len() && labels[i] != class
}

/// The targets of the sub-problem for `class`: true exactly where the label is `class`.
pub open spec fn targets_of(labels: Seq<u8>, class: u8) -> Seq<bool> {
    Seq::new(labels.len(), |i: int| labels[i] == class)
}

/// The binary targets for fitting `class` against every other label. Fails
/// with `NoPositive` when no sample carries `class`, and otherwise with
/// `NoNegative` when every sample does.
pub fn one_vs_all_targets(labels: &Vec<u8>, class: u8) -> (r: Result<Vec<bool>, FitError>)
    ensures
        r is Ok <==> has_label(labels@, class) && has_other(labels@, class),
        (r matches Err(FitError::NoPositive)) <==> !has_label(labels@, class),
        (r matches Err(FitError::NoNegative)) <==> has_label(labels@, class) && !has_other(labels@, class),
        r matches Ok(t) ==> t@ == targets_of(labels@, class),
{
    let mut t: Vec<bool> = Vec::new();
    let mut pos: bool = false;
    let mut neg: bool = false;
    let mut i: usize = 0;
    while i < labels.len()
        invariant
            i <= labels@.len(),
            t@ == targets_of(labels@.subrange(0, i as int), class),
            pos == has_label(labels@.subrange(0, i as int), class),
            neg == has_other(labels@.subrange(0, i as int), class),
        decreases labels@.len() - i,
    {
        let hit = labels[i] == class;
        t.push(hit);
        proof {
            let pre = labels@.subrange(0, i as int);
            let next = labels@.subrange(0, i as int + 1);
            assert(next[i as int] == labels@[i as int]);
            assert forall|j: int| 0 <= j < i implies #[trigger] next[j] == pre[j] by {}
            if has_label(pre, class) {
                let w = choose|j: int| 0 <= j < pre.len() && pre[j] == class;
                assert(next[w] == class);
            }
            if has_other(pre, class) {
                let w = choose|j: int| 0 <= j < pre.len() && pre[j] != class;
                assert(next[w] != class);
            }
            if has_label(next, class) && !hit {
                let w = choose|j: int| 0 <= j < next.len() && next[j] == class;
                assert(pre[w] == class);
            }
            if has_other(next, class) && hit {
                let w = choose|j: int| 0 <= j < next.len() && next[j] != class;
                assert(pre[w] != class);
            }
            assert(t@ =~= targets_of(next, class));
        }
        pos = pos || hit;
        neg = neg || !hit;
        i = i + 1;
    }
    proof {
        assert(labels@.subrange(0, labels@.len() as int) =~= labels@);
    }
    if !pos {
        Err(FitError::NoPositive)
    } else if !neg {
        Err(FitError::NoNegative)
    } else {
        Ok(t)
    }
}

/// Whether some label equals `class`.
fn contains_label(labels: &Vec<u8>, class: u8) -> (r: bool)
    ensures
        r == has_label(labels@, class),
{
    let mut i: usize = 0;
    while i < labels.len()
        invariant
            i <= labels@.len(),
            forall|j: int| 0 <= j < i ==> labels@[j] != class,
        decreases labels@.len() - i,
    {
        if labels[i] == class {
            return true;
        }
        i = i + 1;
    }
    false
}

/// The distinct labels, in ascending order: one sub-problem each.
pub fn distinct_labels(labels: &Vec<u8>) -> (r: Vec<u8>)
    ensures
        forall|i: int, j: int| 0 <= i < j < r@.len() ==> r@[i] < r@[j],
        forall|c: u8| r@.contains(c) <==> has_label(labels@, c),
{
    let mut r: Vec<u8> = Vec::new();
    let mut c: u16 = 0;
    while c < 256
        invariant
            c <= 256,
            forall|i: int, j: int| 0 <= i < j < r@.len() ==> r@[i] < r@[j],
            forall|i: int| 0 <= i < r@.len() ==> r@[i] < c,
            forall|x: u8| r@.contains(x) <==> (x < c && has_label(labels@, x)),
        decreases 256 - c,
    {
        let x = c as u8;
        if contains_label(labels, x) {
            let ghost before = r@;
            r.push(x);
            proof {
                assert(r@.last() == x);
                assert forall|y: u8| r@.contains(y) <==> (y < c + 1 && has_label(labels@, y)) by {
                    if y == x {
                        assert(r@[r@.len() - 1] == y);
                    } else if r@.contains(y) {
                        let w = choose|w: int| 0 <= w < r@.len() && r@[w] == y;
                        assert(w < r@.len() - 1);
                        assert(r@.drop_last()[w] == y);
                        assert(r@.drop_last().contains(y));
                    } else if y < c && has_label(labels@, y) {
                        assert(before.contains(y));
                        let w = choose|w: int| 0 <= w < before.len() && before[w] == y;
                        assert(r@[w] == y);
                    }
                }
            }
        } else {
            proof {
                assert forall|y: u8| r@.contains(y) <==> (y < c + 1 && has_label(labels@, y)) by {
                    if y == x {
                        assert(!has_label(labels@, y));
                    }
                }
            }
        }
        c = c + 1;
    }
    r
}

} // verus!
