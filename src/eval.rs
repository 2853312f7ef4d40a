//! The two ranking metrics, Mean Average Precision and Precision@K.
//!
//! Both depend on the labels of a list in ranked order and on nothing else.
//! The library computes the exact counts that define them; the division
//! into a score is left to the caller.
use crate::error::LtrError;
use crate::datapoint::DataPointView;
use crate::ranklist::{labels, RankList};
use crate::text::{decimal, push_decimal};
use crate::DataSet;
use vstd::prelude::*;
use vstd::string::StringExecFns;

verus! {

/// The 1-based positions of the relevant items (label above 0), in order.
pub open spec fn relevant_positions(labels: Seq<u8>) -> Seq<usize>
    decreases labels.len(),
{
    if labels.len() == 0 {
        seq![]
    } else {
        let rest = relevant_positions(labels.drop_last());
        if labels.last() > 0 {
            rest.push(labels.len() as usize)
        } else {
            rest
        }
    }
}

/// How many of `labels` are exactly 1.
pub open spec fn count_ones(labels: Seq<u8>) -> nat
    decreases labels.len(),
{
    if labels.len() == 0 {
        0
    } else {
        count_ones(labels.drop_last()) + if labels.last() == 1 { 1nat } else { 0nat }
    }
}

/// How many of the first `k` labels (or of all, when there are fewer) are 1.
pub open spec fn hits_within(labels: Seq<u8>, k: nat) -> nat {
    if k < labels.len() {
        count_ones(labels.take(k as int))
    } else {
        count_ones(labels)
    }
}

/// Both metrics see only the labels in ranked order: two lists with the same
/// label sequence, whatever their features, get the same relevant positions
/// and the same Precision@K hit count for every `K`.
pub proof fn lemma_metrics_see_only_labels(a: Seq<DataPointView>, b: Seq<DataPointView>, k: nat)
    requires
        labels(a) == labels(b),
    ensures
        relevant_positions(labels(a)) == relevant_positions(labels(b)),
        hits_within(labels(a), k) == hits_within(labels(b), k),
{
}

/// Mean Average Precision: an item with a label above 0 is relevant. The
/// average precision of a list is the mean, over the positions `p_j` of its
/// relevant items (1-based), of `j / p_j`, or 0 when none is relevant.
#[derive(Debug, Clone, Copy)]
pub struct MAP;

impl MAP {
    /// The 1-based positions of the relevant items of `ranklist`, in order:
    /// the `j`-th of them contributes `j / positions[j - 1]`.
    pub fn relevant_positions(&self, ranklist: &RankList) -> (r: Vec<usize>)
        ensures
            r@ == relevant_positions(labels(ranklist@)),
    {
        let mut r: Vec<usize> = Vec::new();
        let mut i: usize = 0;
        while i < ranklist.len()
            invariant
                i <= ranklist@.len(),
                r@ == relevant_positions(labels(ranklist@).take(i as int)),
            decreases ranklist@.len() - i,
        {
            let ghost before = labels(ranklist@).take(i as int);
            let ghost after = labels(ranklist@).take(i as int + 1);
            assert(after.drop_last() =~= before);
            if let Ok(d) = ranklist.get(i) {
                if d.get_label() > 0 {
                    r.push(i + 1);
                }
            }
            i = i + 1;
        }
        assert(labels(ranklist@).take(i as int) =~= labels(ranklist@));
        r
    }

    /// The name of the metric.
    pub fn to_string(&self) -> (r: String)
        ensures
            r@ == "MAP"@,
    {
        String::from_str("MAP")
    }

    /// The relevant positions of every list of `dataset`; an empty dataset
    /// has no mean and is refused.
    pub fn evaluate_dataset(&self, dataset: &DataSet) -> (r: Result<Vec<Vec<usize>>, LtrError>)
        ensures
            dataset@.len() == 0 ==> r is Err && r->Err_0 is EvaluationError,
            dataset@.len() > 0 ==> r is Ok && r->Ok_0@.len() == dataset@.len() && forall|i: int|
                0 <= i < dataset@.len() ==> #[trigger] r->Ok_0@[i]@ == relevant_positions(
                    labels(dataset@[i]@),
                ),
    {
        if dataset.len() == 0 {
            return Err(LtrError::EvaluationError("the dataset is empty"));
        }
        let mut r: Vec<Vec<usize>> = Vec::new();
        let mut i: usize = 0;
        while i < dataset.len()
            invariant
                i <= dataset@.len(),
                r@.len() == i,
                forall|j: int|
                    0 <= j < i ==> #[trigger] r@[j]@ == relevant_positions(labels(dataset@[j]@)),
            decreases dataset@.len() - i,
        {
            r.push(self.relevant_positions(&dataset[i]));
            i = i + 1;
        }
        Ok(r)
    }
}

/// Precision@K: the share of the first `K` positions that hold an item
/// labelled exactly 1, or 0 when `K` is 0.
#[derive(Debug, Clone, Copy, PartialEq, Eq, Structural)]
pub struct Precision {
    limit: usize,
}

impl Precision {
    /// The cut-off `K`.
    pub closed spec fn k(self) -> nat {
        self.limit as nat
    }

    pub fn new(limit: usize) -> (r: Precision)
        ensures
            r.k() == limit,
    {
        Precision { limit }
    }

    /// The cut-off `K`.
    pub fn limit(&self) -> (r: usize)
        ensures
            r == self.k(),
    {
        self.limit
    }

    pub fn set_limit(&mut self, limit: usize)
        ensures
            final(self).k() == limit,
    {
        self.limit = limit;
    }

    /// How many of the first `K` items of `ranklist` are labelled 1; the
    /// precision is this count divided by `K`.
    pub fn hits(&self, ranklist: &RankList) -> (r: usize)
        ensures
            r == hits_within(labels(ranklist@), self.k()),
    {
        let n = if self.limit < ranklist.len() { self.limit } else { ranklist.len() };
        let mut count: usize = 0;
        let mut i: usize = 0;
        while i < n
            invariant
                n <= ranklist@.len(),
                n == if self.limit < ranklist@.len() { self.limit as nat } else { ranklist@.len() },
                i <= n,
                count == count_ones(labels(ranklist@).take(i as int)),
                count <= i,
            decreases n - i,
        {
            let ghost before = labels(ranklist@).take(i as int);
            let ghost after = labels(ranklist@).take(i as int + 1);
            assert(after.drop_last() =~= before);
            if let Ok(d) = ranklist.get(i) {
                if d.get_label() == 1 {
                    count = count + 1;
                }
            }
            i = i + 1;
        }
        if self.limit >= ranklist.len() {
            assert(labels(ranklist@).take(i as int) =~= labels(ranklist@));
        }
        count
    }

    /// The name of the metric, `P@K`.
    pub fn to_string(&self) -> (r: String)
        ensures
            r@ == "P@"@ + decimal(self.k()),
    {
        let mut s = String::from_str("P@");
        push_decimal(&mut s, self.limit);
        s
    }

    /// The hit count of every list of `dataset`; an empty dataset has no
    /// mean and is refused.
    pub fn evaluate_dataset(&self, dataset: &DataSet) -> (r: Result<Vec<usize>, LtrError>)
        ensures
            dataset@.len() == 0 ==> r is Err && r->Err_0 is EvaluationError,
            dataset@.len() > 0 ==> r is Ok && r->Ok_0@.len() == dataset@.len() && forall|i: int|
                0 <= i < dataset@.len() ==> #[trigger] r->Ok_0@[i] == hits_within(
                    labels(dataset@[i]@),
                    self.k(),
                ),
    {
        if dataset.len() == 0 {
            return Err(LtrError::EvaluationError("the dataset is empty"));
        }
        let mut r: Vec<usize> = Vec::new();
        let mut i: usize = 0;
        while i < dataset.len()
            invariant
                i <= dataset@.len(),
                r@.len() == i,
                forall|j: int|
                    0 <= j < i ==> #[trigger] r@[j] == hits_within(labels(dataset@[j]@), self.k()),
            decreases dataset@.len() - i,
        {
            r.push(self.hits(&dataset[i]));
            i = i + 1;
        }
        Ok(r)
    }
}

} // verus!
