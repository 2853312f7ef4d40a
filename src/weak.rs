//! The single-feature ranker that AdaRank combines.
use crate::datapoint::{DataPoint, DataPointView};
use crate::float::ZERO_BITS;
use crate::ranklist::{ranked_by, score_keys, RankList};
use crate::DataSet;
use vstd::prelude::*;

verus! {

/// A weak ranker on feature `k` predicts the item's value of feature `k`
/// when the item has it, and `0.0` otherwise.
pub proof fn lemma_predict_is_feature(w: WeakRanker, d: DataPointView)
    ensures
        d.has_feature(w.feature_id as int) ==> w.score(d) == d.feature(w.feature_id as int),
        !d.has_feature(w.feature_id as int) ==> w.score(d) == ZERO_BITS,
{
}

/// A ranker whose score for an item is the value of one feature.
#[derive(Debug, Clone, Copy, PartialEq, Eq, Structural)]
pub struct WeakRanker {
    /// The 1-based index of the feature that gives the score.
    pub feature_id: usize,
}

impl WeakRanker {
    /// The score of `d`: its value of feature `feature_id`, or `0.0` when it
    /// has no such feature.
    pub open spec fn score(self, d: DataPointView) -> u32 {
        if d.has_feature(self.feature_id as int) {
            d.feature(self.feature_id as int)
        } else {
            ZERO_BITS
        }
    }

    /// The scores of the items of `s`, in list order.
    pub open spec fn scores(self, s: Seq<DataPointView>) -> Seq<u32> {
        Seq::new(s.len(), |i: int| self.score(s[i]))
    }

    pub fn new(feature_id: usize) -> (r: WeakRanker)
        ensures
            r.feature_id == feature_id,
    {
        WeakRanker { feature_id }
    }

    /// The score of `datapoint`. A missing feature scores `0.0` rather than
    /// failing, so that one malformed item cannot stop a ranking pass.
    pub fn predict(&self, datapoint: &DataPoint) -> (r: u32)
        ensures
            r == self.score(datapoint@),
    {
        match datapoint.get_feature(self.feature_id) {
            Ok(value) => *value,
            Err(_) => ZERO_BITS,
        }
    }

    /// Sorts `ranklist` by descending score; equal scores keep their order.
    pub fn rank(&self, ranklist: &mut RankList)
        ensures
            ranked_by(old(ranklist)@, final(ranklist)@, score_keys(self.scores(old(ranklist)@))),
    {
        let mut scores: Vec<u32> = Vec::new();
        let mut i: usize = 0;
        while i < ranklist.len()
            invariant
                ranklist@ == old(ranklist)@,
                i <= ranklist@.len(),
                scores@ == self.scores(ranklist@).subrange(0, i as int),
            decreases ranklist@.len() - i,
        {
            let d = ranklist.get(i);
            match d {
                Ok(d) => scores.push(self.predict(d)),
                Err(_) => {},
            }
            i = i + 1;
            assert(scores@ =~= self.scores(ranklist@).subrange(0, i as int));
        }
        assert(scores@ =~= self.scores(ranklist@));
        ranklist.rank_by_scores(&scores);
    }

    /// Ranks every list of `dataset` in turn.
    pub fn rank_dataset(&self, dataset: &mut DataSet)
        ensures
            final(dataset)@.len() == old(dataset)@.len(),
            forall|i: int|
                0 <= i < old(dataset)@.len() ==> ranked_by(
                    old(dataset)@[i]@,
                    #[trigger] final(dataset)@[i]@,
                    score_keys(self.scores(old(dataset)@[i]@)),
                ),
    {
        let mut i: usize = 0;
        while i < dataset.len()
            invariant
                i <= dataset@.len(),
                dataset@.len() == old(dataset)@.len(),
                forall|j: int|
                    0 <= j < i ==> ranked_by(
                        old(dataset)@[j]@,
                        #[trigger] dataset@[j]@,
                        score_keys(self.scores(old(dataset)@[j]@)),
                    ),
                forall|j: int| i <= j < dataset@.len() ==> #[trigger] dataset@[j]@ == old(dataset)@[j]@,
            decreases dataset@.len() - i,
        {
            let mut list = dataset[i].clone();
            self.rank(&mut list);
            dataset.set(i, list);
            i = i + 1;
        }
    }
}

} // verus!
