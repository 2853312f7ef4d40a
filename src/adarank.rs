//! The bookkeeping of AdaRank training: which features may still be
//! selected, which weak ranker wins a round, the ensemble with its
//! checkpoint, saturation, and the history of iterations.
//!
//! The numeric work of a round (weighted metric sums, the ensemble weight,
//! the exponential reweighting) happens outside the library, on
//! single-precision values; each decision taken on its results is made here.
use crate::error::LtrError;
use crate::float::{greater, is_greater, is_less, less, order_key, ZERO_BITS};
use crate::ranklist::RankList;
use crate::weak::WeakRanker;
use crate::DataSet;
use vstd::prelude::*;

verus! {

/// The pattern of `-1.0`: a weighted score must exceed it to be considered.
pub const SENTINEL_BITS: u32 = 0xbf80_0000;

/// How an iteration ended.
#[derive(Debug, Clone, Copy, PartialEq, Eq, Structural)]
pub enum AdaRankStatus {
    /// The training score improved.
    Good,
    /// The training score did not improve; the round's ranker was dropped.
    Bad,
    /// The selected feature was selected too many times in a row and is now
    /// excluded.
    Saturated,
}

/// The record of one iteration. Scores are single-precision bit patterns.
#[derive(Debug, Clone, Copy, PartialEq, Eq, Structural)]
pub struct AdaRankIter {
    pub iteration: usize,
    pub feature: usize,
    pub train_score: u32,
    pub train_improvement: u32,
    pub val_score: u32,
    pub val_improvement: u32,
    pub status: AdaRankStatus,
}

/// What the numeric part of an iteration found, handed to
/// [`AdaRankState::conclude_iteration`]. All values are single-precision bit
/// patterns.
#[derive(Debug, Clone, Copy, PartialEq, Eq, Structural)]
pub struct IterationReport {
    pub iteration: usize,
    /// `training_score + tolerance - previous_training_score`.
    pub delta: u32,
    pub train_score: u32,
    pub train_improvement: u32,
    /// The validation score, when a non-empty validation dataset was ranked.
    pub val_score: Option<u32>,
    pub val_improvement: u32,
}

/// What an [`AdaRankState`] holds.
pub ghost struct AdaRankStateView {
    pub features: Seq<usize>,
    pub max_consecutive_selections: usize,
    pub consecutive_selections: usize,
    pub previous_feature: Option<usize>,
    pub saturated: Seq<usize>,
    pub rankers: Seq<WeakRanker>,
    pub weights: Seq<u32>,
    pub best_rankers: Seq<WeakRanker>,
    pub best_weights: Seq<u32>,
    pub best_validation: u32,
    pub history: Seq<AdaRankIter>,
}

impl AdaRankStateView {
    /// Position `i` of the candidate features may win the round with the
    /// weighted scores `scores`: its feature is not saturated and its score
    /// exceeds `-1.0`.
    pub open spec fn is_candidate(self, scores: Seq<u32>, i: int) -> bool {
        &&& 0 <= i < self.features.len()
        &&& !self.saturated.contains(self.features[i])
        &&& greater(scores[i], SENTINEL_BITS)
    }

    /// Position `i` holds the first of the highest-scoring candidates.
    pub open spec fn is_first_best(self, scores: Seq<u32>, i: int) -> bool {
        &&& self.is_candidate(scores, i)
        &&& forall|j: int| #[trigger]
            self.is_candidate(scores, j) ==> order_key(scores[j]) <= order_key(scores[i])
        &&& forall|j: int|
            0 <= j < i && #[trigger] self.is_candidate(scores, j) ==> order_key(scores[j])
                < order_key(scores[i])
    }

    /// The feature that wins the round: the first best candidate, provided
    /// its score is not below `0.0`.
    pub open spec fn selection(self, scores: Seq<u32>) -> Option<usize> {
        if exists|i: int| self.is_first_best(scores, i) {
            let i = choose|i: int| self.is_first_best(scores, i);
            if less(scores[i], ZERO_BITS) {
                None
            } else {
                Some(self.features[i])
            }
        } else {
            None
        }
    }

    /// The ensemble that training ends with: the validation checkpoint when
    /// there is one, else the working ensemble.
    pub open spec fn finished_rankers(self) -> Seq<WeakRanker> {
        if self.best_rankers.len() > 0 { self.best_rankers } else { self.rankers }
    }

    /// The weights of [`Self::finished_rankers`].
    pub open spec fn finished_weights(self) -> Seq<u32> {
        if self.best_rankers.len() > 0 { self.best_weights } else { self.weights }
    }

    /// `next` is this state after an iteration that reported `report`, and
    /// `going_on` is whether training continues: see
    /// [`AdaRankState::conclude_iteration`].
    pub open spec fn concludes(self, report: IterationReport, next: AdaRankStateView, going_on: bool) -> bool {
        let o = self;
        let n = next;
        let feature = o.rankers.last().feature_id;
        let repeated = o.previous_feature == Some(feature);
        let count = if repeated { o.consecutive_selections + 1 } else { 0int };
        let saturates = repeated && count == o.max_consecutive_selections;
        let status = if saturates { AdaRankStatus::Saturated } else { AdaRankStateView::progress_status(report.delta) };
        let checkpoint = match report.val_score {
            Some(v) => greater(v, o.best_validation),
            None => false,
        };
        &&& going_on == greater(report.delta, ZERO_BITS)
        &&& n.features == o.features
        &&& n.max_consecutive_selections == o.max_consecutive_selections
        &&& n.previous_feature == Some(feature)
        &&& n.consecutive_selections == if saturates { 0 } else { count }
        &&& n.saturated == if saturates && !o.saturated.contains(feature) {
            o.saturated.push(feature)
        } else {
            o.saturated
        }
        &&& n.history == o.history.push(AdaRankIter {
            iteration: report.iteration,
            feature,
            train_score: report.train_score,
            train_improvement: report.train_improvement,
            val_score: match report.val_score {
                Some(v) => v,
                None => ZERO_BITS,
            },
            val_improvement: report.val_improvement,
            status,
        })
        &&& n.best_validation == if checkpoint { report.val_score->0 } else { o.best_validation }
        &&& n.best_rankers == if checkpoint { o.rankers } else { o.best_rankers }
        &&& n.best_weights == if checkpoint { o.weights } else { o.best_weights }
        &&& n.rankers == if going_on { o.rankers } else { o.rankers.drop_last() }
        &&& n.weights == if going_on { o.weights } else { o.weights.drop_last() }
    }

    /// The state of a learner before its first iteration.
    pub open spec fn is_fresh(self) -> bool {
        &&& self.consecutive_selections == 0
        &&& self.previous_feature is None
        &&& self.saturated.len() == 0
        &&& self.rankers.len() == 0
        &&& self.weights.len() == 0
        &&& self.best_rankers.len() == 0
        &&& self.best_weights.len() == 0
        &&& self.best_validation == ZERO_BITS
        &&& self.history.len() == 0
    }

    /// The status an iteration gets, before saturation is considered.
    pub open spec fn progress_status(delta: u32) -> AdaRankStatus {
        if greater(delta, ZERO_BITS) {
            AdaRankStatus::Good
        } else {
            AdaRankStatus::Bad
        }
    }
}

/// The training state of an AdaRank learner, apart from its datasets and
/// sample weights.
///
/// The saturated features are kept for the lifetime of the state: a learner
/// that fits again does not select them either.
#[derive(Debug)]
pub struct AdaRankState {
    features: Vec<usize>,
    max_consecutive_selections: usize,
    consecutive_selections: usize,
    previous_feature: Option<usize>,
    saturated: Vec<usize>,
    rankers: Vec<WeakRanker>,
    weights: Vec<u32>,
    best_rankers: Vec<WeakRanker>,
    best_weights: Vec<u32>,
    best_validation: u32,
    history: Vec<AdaRankIter>,
}

impl View for AdaRankState {
    type V = AdaRankStateView;

    closed spec fn view(&self) -> AdaRankStateView {
        AdaRankStateView {
            features: self.features@,
            max_consecutive_selections: self.max_consecutive_selections,
            consecutive_selections: self.consecutive_selections,
            previous_feature: self.previous_feature,
            saturated: self.saturated@,
            rankers: self.rankers@,
            weights: self.weights@,
            best_rankers: self.best_rankers@,
            best_weights: self.best_weights@,
            best_validation: self.best_validation,
            history: self.history@,
        }
    }
}

/// A saturated feature is never selected again: whatever the weighted
/// scores of a round, the winner is not a feature of the saturated set.
/// (The set only grows: see [`AdaRankState::conclude_iteration`].)
pub proof fn lemma_saturated_never_selected(s: AdaRankStateView, scores: Seq<u32>, feature: usize)
    requires
        s.saturated.contains(feature),
    ensures
        s.selection(scores) != Some(feature),
{
    if exists|i: int| s.is_first_best(scores, i) {
        let i = choose|i: int| s.is_first_best(scores, i);
        assert(!s.saturated.contains(s.features[i]));
    }
}

/// The saturated set only grows: a feature saturated before an iteration is
/// still saturated after it.
pub proof fn lemma_saturation_persists(
    before: AdaRankStateView,
    report: IterationReport,
    after: AdaRankStateView,
    going_on: bool,
    feature: usize,
)
    requires
        before.concludes(report, after, going_on),
        before.saturated.contains(feature),
    ensures
        after.saturated.contains(feature),
{
    if after.saturated != before.saturated {
        let f = before.rankers.last().feature_id;
        assert(after.saturated == before.saturated.push(f));
        let i = choose|i: int| 0 <= i < before.saturated.len() && before.saturated[i] == feature;
        assert(after.saturated[i] == feature);
    }
}

/// Training that selects nothing ends without rankers: before the first
/// iteration the ensemble and its checkpoint are empty, so finishing with no
/// iteration fails with `NoRankers`; and when every weighted score of the
/// first round is below `0.0`, no ranker is selected.
pub proof fn lemma_no_selection_no_rankers(s: AdaRankStateView, scores: Seq<u32>)
    requires
        s.is_fresh(),
    ensures
        s.finished_rankers().len() == 0,
        scores.len() == s.features.len() && (forall|i: int| 0 <= i < scores.len() ==> less(#[trigger] scores[i], ZERO_BITS))
            ==> s.selection(scores) is None,
{
}

/// The features `1..=n`, where `n` is the largest number of features of an
/// item of the first list; none for an empty dataset.
pub open spec fn default_features_spec(dataset: Seq<RankList>) -> Seq<usize> {
    let n = if dataset.len() == 0 { 0 } else { max_feature_count(dataset[0]@, dataset[0]@.len() as int) };
    Seq::new(n, |i: int| (i + 1) as usize)
}

/// The largest number of features among the first `k` items of `s`.
pub open spec fn max_feature_count(s: Seq<crate::datapoint::DataPointView>, k: int) -> nat
    decreases k,
{
    if k <= 0 {
        0
    } else {
        let rest = max_feature_count(s, k - 1);
        let here = s[k - 1].features.len();
        if here > rest { here } else { rest }
    }
}

/// The candidate features when none are given: every feature index that an
/// item of the first list has.
pub fn default_features(dataset: &DataSet) -> (r: Vec<usize>)
    ensures
        r@ == default_features_spec(dataset@),
{
    if dataset.len() == 0 {
        assert(default_features_spec(dataset@) =~= seq![]);
        return Vec::new();
    }
    let first = &dataset[0];
    let mut n: usize = 0;
    let mut i: usize = 0;
    while i < first.len()
        invariant
            first@ == dataset@[0]@,
            i <= first@.len(),
            n == max_feature_count(first@, i as int),
        decreases first@.len() - i,
    {
        if let Ok(d) = first.get(i) {
            let c = d.get_features().len();
            if c > n {
                n = c;
            }
        }
        i = i + 1;
    }
    let mut r: Vec<usize> = Vec::new();
    let mut f: usize = 0;
    while f < n
        invariant
            f <= n,
            r@ == Seq::new(f as nat, |i: int| (i + 1) as usize),
        decreases n - f,
    {
        r.push(f + 1);
        f = f + 1;
        assert(r@ =~= Seq::new(f as nat, |i: int| (i + 1) as usize));
    }
    r
}

impl AdaRankState {
    /// A state with no ensemble, no saturated feature and an empty history.
    pub fn new(features: Vec<usize>, max_consecutive_selections: usize) -> (r: AdaRankState)
        ensures
            r.wf(),
            r@.is_fresh(),
            r@.features == features@,
            r@.max_consecutive_selections == max_consecutive_selections,
    {
        AdaRankState {
            features,
            max_consecutive_selections,
            consecutive_selections: 0,
            previous_feature: None,
            saturated: Vec::new(),
            rankers: Vec::new(),
            weights: Vec::new(),
            best_rankers: Vec::new(),
            best_weights: Vec::new(),
            best_validation: ZERO_BITS,
            history: Vec::new(),
        }
    }

    /// The state is consistent: each ranker has a weight, and the repeat
    /// counter never exceeds the number of iterations recorded.
    pub closed spec fn wf(&self) -> bool {
        &&& self.rankers@.len() == self.weights@.len()
        &&& self.best_rankers@.len() == self.best_weights@.len()
        &&& self.consecutive_selections <= self.history@.len()
    }

    pub fn features(&self) -> (r: &Vec<usize>)
        ensures
            r@ == self@.features,
    {
        &self.features
    }

    /// The rankers of the ensemble.
    pub fn rankers(&self) -> (r: &Vec<WeakRanker>)
        ensures
            r@ == self@.rankers,
    {
        &self.rankers
    }

    /// The weights of the ensemble, one per ranker.
    pub fn weights(&self) -> (r: &Vec<u32>)
        ensures
            r@ == self@.weights,
    {
        &self.weights
    }

    /// The record of every iteration so far, in order.
    pub fn history(&self) -> (r: &Vec<AdaRankIter>)
        ensures
            r@ == self@.history,
    {
        &self.history
    }

    /// Whether the learner holds a model: fails with `NoRankers` exactly
    /// when the ensemble is empty. Scores of a learner are only read after
    /// this check.
    pub fn check_fitted(&self) -> (r: Result<(), LtrError>)
        ensures
            self@.rankers.len() == 0 <==> r is Err,
            r is Err ==> r == Err::<(), LtrError>(LtrError::NoRankers),
    {
        if self.rankers.len() == 0 {
            Err(LtrError::NoRankers)
        } else {
            Ok(())
        }
    }

    /// The best validation score seen so far (`0.0` at first).
    pub fn best_validation(&self) -> (r: u32)
        ensures
            r == self@.best_validation,
    {
        self.best_validation
    }

    /// Whether `feature` is excluded from selection.
    pub fn is_saturated(&self, feature: usize) -> (r: bool)
        ensures
            r == self@.saturated.contains(feature),
    {
        let mut i: usize = 0;
        while i < self.saturated.len()
            invariant
                i <= self.saturated@.len(),
                forall|j: int| 0 <= j < i ==> self.saturated@[j] != feature,
            decreases self.saturated@.len() - i,
        {
            if self.saturated[i] == feature {
                return true;
            }
            i = i + 1;
        }
        false
    }

    /// Picks the weak ranker of the round from `scores`, where `scores[i]`
    /// is the weighted score of `features[i]` (entries of saturated features
    /// are ignored). The first of the highest scores wins; there is no
    /// winner when no score exceeds `-1.0`, or when the best is below `0.0`.
    pub fn select_weak_ranker(&self, scores: &Vec<u32>) -> (r: Option<WeakRanker>)
        requires
            scores@.len() == self@.features.len(),
        ensures
            match r {
                Some(w) => self@.selection(scores@) == Some(w.feature_id),
                None => self@.selection(scores@) is None,
            },
    {
        let ghost s = self@;
        let mut best: u32 = SENTINEL_BITS;
        let mut best_i: usize = 0;
        let mut found = false;
        let mut i: usize = 0;
        while i < self.features.len()
            invariant
                s == self@,
                scores@.len() == s.features.len(),
                i <= s.features.len(),
                !found ==> best == SENTINEL_BITS && forall|j: int|
                    0 <= j < i ==> !#[trigger] s.is_candidate(scores@, j),
                found ==> best_i < i && best == scores@[best_i as int] && s.is_candidate(
                    scores@,
                    best_i as int,
                ),
                found ==> forall|j: int|
                    0 <= j < i && #[trigger] s.is_candidate(scores@, j) ==> order_key(scores@[j])
                        <= order_key(best),
                found ==> forall|j: int|
                    0 <= j < best_i && #[trigger] s.is_candidate(scores@, j) ==> order_key(
                        scores@[j],
                    ) < order_key(best),
            decreases s.features.len() - i,
        {
            let f = self.features[i];
            if !self.is_saturated(f) && is_greater(scores[i], best) {
                best = scores[i];
                best_i = i;
                found = true;
            }
            i = i + 1;
        }
        if !found {
            assert(!exists|j: int| s.is_first_best(scores@, j));
            return None;
        }
        assert(s.is_first_best(scores@, best_i as int));
        let ghost c = choose|j: int| s.is_first_best(scores@, j);
        assert(c == best_i) by {
            if c < best_i {
                assert(s.is_candidate(scores@, c));
            } else if c > best_i {
                assert(s.is_candidate(scores@, best_i as int));
            }
        }
        if is_less(best, ZERO_BITS) {
            return None;
        }
        Some(WeakRanker::new(self.features[best_i]))
    }

    /// Appends `ranker` with `weight` to the ensemble.
    pub fn push_ranker(&mut self, ranker: WeakRanker, weight: u32)
        requires
            old(self).wf(),
        ensures
            final(self).wf(),
            final(self)@ == (AdaRankStateView {
                rankers: old(self)@.rankers.push(ranker),
                weights: old(self)@.weights.push(weight),
                ..old(self)@
            }),
    {
        self.rankers.push(ranker);
        self.weights.push(weight);
    }

    /// Ends an iteration whose ranker was the last one pushed. Its status is
    /// `Good` when `delta > 0.0` and `Bad` otherwise. A feature selected
    /// again right after itself counts one more consecutive repeat; any other
    /// feature sets the count back to 0. At the maximum number of consecutive
    /// repeats the iteration is `Saturated`, the count starts over and the
    /// feature is never selected again. A validation score above the best so far
    /// snapshots the ensemble. The iteration is recorded; then, when
    /// `delta` is not above `0.0`, its ranker is dropped and training stops.
    /// Returns whether training goes on.
    pub fn conclude_iteration(&mut self, report: IterationReport) -> (r: bool)
        requires
            old(self).wf(),
            old(self)@.rankers.len() > 0,
            old(self)@.history.len() < usize::MAX,
        ensures
            final(self).wf(),
            old(self)@.concludes(report, final(self)@, r),
    {
        let feature = self.rankers[self.rankers.len() - 1].feature_id;
        let keep_going = is_greater(report.delta, ZERO_BITS);
        let mut status = if keep_going { AdaRankStatus::Good } else { AdaRankStatus::Bad };
        if self.previous_feature == Some(feature) {
            self.consecutive_selections = self.consecutive_selections + 1;
            if self.consecutive_selections == self.max_consecutive_selections {
                status = AdaRankStatus::Saturated;
                self.consecutive_selections = 0;
                if !self.is_saturated(feature) {
                    self.saturated.push(feature);
                }
            }
        } else {
            self.consecutive_selections = 0;
        }
        self.previous_feature = Some(feature);
        let val_score = match report.val_score {
            Some(v) => {
                if is_greater(v, self.best_validation) {
                    self.best_validation = v;
                    self.best_rankers = self.rankers.clone();
                    self.best_weights = self.weights.clone();
                }
                v
            },
            None => ZERO_BITS,
        };
        self.history.push(
            AdaRankIter {
                iteration: report.iteration,
                feature,
                train_score: report.train_score,
                train_improvement: report.train_improvement,
                val_score,
                val_improvement: report.val_improvement,
                status,
            },
        );
        if !keep_going {
            self.rankers.pop();
            self.weights.pop();
        }
        keep_going
    }

    /// Ends training: the validation checkpoint, when there is one, replaces
    /// the ensemble. Fails with `NoRankers` when the ensemble is then empty.
    pub fn finish(&mut self) -> (r: Result<(), LtrError>)
        requires
            old(self).wf(),
        ensures
            final(self).wf(),
            final(self)@.rankers == old(self)@.finished_rankers(),
            final(self)@.weights == old(self)@.finished_weights(),
            final(self)@ == (AdaRankStateView {
                rankers: old(self)@.finished_rankers(),
                weights: old(self)@.finished_weights(),
                best_rankers: seq![],
                best_weights: seq![],
                ..old(self)@
            }),
            r is Ok <==> final(self)@.rankers.len() > 0,
            r is Err ==> r == Err::<(), LtrError>(LtrError::NoRankers),
    {
        proof {
            if self.best_rankers@.len() == 0 {
                assert(self.best_rankers@ =~= seq![]);
                assert(self.best_weights@ =~= seq![]);
            }
        }
        if self.best_rankers.len() > 0 {
            let mut rankers: Vec<WeakRanker> = Vec::new();
            let mut weights: Vec<u32> = Vec::new();
            std::mem::swap(&mut self.best_rankers, &mut rankers);
            std::mem::swap(&mut self.best_weights, &mut weights);
            self.rankers = rankers;
            self.weights = weights;
        }
        if self.rankers.len() == 0 {
            return Err(LtrError::NoRankers);
        }
        Ok(())
    }
}

} // verus!
