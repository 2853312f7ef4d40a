use ltrs::adarank::{default_features, AdaRankState, AdaRankStatus, IterationReport};
use ltrs::datapoint::DataPoint;
use ltrs::error::LtrError;
use ltrs::ranklist::RankList;
use ltrs::weak::WeakRanker;
use ltrs::DataSet;

fn b(x: f32) -> u32 {
    x.to_bits()
}

fn report(iteration: usize, delta: f32, val: Option<f32>) -> IterationReport {
    IterationReport {
        iteration,
        delta: b(delta),
        train_score: b(0.5),
        train_improvement: b(0.1),
        val_score: val.map(b),
        val_improvement: b(0.0),
    }
}

#[test]
fn selection_takes_the_first_best_feature() {
    let state = AdaRankState::new(vec![1, 2, 3], 2);
    let picked = state.select_weak_ranker(&vec![b(0.5), b(0.7), b(0.7)]);
    assert_eq!(picked, Some(WeakRanker::new(2)));
    let picked = state.select_weak_ranker(&vec![b(0.0), b(-0.5), b(f32::NAN)]);
    assert_eq!(picked, Some(WeakRanker::new(1)));
}

#[test]
fn selection_fails_when_every_score_is_negative() {
    let state = AdaRankState::new(vec![1, 2, 3], 2);
    assert_eq!(state.select_weak_ranker(&vec![b(-0.5), b(-0.1), b(-2.0)]), None);
    assert_eq!(state.select_weak_ranker(&vec![b(f32::NAN), b(-1.0), b(-3.0)]), None);
    let none = AdaRankState::new(vec![], 2);
    assert_eq!(none.select_weak_ranker(&vec![]), None);
}

#[test]
fn finishing_without_iterations_gives_no_rankers() {
    let mut state = AdaRankState::new(vec![1, 2], 3);
    assert_eq!(state.finish(), Err(LtrError::NoRankers));
    assert!(state.history().is_empty());
}

#[test]
fn a_bad_iteration_is_recorded_and_rolled_back() {
    let mut state = AdaRankState::new(vec![1, 2], 3);
    state.push_ranker(WeakRanker::new(1), b(0.25));
    assert!(state.conclude_iteration(report(0, 0.2, None)));
    state.push_ranker(WeakRanker::new(2), b(0.1));
    assert!(!state.conclude_iteration(report(1, 0.0, None)));
    assert_eq!(state.rankers(), &vec![WeakRanker::new(1)]);
    assert_eq!(state.weights(), &vec![b(0.25)]);
    let history = state.history();
    assert_eq!(history.len(), 2);
    assert_eq!(history[0].status, AdaRankStatus::Good);
    assert_eq!(history[1].status, AdaRankStatus::Bad);
    assert_eq!(history[1].feature, 2);
    assert_eq!(history[1].iteration, 1);
    assert_eq!(state.finish(), Ok(()));
}

#[test]
fn a_saturated_feature_is_not_selected_again() {
    let mut state = AdaRankState::new(vec![1, 2], 2);
    for it in 0..3 {
        state.push_ranker(WeakRanker::new(1), b(0.3));
        assert!(state.conclude_iteration(report(it, 0.1, None)));
    }
    assert_eq!(state.history()[2].status, AdaRankStatus::Saturated);
    assert!(state.is_saturated(1));
    assert!(!state.is_saturated(2));
    let picked = state.select_weak_ranker(&vec![b(0.9), b(0.2)]);
    assert_eq!(picked, Some(WeakRanker::new(2)));
    assert_eq!(state.select_weak_ranker(&vec![b(0.9), b(-0.2)]), None);
}

#[test]
fn the_validation_checkpoint_replaces_the_ensemble() {
    let mut state = AdaRankState::new(vec![1, 2, 3], 5);
    state.push_ranker(WeakRanker::new(1), b(0.4));
    assert!(state.conclude_iteration(report(0, 0.3, Some(0.8))));
    state.push_ranker(WeakRanker::new(2), b(0.2));
    assert!(state.conclude_iteration(report(1, 0.1, Some(0.6))));
    assert_eq!(state.best_validation(), b(0.8));
    assert_eq!(state.history()[1].val_score, b(0.6));
    assert_eq!(state.finish(), Ok(()));
    assert_eq!(state.rankers(), &vec![WeakRanker::new(1)]);
    assert_eq!(state.weights(), &vec![b(0.4)]);
}

#[test]
fn default_features_cover_the_first_list() {
    let dataset: DataSet = vec![
        RankList::new(vec![
            DataPoint::new(0, 1, vec![b(1.0), b(2.0)], None),
            DataPoint::new(1, 1, vec![b(1.0), b(2.0), b(3.0)], None),
        ]),
        RankList::new(vec![DataPoint::new(0, 2, vec![b(1.0); 5], None)]),
    ];
    assert_eq!(default_features(&dataset), vec![1, 2, 3]);
    let empty: DataSet = vec![];
    assert_eq!(default_features(&empty), Vec::<usize>::new());
}

#[test]
fn a_different_feature_resets_the_repeat_count() {
    let mut state = AdaRankState::new(vec![1, 2], 2);
    for (it, feature) in [1usize, 1, 2, 2].iter().enumerate() {
        state.push_ranker(WeakRanker::new(*feature), b(0.3));
        assert!(state.conclude_iteration(report(it, 0.1, None)));
    }
    assert!(state.history().iter().all(|h| h.status == AdaRankStatus::Good));
    assert!(!state.is_saturated(1));
    assert!(!state.is_saturated(2));
    state.push_ranker(WeakRanker::new(2), b(0.3));
    assert!(state.conclude_iteration(report(4, 0.1, None)));
    assert_eq!(state.history()[4].status, AdaRankStatus::Saturated);
    assert!(state.is_saturated(2));
}

#[test]
fn check_fitted_fails_only_without_rankers() {
    let mut state = AdaRankState::new(vec![1], 2);
    assert_eq!(state.check_fitted(), Err(LtrError::NoRankers));
    state.push_ranker(WeakRanker::new(1), b(0.3));
    assert_eq!(state.check_fitted(), Ok(()));
}
