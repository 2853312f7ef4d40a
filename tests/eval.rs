use ltrs::datapoint::DataPoint;
use ltrs::error::LtrError;
use ltrs::eval::{Precision, MAP};
use ltrs::ranklist::RankList;
use ltrs::DataSet;
use rand::distributions::{Distribution, Uniform};

fn randomize_uniform(min: f32, max: f32, times: usize) -> Vec<u32> {
    let mut rng = rand::thread_rng();
    let d = Uniform::new(min, max);
    (0..times).map(|_| d.sample(&mut rng).to_bits()).collect()
}

fn relative_eq(a: f64, b: f64, max_relative: f64) -> bool {
    let diff = (a - b).abs();
    diff <= f64::EPSILON || diff <= a.abs().max(b.abs()) * max_relative
}

fn relative_eq32(a: f32, b: f32, max_relative: f32) -> bool {
    let diff = (a - b).abs();
    diff <= f32::EPSILON || diff <= a.abs().max(b.abs()) * max_relative
}

fn sample() -> RankList {
    let labels = [0u8, 1, 1, 0, 1, 0];
    let names = ["doc1", "doc2", "doc3", "doc4", "doc5", "doc6"];
    RankList::new(
        labels
            .iter()
            .zip(names.iter())
            .map(|(l, n)| DataPoint::new(*l, 9, randomize_uniform(0f32, 100f32, 20), Some(n)))
            .collect(),
    )
}

fn map_score(list: &RankList) -> f64 {
    let positions = MAP.relevant_positions(list);
    if positions.is_empty() {
        return 0.0;
    }
    let total: f64 = positions.iter().enumerate().map(|(j, p)| (j + 1) as f64 / *p as f64).sum();
    total / positions.len() as f64
}

fn precision_score(p: &Precision, list: &RankList) -> f32 {
    if p.limit() == 0 {
        return 0.0;
    }
    p.hits(list) as f32 / p.limit() as f32
}

#[test]
fn test_map() {
    let ranklist = sample();
    let map_score = map_score(&ranklist);
    assert!(relative_eq(map_score, 0.588, 0.01f64));
}

#[test]
fn test_precision() {
    let ranklist = sample();

    let p1 = Precision::new(1);
    let mut p3 = Precision::new(3);
    let p5 = Precision::new(5);

    let p1_score = precision_score(&p1, &ranklist);
    let p3_score = precision_score(&p3, &ranklist);
    let p5_score = precision_score(&p5, &ranklist);

    assert!(relative_eq32(p1_score, 0.0, 0.01f32));
    assert!(relative_eq32(p3_score, 0.66, 0.01f32));
    assert!(relative_eq32(p5_score, 0.6, 0.01f32));

    assert_eq!(p1.limit(), 1);
    assert_eq!(p3.limit(), 3);
    assert_eq!(p5.limit(), 5);

    p3.set_limit(2);
    assert_eq!(p3.limit(), 2);
    assert!(relative_eq32(precision_score(&p3, &ranklist), 0.5, 0.01f32));
}

#[test]
fn relevant_positions_and_hits_are_exact() {
    let list = sample();
    assert_eq!(MAP.relevant_positions(&list), vec![2, 3, 5]);
    assert_eq!(Precision::new(0).hits(&list), 0);
    assert_eq!(Precision::new(3).hits(&list), 2);
    assert_eq!(Precision::new(100).hits(&list), 3);
    assert_eq!(Precision::new(3).to_string(), "P@3");
    assert_eq!(MAP.to_string(), "MAP");
}

#[test]
fn precision_counts_only_label_one() {
    let list = RankList::new(vec![
        DataPoint::new(2, 1, vec![], None),
        DataPoint::new(1, 1, vec![], None),
        DataPoint::new(3, 1, vec![], None),
    ]);
    assert_eq!(Precision::new(3).hits(&list), 1);
    assert_eq!(MAP.relevant_positions(&list), vec![1, 2, 3]);
    let none = RankList::new(vec![DataPoint::new(0, 1, vec![], None)]);
    assert_eq!(MAP.relevant_positions(&none), Vec::<usize>::new());
}

#[test]
fn metrics_do_not_depend_on_features() {
    let a = sample();
    let b = sample();
    assert_eq!(MAP.relevant_positions(&a), MAP.relevant_positions(&b));
    for k in 0..8 {
        assert_eq!(Precision::new(k).hits(&a), Precision::new(k).hits(&b));
    }
}

#[test]
fn evaluate_dataset_refuses_an_empty_dataset() {
    let empty: DataSet = vec![];
    assert!(matches!(Precision::new(2).evaluate_dataset(&empty), Err(LtrError::EvaluationError(_))));
    assert!(matches!(MAP.evaluate_dataset(&empty), Err(LtrError::EvaluationError(_))));
}

#[test]
fn evaluate_dataset_gives_one_entry_per_list() {
    let other = RankList::new(vec![DataPoint::new(1, 3, vec![], None), DataPoint::new(0, 3, vec![], None)]);
    let dataset: DataSet = vec![sample(), other];
    assert_eq!(Precision::new(2).evaluate_dataset(&dataset), Ok(vec![1, 1]));
    assert_eq!(MAP.evaluate_dataset(&dataset), Ok(vec![vec![2, 3, 5], vec![1]]));
}
