use ltrs::datapoint::DataPoint;
use ltrs::ranklist::RankList;
use ltrs::weak::WeakRanker;
use ltrs::DataSet;

fn bits(v: &[f32]) -> Vec<u32> {
    v.iter().map(|x| x.to_bits()).collect()
}

#[test]
fn predict_reads_the_feature_or_zero() {
    let d = DataPoint::new(1, 1, bits(&[0.5, -3.25, 8.0]), None);
    assert_eq!(WeakRanker::new(2).predict(&d), (-3.25f32).to_bits());
    assert_eq!(WeakRanker::new(3).predict(&d), *d.get_feature(3).unwrap());
    assert_eq!(WeakRanker::new(0).predict(&d), 0.0f32.to_bits());
    assert_eq!(WeakRanker::new(4).predict(&d), 0.0f32.to_bits());
    assert_eq!(WeakRanker::new(7).feature_id, 7);
}

#[test]
fn weak_rank_treats_missing_features_as_zero() {
    let mut list = RankList::new(vec![
        DataPoint::new(0, 1, bits(&[-1.0]), Some("neg")),
        DataPoint::new(0, 1, vec![], Some("missing")),
        DataPoint::new(0, 1, bits(&[2.0]), Some("pos")),
    ]);
    WeakRanker::new(1).rank(&mut list);
    let order: Vec<String> = (0..3).map(|i| list.get(i).unwrap().get_description().unwrap().clone()).collect();
    assert_eq!(order, vec!["pos", "missing", "neg"]);
}

#[test]
fn weak_rank_dataset_ranks_every_list() {
    let mut dataset: DataSet = vec![
        RankList::new(vec![DataPoint::new(0, 1, bits(&[1.0, 5.0]), Some("a")), DataPoint::new(1, 1, bits(&[2.0, 4.0]), Some("b"))]),
        RankList::new(vec![DataPoint::new(0, 2, bits(&[3.0, 1.0]), Some("c")), DataPoint::new(1, 2, bits(&[3.0, 9.0]), Some("d"))]),
    ];
    WeakRanker::new(2).rank_dataset(&mut dataset);
    assert_eq!(dataset[0].get(0).unwrap().get_description().unwrap(), "a");
    assert_eq!(dataset[1].get(0).unwrap().get_description().unwrap(), "d");
}
