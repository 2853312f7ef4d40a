use ltrs::datapoint::DataPoint;
use ltrs::error::LtrError;

fn bits(v: &[f32]) -> Vec<u32> {
    v.iter().map(|x| x.to_bits()).collect()
}

#[test]
fn datapoint_test_data_point_new() {
    let features: Vec<u32> = bits(&[1.2, 3.4, 5.6]);
    let mut data_point = DataPoint::new(1, 2, features.clone(), Some("This is a test"));
    assert_eq!(data_point.get_label(), 1);
    assert_eq!(data_point.get_query_id(), 2);
    assert_eq!(data_point.get_features(), &features);
    assert_eq!(data_point.get_description(), Some(&"This is a test".to_string()));

    let cloned_data_point = data_point.clone();

    assert_eq!(cloned_data_point, data_point);
    assert_eq!(data_point, data_point);
    assert_eq!(cloned_data_point, DataPoint::new(1, 2, bits(&[0.0]), Some("This is a test")));

    assert_ne!(cloned_data_point, DataPoint::new(2, 4, bits(&[1.2, 3.4, 5.6]), Some("This is a test")));

    data_point.set_label(2);
    data_point.set_query_id(4);
    data_point.set_description("This is another test");

    assert_eq!(data_point.get_label(), 2);
    assert_eq!(data_point.get_query_id(), 4);
    assert_eq!(data_point.get_description(), Some(&"This is another test".to_string()));
}

#[test]
fn datapoint_test_update_features() {
    let mut mydp = DataPoint::new(1, 2, bits(&[1.2, 3.4, 5.6]), Some("This is a test"));

    assert_eq!(mydp.get_features(), &bits(&[1.2, 3.4, 5.6]));

    match mydp.get_feature(0) {
        Ok(_) => assert!(false),
        Err(er) => assert_eq!(er, LtrError::FeatureIndexOutOfBounds(0 as usize)),
    }

    mydp.add_feature(20.0f32.to_bits()).unwrap();

    assert_eq!(mydp.get_feature(4), Ok(&20.0f32.to_bits()));

    let snapshot = mydp.clone();

    mydp.set_feature(4, 21.0f32.to_bits()).unwrap();

    assert_eq!(mydp.get_feature(4), Ok(&21.0f32.to_bits()));

    assert_ne!(mydp.get_features(), snapshot.get_features());
    assert_eq!(mydp, snapshot);

    mydp.set_label(2);

    assert!(mydp > snapshot);
}

#[test]
fn set_feature_refuses_index_zero_and_past_the_end() {
    let mut d = DataPoint::new(0, 1, bits(&[1.0, 2.0]), None);
    assert_eq!(d.set_feature(0, 5.0f32.to_bits()), Err(LtrError::FeatureIndexOutOfBounds(0)));
    assert_eq!(d.set_feature(3, 5.0f32.to_bits()), Err(LtrError::FeatureIndexOutOfBounds(3)));
    assert_eq!(d.get_features(), &bits(&[1.0, 2.0]));
    assert_eq!(d.get_feature(3), Err(LtrError::FeatureIndexOutOfBounds(3)));
    assert_eq!(d.get_description(), None);
}

#[test]
fn empty_datapoint_has_nothing() {
    let d = DataPoint::empty();
    assert_eq!(d.get_label(), 0);
    assert_eq!(d.get_query_id(), 0);
    assert!(d.get_features().is_empty());
    assert_eq!(d.get_description(), None);
    let mut e = d.clone();
    e.set_features(bits(&[7.0])).unwrap();
    assert_eq!(e.get_feature(1), Ok(&7.0f32.to_bits()));
}
