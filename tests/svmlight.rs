use ltrs::datapoint::DataPoint;
use ltrs::error::LtrError;
use ltrs::svmlight::SVMLight;

fn load_datapoint(line: &str) -> Result<DataPoint, LtrError> {
    let chars: Vec<char> = line.chars().collect();
    let record = SVMLight::parse_line(&chars)?;
    let values: Vec<u32> = record.features.iter().map(|(_, t)| t.parse::<f32>().unwrap().to_bits()).collect();
    Ok(record.into_datapoint(&values))
}

fn parse(line: &str) -> Result<ltrs::svmlight::SvmRecord, LtrError> {
    let chars: Vec<char> = line.chars().collect();
    SVMLight::parse_line(&chars)
}

#[test]
fn test_svm_light_parser() {
    let buffer = "1 qid:10 1:21.00 2:2.30 3:4.50 # desc";
    let data_point = load_datapoint(buffer).unwrap();

    assert_eq!(data_point.get_label(), 1);
    assert_eq!(data_point.get_query_id(), 10);
    assert_eq!(data_point.get_description(), Some(&"desc".to_string()));
    assert_eq!(data_point.get_features().len(), 3);
    assert_eq!(*data_point.get_feature(1).unwrap(), 21.0f32.to_bits());
    assert_eq!(*data_point.get_feature(2).unwrap(), 2.3f32.to_bits());
    assert_eq!(*data_point.get_feature(3).unwrap(), 4.5f32.to_bits());
}

#[test]
fn parse_line_keeps_value_texts_and_description() {
    let r = parse("  2 qid:+7 3:0.5 1:-2   #  a # b ").unwrap();
    assert_eq!(r.label, 2);
    assert_eq!(r.query_id, 7);
    assert_eq!(r.features, vec![(3, "0.5".to_string()), (1, "-2".to_string())]);
    assert_eq!(r.description, Some("a".to_string()));
    let r = parse("0 qid:1").unwrap();
    assert!(r.features.is_empty());
    assert_eq!(r.description, None);
}

#[test]
fn parse_line_reports_the_first_error() {
    assert_eq!(parse("x qid:1 1:2").unwrap_err(), LtrError::InvalidDataPoint("Invalid label parameter."));
    assert_eq!(parse("256 qid:1").unwrap_err(), LtrError::InvalidDataPoint("Invalid label parameter."));
    assert_eq!(parse("").unwrap_err(), LtrError::InvalidDataPoint("Invalid label parameter."));
    assert_eq!(parse("1").unwrap_err(), LtrError::InvalidDataPoint("Missing the qid parameter."));
    assert_eq!(parse("1 qid").unwrap_err(), LtrError::ParseError("Query ID processing failure."));
    assert_eq!(parse("1 qid:z").unwrap_err(), LtrError::InvalidDataPoint("Invalid qid parameter."));
    assert_eq!(parse("1 qid:1 a:2").unwrap_err(), LtrError::InvalidDataPoint("Invalid feature index."));
    assert_eq!(parse("1 qid:1 0:2").unwrap_err(), LtrError::InvalidDataPoint("Invalid feature index."));
    assert_eq!(parse("1 qid:1  1:2").unwrap_err(), LtrError::InvalidDataPoint("Invalid feature index."));
    assert_eq!(parse("1 qid:1 2 x:1").unwrap_err(), LtrError::InvalidDataPoint("Missing feature value."));
    assert_eq!(parse("1 qid:18446744073709551616").unwrap_err(), LtrError::InvalidDataPoint("Invalid qid parameter."));
    assert_eq!(parse("1 qid:18446744073709551615").unwrap().query_id, u64::MAX);
}

#[test]
fn into_datapoint_fills_gaps_with_zero() {
    let d = load_datapoint("1 qid:3 4:1.5 2:2.5 4:3.5").unwrap();
    let expected: Vec<u32> = [0.0f32, 2.5, 0.0, 3.5].iter().map(|x| x.to_bits()).collect();
    assert_eq!(d.get_features(), &expected);
}

#[test]
fn group_by_query_cuts_where_the_query_changes() {
    let points: Vec<DataPoint> = [1u64, 1, 2, 2, 2, 1]
        .iter()
        .map(|q| DataPoint::new(0, *q, vec![], None))
        .collect();
    let dataset = SVMLight::group_by_query(points);
    let sizes: Vec<usize> = dataset.iter().map(|l| l.len()).collect();
    assert_eq!(sizes, vec![2, 3, 1]);
    assert_eq!(dataset[2].get(0).unwrap().get_query_id(), 1);
    assert!(SVMLight::group_by_query(vec![]).is_empty());
}
