use ltrs::error::LtrError;

#[test]
fn test_display_error_message() {
    assert_eq!("Feature index out of bounds: 2", LtrError::FeatureIndexOutOfBounds(2).to_string());
    assert_eq!("RankList index out of bounds: 10", LtrError::RankListIndexOutOfBounds(10).to_string());
    assert_eq!("Invalid datapoint: Test", LtrError::InvalidDataPoint("Test").to_string());
    assert_eq!("Evaluation error: Foo", LtrError::EvaluationError("Foo").to_string());
    assert_eq!("Error while parsing an input: Unknown", LtrError::ParseError("Unknown").to_string());
    assert_eq!("Error while reading or writing an input: I/O", LtrError::IOError("I/O".to_string()).to_string());
    assert_eq!("No rankers were built. Run `fit` first.", LtrError::NoRankers.to_string());
}

#[test]
fn error_messages_print_multi_digit_indices() {
    assert_eq!("Feature index out of bounds: 0", LtrError::FeatureIndexOutOfBounds(0).to_string());
    assert_eq!("RankList index out of bounds: 1234567", LtrError::RankListIndexOutOfBounds(1234567).to_string());
    assert_eq!(
        format!("Feature index out of bounds: {}", usize::MAX),
        LtrError::FeatureIndexOutOfBounds(usize::MAX).to_string()
    );
}
