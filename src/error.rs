//! The errors of the library.
use crate::text::{decimal, push_decimal};
use vstd::prelude::*;
use vstd::string::StringExecFns;

verus! {

/// All errors specific to the library.
///
/// Feature indices are 1-based: index `0` is never a valid feature.
#[derive(Debug, Clone, PartialEq, Eq)]
pub enum LtrError {
    /// A feature index that is `0` or beyond the number of features.
    FeatureIndexOutOfBounds(usize),
    /// An index that is not a position of the `RankList`, or a permutation
    /// that is not a bijection.
    RankListIndexOutOfBounds(usize),
    /// A `DataPoint` that could not be built.
    InvalidDataPoint(&'static str),
    /// A metric evaluated on an empty input.
    EvaluationError(&'static str),
    /// A text input that does not follow its format.
    ParseError(&'static str),
    /// A failure while reading or writing.
    IOError(String),
    /// A learner that holds no ranker.
    NoRankers,
}

impl LtrError {
    /// The message that describes the error.
    pub open spec fn message(&self) -> Seq<char> {
        match self {
            LtrError::FeatureIndexOutOfBounds(i) => "Feature index out of bounds: "@ + decimal(*i as nat),
            LtrError::RankListIndexOutOfBounds(i) => "RankList index out of bounds: "@ + decimal(*i as nat),
            LtrError::InvalidDataPoint(m) => "Invalid datapoint: "@ + m@,
            LtrError::EvaluationError(m) => "Evaluation error: "@ + m@,
            LtrError::ParseError(m) => "Error while parsing an input: "@ + m@,
            LtrError::IOError(m) => "Error while reading or writing an input: "@ + m@,
            LtrError::NoRankers => "No rankers were built. Run `fit` first."@,
        }
    }

    /// Renders the error as text.
    pub fn to_string(&self) -> (r: String)
        ensures
            r@ == self.message(),
    {
        match self {
            LtrError::FeatureIndexOutOfBounds(i) => {
                let mut s = String::from_str("Feature index out of bounds: ");
                push_decimal(&mut s, *i);
                s
            },
            LtrError::RankListIndexOutOfBounds(i) => {
                let mut s = String::from_str("RankList index out of bounds: ");
                push_decimal(&mut s, *i);
                s
            },
            LtrError::InvalidDataPoint(m) => {
                let mut s = String::from_str("Invalid datapoint: ");
                s.append(m);
                s
            },
            LtrError::EvaluationError(m) => {
                let mut s = String::from_str("Evaluation error: ");
                s.append(m);
                s
            },
            LtrError::ParseError(m) => {
                let mut s = String::from_str("Error while parsing an input: ");
                s.append(m);
                s
            },
            LtrError::IOError(m) => {
                let mut s = String::from_str("Error while reading or writing an input: ");
                s.append(m.as_str());
                s
            },
            LtrError::NoRankers => String::from_str("No rankers were built. Run `fit` first."),
        }
    }
}

} // verus!
