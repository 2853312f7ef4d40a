//! Learning to rank with AdaRank: a boosting procedure that repeatedly
//! selects single-feature weak rankers and combines them into a weighted
//! ensemble, driven directly by an information-retrieval metric.
//!
//! Feature values and scores are IEEE-754 single-precision numbers carried
//! as their bit patterns (`u32`); the library orders them as IEEE-754 orders
//! their values (see [`float`]) and never does arithmetic on them.
//!
//! - [`datapoint`], [`ranklist`]: the data model, with the permutation and
//!   the stable rankings by label, feature or score.
//! - [`weak`]: the single-feature ranker.
//! - [`eval`]: the exact counts behind Mean Average Precision and
//!   Precision@K.
//! - [`adarank`]: the decisions of AdaRank training.
//! - [`svmlight`]: the SVM-light line format.
//! - [`utils`]: plain-text tables for training reports.
use vstd::prelude::*;

pub mod adarank;
pub mod datapoint;
pub mod error;
pub mod eval;
pub mod float;
pub mod order;
pub mod ranklist;
pub mod svmlight;
pub mod text;
pub mod utils;
pub mod weak;

verus! {

/// The lists of a dataset, one per query.
pub type DataSet = Vec<ranklist::RankList>;

} // verus!
