//! One labeled, featurized item of a query.
use crate::error::LtrError;
use vstd::prelude::*;
use vstd::string::StringExecFns;

verus! {

/// What a [`DataPoint`] holds.
pub ghost struct DataPointView {
    pub label: u8,
    pub query_id: u64,
    /// Feature `i` (1-based) is `features[i - 1]`, as a single-precision
    /// bit pattern.
    pub features: Seq<u32>,
    pub description: Option<Seq<char>>,
}

impl DataPointView {
    /// Whether `index` names a feature: feature indices start at 1.
    pub open spec fn has_feature(self, index: int) -> bool {
        1 <= index <= self.features.len()
    }

    /// The value of feature `index`; meaningful when [`Self::has_feature`].
    pub open spec fn feature(self, index: int) -> u32 {
        self.features[index - 1]
    }
}

/// A single training item: a relevance label, the query it belongs to, its
/// feature values and an optional description.
///
/// Two items are equal when their labels and query ids are; they are ordered
/// by label alone.
#[derive(Debug)]
pub struct DataPoint {
    label: u8,
    query_id: u64,
    features: Vec<u32>,
    description: Option<String>,
}

impl View for DataPoint {
    type V = DataPointView;

    closed spec fn view(&self) -> DataPointView {
        DataPointView {
            label: self.label,
            query_id: self.query_id,
            features: self.features@,
            description: match self.description {
                Some(d) => Some(d@),
                None => None,
            },
        }
    }
}

impl Clone for DataPoint {
    fn clone(&self) -> (r: Self)
        ensures
            r@ == self@,
    {
        let description = match &self.description {
            Some(d) => Some(d.clone()),
            None => None,
        };
        let mut features: Vec<u32> = Vec::new();
        let mut i: usize = 0;
        while i < self.features.len()
            invariant
                i <= self.features@.len(),
                features@ == self.features@.subrange(0, i as int),
            decreases self.features@.len() - i,
        {
            features.push(self.features[i]);
            i = i + 1;
            assert(features@ =~= self.features@.subrange(0, i as int));
        }
        assert(features@ =~= self.features@);
        DataPoint { label: self.label, query_id: self.query_id, features, description }
    }
}

impl DataPoint {
    /// An item with label 0, query 0, no features and no description.
    pub fn empty() -> (r: DataPoint)
        ensures
            r@ == (DataPointView { label: 0, query_id: 0, features: seq![], description: None }),
    {
        let r = DataPoint { label: 0, query_id: 0, features: Vec::new(), description: None };
        assert(r@.features =~= seq![]);
        r
    }

    /// A new item.
    pub fn new(label: u8, query_id: u64, features: Vec<u32>, description: Option<&str>) -> (r: DataPoint)
        ensures
            r@.label == label,
            r@.query_id == query_id,
            r@.features == features@,
            r@.description == match description {
                Some(d) => Some(d@),
                None => None::<Seq<char>>,
            },
    {
        let description = match description {
            Some(d) => Some(String::from_str(d)),
            None => None,
        };
        DataPoint { label, query_id, features, description }
    }

    pub fn get_label(&self) -> (r: u8)
        ensures
            r == self@.label,
    {
        self.label
    }

    pub fn get_query_id(&self) -> (r: u64)
        ensures
            r == self@.query_id,
    {
        self.query_id
    }

    pub fn get_features(&self) -> (r: &Vec<u32>)
        ensures
            r@ == self@.features,
    {
        &self.features
    }

    /// The value of feature `index`, counted from 1.
    pub fn get_feature(&self, index: usize) -> (r: Result<&u32, LtrError>)
        ensures
            self@.has_feature(index as int) ==> r == Ok::<&u32, LtrError>(&self@.feature(index as int)),
            !self@.has_feature(index as int) ==> r == Err::<&u32, LtrError>(
                LtrError::FeatureIndexOutOfBounds(index),
            ),
    {
        if index == 0 || index > self.features.len() {
            return Err(LtrError::FeatureIndexOutOfBounds(index));
        }
        Ok(&self.features[index - 1])
    }

    pub fn get_description(&self) -> (r: Option<&String>)
        ensures
            match r {
                Some(d) => self@.description == Some(d@),
                None => self@.description is None,
            },
    {
        self.description.as_ref()
    }

    pub fn set_label(&mut self, label: u8)
        ensures
            final(self)@ == (DataPointView { label, ..old(self)@ }),
    {
        self.label = label;
    }

    pub fn set_query_id(&mut self, query_id: u64)
        ensures
            final(self)@ == (DataPointView { query_id, ..old(self)@ }),
    {
        self.query_id = query_id;
    }

    /// Appends a feature; it gets the next index.
    pub fn add_feature(&mut self, feature: u32) -> (r: Result<(), LtrError>)
        ensures
            r is Ok,
            final(self)@ == (DataPointView { features: old(self)@.features.push(feature), ..old(self)@ }),
    {
        self.features.push(feature);
        Ok(())
    }

    /// Replaces the value of feature `index`, counted from 1.
    pub fn set_feature(&mut self, index: usize, feature: u32) -> (r: Result<(), LtrError>)
        ensures
            old(self)@.has_feature(index as int) ==> r is Ok && final(self)@ == (DataPointView {
                features: old(self)@.features.update(index - 1, feature),
                ..old(self)@
            }),
            !old(self)@.has_feature(index as int) ==> r == Err::<(), LtrError>(
                LtrError::FeatureIndexOutOfBounds(index),
            ) && final(self)@ == old(self)@,
    {
        if index == 0 || index > self.features.len() {
            return Err(LtrError::FeatureIndexOutOfBounds(index));
        }
        self.features.set(index - 1, feature);
        Ok(())
    }

    /// Replaces all feature values.
    pub fn set_features(&mut self, features: Vec<u32>) -> (r: Result<(), LtrError>)
        ensures
            r is Ok,
            final(self)@ == (DataPointView { features: features@, ..old(self)@ }),
    {
        self.features = features;
        Ok(())
    }

    pub fn set_description(&mut self, description: &str)
        ensures
            final(self)@ == (DataPointView { description: Some(description@), ..old(self)@ }),
    {
        self.description = Some(String::from_str(description));
    }
}

impl PartialEq for DataPoint {
    fn eq(&self, other: &DataPoint) -> (r: bool)
        ensures
            r == (self@.label == other@.label && self@.query_id == other@.query_id),
    {
        self.label == other.label && self.query_id == other.query_id
    }
}

impl vstd::std_specs::cmp::PartialEqSpecImpl for DataPoint {
    open spec fn obeys_eq_spec() -> bool {
        true
    }

    open spec fn eq_spec(&self, other: &DataPoint) -> bool {
        self@.label == other@.label && self@.query_id == other@.query_id
    }
}

impl Eq for DataPoint {}

impl PartialOrd for DataPoint {
    fn partial_cmp(&self, other: &DataPoint) -> (r: Option<core::cmp::Ordering>)
        ensures
            r == Some(crate::datapoint::label_order(self@.label, other@.label)),
    {
        if self.label < other.label {
            Some(core::cmp::Ordering::Less)
        } else if self.label > other.label {
            Some(core::cmp::Ordering::Greater)
        } else {
            Some(core::cmp::Ordering::Equal)
        }
    }
}

impl vstd::std_specs::cmp::PartialOrdSpecImpl for DataPoint {
    open spec fn obeys_partial_cmp_spec() -> bool {
        true
    }

    open spec fn partial_cmp_spec(&self, other: &DataPoint) -> Option<core::cmp::Ordering> {
        Some(label_order(self@.label, other@.label))
    }
}

/// How two labels compare.
pub open spec fn label_order(a: u8, b: u8) -> core::cmp::Ordering {
    if a < b {
        core::cmp::Ordering::Less
    } else if a > b {
        core::cmp::Ordering::Greater
    } else {
        core::cmp::Ordering::Equal
    }
}

} // verus!
