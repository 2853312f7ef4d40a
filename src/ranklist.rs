//! An ordered list of items that share one query.
use crate::datapoint::{DataPoint, DataPointView};
use crate::error::LtrError;
use crate::float::{order_key, order_key_of};
use crate::order::{is_permutation, is_ranking, permuted, ranking_order};
use crate::text::{decimal, push_decimal};
use vstd::prelude::*;
use vstd::string::StringExecFns;

verus! {

/// Entry `i` of `p` is out of range or repeats an earlier entry.
pub open spec fn rejects_entry(p: Seq<usize>, n: nat, i: int) -> bool {
    p[i] >= n || exists|j: int| 0 <= j < i && p[j] == p[i]
}

/// The index reported when `p` is not a permutation of `0..n`: the first
/// entry that is out of range or repeated, else the length of `p`.
pub open spec fn rejected_index(p: Seq<usize>, n: nat, x: usize) -> bool {
    ||| exists|i: int|
        0 <= i < p.len() && rejects_entry(p, n, i) && x == p[i] && forall|j: int|
            0 <= j < i ==> !rejects_entry(p, n, j)
    ||| (forall|i: int| 0 <= i < p.len() ==> !rejects_entry(p, n, i)) && x == p.len()
}

/// The labels of the items, in list order.
pub open spec fn labels(s: Seq<DataPointView>) -> Seq<u8> {
    Seq::new(s.len(), |i: int| s[i].label)
}

/// Ranking keys that order the items by label.
pub open spec fn label_keys(s: Seq<DataPointView>) -> Seq<i64> {
    Seq::new(s.len(), |i: int| s[i].label as i64)
}

/// Ranking keys that order the items by the value of feature `index`.
pub open spec fn feature_keys(s: Seq<DataPointView>, index: int) -> Seq<i64> {
    Seq::new(s.len(), |i: int| order_key(s[i].feature(index)) as i64)
}

/// Ranking keys that order positions by the values of `scores`.
pub open spec fn score_keys(scores: Seq<u32>) -> Seq<i64> {
    Seq::new(scores.len(), |i: int| order_key(scores[i]) as i64)
}

/// `after` is `before` reordered by the ranking of `keys`.
pub open spec fn ranked_by(before: Seq<DataPointView>, after: Seq<DataPointView>, keys: Seq<i64>) -> bool {
    exists|p: Seq<usize>| is_ranking(p, keys) && after == permuted(before, p)
}

/// The views of the items of `v`.
pub open spec fn views(v: Seq<DataPoint>) -> Seq<DataPointView> {
    Seq::new(v.len(), |i: int| v[i]@)
}

/// Reading position `i` after a permutation `p` gives the item that was at
/// `p[i]`; a sequence that is not a permutation is refused (see
/// [`RankList::permute`]).
pub proof fn lemma_permute_then_read(before: Seq<DataPointView>, p: Seq<usize>, i: int)
    requires
        is_permutation(p, before.len()),
        0 <= i < before.len(),
    ensures
        permuted(before, p).len() == before.len(),
        permuted(before, p)[i] == before[p[i] as int],
{
}

/// A list of [`DataPoint`]s of one query, in the order in which they are
/// ranked. That the items share a query is the caller's concern.
#[derive(Debug)]
pub struct RankList {
    data_points: Vec<DataPoint>,
}

impl View for RankList {
    type V = Seq<DataPointView>;

    closed spec fn view(&self) -> Seq<DataPointView> {
        views(self.data_points@)
    }
}

impl Clone for RankList {
    fn clone(&self) -> (r: Self)
        ensures
            r@ == self@,
    {
        let mut data_points: Vec<DataPoint> = Vec::new();
        let mut i: usize = 0;
        while i < self.data_points.len()
            invariant
                i <= self.data_points@.len(),
                data_points@.len() == i,
                self@.len() == self.data_points@.len(),
                views(data_points@) == self@.subrange(0, i as int),
            decreases self.data_points@.len() - i,
        {
            let c = self.data_points[i].clone();
            assert(c@ == self@[i as int]);
            let ghost before = data_points@;
            data_points.push(c);
            assert(data_points@ == before.push(c));
            assert(views(before) == self@.subrange(0, i as int));
            assert forall|k: int| 0 <= k < i implies views(data_points@)[k] == self@[k] by {
                assert(views(before)[k] == self@.subrange(0, i as int)[k]);
            }
            i = i + 1;
            assert(views(data_points@) =~= self@.subrange(0, i as int));
        }
        assert(self@.subrange(0, i as int) =~= self@);
        RankList { data_points }
    }
}

impl RankList {
    pub fn new(data_points: Vec<DataPoint>) -> (r: RankList)
        ensures
            r@ == views(data_points@),
    {
        RankList { data_points }
    }

    pub fn len(&self) -> (r: usize)
        ensures
            r == self@.len(),
    {
        self.data_points.len()
    }

    /// The item at position `index`.
    pub fn get(&self, index: usize) -> (r: Result<&DataPoint, LtrError>)
        ensures
            index < self@.len() ==> r is Ok && r->Ok_0@ == self@[index as int],
            index >= self@.len() ==> r == Err::<&DataPoint, LtrError>(
                LtrError::RankListIndexOutOfBounds(index),
            ),
    {
        if index < self.data_points.len() {
            Ok(&self.data_points[index])
        } else {
            Err(LtrError::RankListIndexOutOfBounds(index))
        }
    }

    /// Replaces the item at position `index`.
    pub fn set(&mut self, index: usize, data_point: DataPoint) -> (r: Result<(), LtrError>)
        ensures
            index < old(self)@.len() ==> r is Ok && final(self)@ == old(self)@.update(
                index as int,
                data_point@,
            ),
            index >= old(self)@.len() ==> r == Err::<(), LtrError>(
                LtrError::RankListIndexOutOfBounds(index),
            ) && final(self)@ == old(self)@,
    {
        if index < self.data_points.len() {
            self.data_points.set(index, data_point);
            assert(self@ =~= old(self)@.update(index as int, data_point@));
            Ok(())
        } else {
            Err(LtrError::RankListIndexOutOfBounds(index))
        }
    }

    /// Reorders the list so that position `i` holds the item that was at
    /// `permutation[i]`. A `permutation` that does not list every position
    /// exactly once is refused and leaves the list as it was.
    pub fn permute(&mut self, permutation: Vec<usize>) -> (r: Result<(), LtrError>)
        ensures
            is_permutation(permutation@, old(self)@.len()) ==> r is Ok && final(self)@ == permuted(
                old(self)@,
                permutation@,
            ),
            !is_permutation(permutation@, old(self)@.len()) ==> final(self)@ == old(self)@ && (
            match r {
                Err(LtrError::RankListIndexOutOfBounds(x)) => rejected_index(
                    permutation@,
                    old(self)@.len(),
                    x,
                ),
                _ => false,
            }),
    {
        let n = self.data_points.len();
        let ghost p = permutation@;
        let mut seen: Vec<bool> = Vec::new();
        let mut k: usize = 0;
        while k < n
            invariant
                k <= n,
                seen@.len() == k,
                forall|v: int| 0 <= v < k ==> !seen@[v],
            decreases n - k,
        {
            seen.push(false);
            k = k + 1;
        }
        let mut i: usize = 0;
        while i < permutation.len()
            invariant
                n == old(self)@.len(),
                self@ == old(self)@,
                permutation@ == p,
                i <= p.len(),
                seen@.len() == n,
                forall|j: int| 0 <= j < i ==> !rejects_entry(p, n as nat, j),
                forall|v: int|
                    0 <= v < n ==> (seen@[v] <==> exists|j: int| 0 <= j < i && p[j] == v),
            decreases p.len() - i,
        {
            let x = permutation[i];
            if x >= n || seen[x] {
                assert(rejects_entry(p, n as nat, i as int));
                assert(rejected_index(p, n as nat, x));
                return Err(LtrError::RankListIndexOutOfBounds(x));
            }
            seen.set(x, true);
            i = i + 1;
        }
        if permutation.len() != n {
            assert(!is_permutation(p, n as nat));
            return Err(LtrError::RankListIndexOutOfBounds(permutation.len()));
        }
        assert forall|a: int, b: int| 0 <= a < b < p.len() implies p[a] != p[b] by {
            assert(!rejects_entry(p, n as nat, b));
        }
        assert forall|a: int| 0 <= a < n implies p[a] < n by {
            assert(!rejects_entry(p, n as nat, a));
        }
        let mut reordered: Vec<DataPoint> = Vec::new();
        let mut j: usize = 0;
        while j < n
            invariant
                n == old(self)@.len(),
                self@ == old(self)@,
                permutation@ == p,
                p.len() == n,
                forall|a: int| 0 <= a < n ==> p[a] < n,
                j <= n,
                reordered@.len() == j,
                views(reordered@) == permuted(old(self)@, p).subrange(
                    0,
                    j as int,
                ),
            decreases n - j,
        {
            let c = self.data_points[permutation[j]].clone();
            assert(c@ == old(self)@[p[j as int] as int]);
            let ghost before = reordered@;
            reordered.push(c);
            assert(reordered@ == before.push(c));
            assert forall|k: int| 0 <= k < j implies views(reordered@)[k] == permuted(old(self)@, p)[k] by {
                assert(views(before)[k] == permuted(old(self)@, p).subrange(0, j as int)[k]);
            }
            j = j + 1;
            assert(views(reordered@) =~= permuted(old(self)@, p).subrange(
                0,
                j as int,
            ));
        }
        self.data_points = reordered;
        assert(self@ =~= permuted(old(self)@, p));
        Ok(())
    }

    /// Reorders the list by descending key; equal keys keep their order.
    fn rank_by_keys(&mut self, keys: &Vec<i64>)
        requires
            keys@.len() == old(self)@.len(),
        ensures
            ranked_by(old(self)@, final(self)@, keys@),
    {
        let p = ranking_order(keys);
        let ghost pv = p@;
        let outcome = self.permute(p);
        assert(outcome is Ok);
        assert(self@ == permuted(old(self)@, pv));
    }

    /// Sorts the list by descending label, the ground-truth order; items with
    /// equal labels keep their order.
    pub fn rank(&mut self) -> (r: Result<(), LtrError>)
        ensures
            r is Ok,
            ranked_by(old(self)@, final(self)@, label_keys(old(self)@)),
    {
        let mut keys: Vec<i64> = Vec::new();
        let mut i: usize = 0;
        while i < self.data_points.len()
            invariant
                self@ == old(self)@,
                i <= self@.len(),
                keys@ == label_keys(self@).subrange(0, i as int),
            decreases self@.len() - i,
        {
            keys.push(self.data_points[i].get_label() as i64);
            i = i + 1;
            assert(keys@ =~= label_keys(self@).subrange(0, i as int));
        }
        assert(keys@ =~= label_keys(self@));
        self.rank_by_keys(&keys);
        Ok(())
    }

    /// Sorts the list by the descending value of feature `feature_index`;
    /// items with equal values keep their order. Refused, leaving the list
    /// as it was, when an item lacks that feature.
    pub fn rank_by_feature(&mut self, feature_index: usize) -> (r: Result<(), LtrError>)
        ensures
            (forall|i: int| 0 <= i < old(self)@.len() ==> old(self)@[i].has_feature(feature_index as int))
                ==> r is Ok && ranked_by(
                old(self)@,
                final(self)@,
                feature_keys(old(self)@, feature_index as int),
            ),
            !(forall|i: int| 0 <= i < old(self)@.len() ==> old(self)@[i].has_feature(feature_index as int))
                ==> r == Err::<(), LtrError>(LtrError::FeatureIndexOutOfBounds(feature_index))
                && final(self)@ == old(self)@,
    {
        let mut keys: Vec<i64> = Vec::new();
        let mut i: usize = 0;
        while i < self.data_points.len()
            invariant
                self@ == old(self)@,
                i <= self@.len(),
                forall|j: int| 0 <= j < i ==> self@[j].has_feature(feature_index as int),
                keys@ == feature_keys(self@, feature_index as int).subrange(0, i as int),
            decreases self@.len() - i,
        {
            match self.data_points[i].get_feature(feature_index) {
                Ok(v) => keys.push(order_key_of(*v)),
                Err(e) => {
                    assert(!old(self)@[i as int].has_feature(feature_index as int));
                    return Err(e);
                },
            }
            i = i + 1;
            assert(keys@ =~= feature_keys(self@, feature_index as int).subrange(0, i as int));
        }
        assert(keys@ =~= feature_keys(self@, feature_index as int));
        self.rank_by_keys(&keys);
        Ok(())
    }

    /// Sorts the list by descending score, where `scores[i]` is the score of
    /// the item at position `i`; items with equal scores keep their order.
    pub fn rank_by_scores(&mut self, scores: &Vec<u32>)
        requires
            scores@.len() == old(self)@.len(),
        ensures
            ranked_by(old(self)@, final(self)@, score_keys(scores@)),
    {
        let mut keys: Vec<i64> = Vec::new();
        let mut i: usize = 0;
        while i < scores.len()
            invariant
                i <= scores@.len(),
                keys@ == score_keys(scores@).subrange(0, i as int),
            decreases scores@.len() - i,
        {
            keys.push(order_key_of(scores[i]));
            i = i + 1;
            assert(keys@ =~= score_keys(scores@).subrange(0, i as int));
        }
        assert(keys@ =~= score_keys(scores@));
        self.rank_by_keys(&keys);
    }

    /// A one-line description of the list.
    pub fn to_string(&self) -> (r: String)
        ensures
            r@ == "RankList object with "@ + decimal(self@.len()) + " data points"@,
    {
        let mut s = String::from_str("RankList object with ");
        push_decimal(&mut s, self.data_points.len());
        s.append(" data points");
        s
    }
}

} // verus!
