//! Permutations of positions and the ranking order they are sorted into.
use vstd::prelude::*;

verus! {

/// `p` lists every position `0..n` exactly once.
pub open spec fn is_permutation(p: Seq<usize>, n: nat) -> bool {
    &&& p.len() == n
    &&& forall|i: int| 0 <= i < p.len() ==> p[i] < n
    &&& forall|i: int, j: int| 0 <= i < j < p.len() ==> p[i] != p[j]
}

/// Position `a` is ranked above position `b`: its key is larger, or the keys
/// are equal and `a` came first.
pub open spec fn ranks_before(keys: Seq<i64>, a: int, b: int) -> bool {
    keys[a] > keys[b] || (keys[a] == keys[b] && a < b)
}

/// `p` orders the positions of `keys` by descending key, ties kept in their
/// original order.
pub open spec fn is_ranking(p: Seq<usize>, keys: Seq<i64>) -> bool {
    &&& is_permutation(p, keys.len())
    &&& forall|i: int, j: int| 0 <= i < j < p.len() ==> ranks_before(keys, p[i] as int, p[j] as int)
}

/// The sequence `s` read in the order `p`: position `i` holds `s[p[i]]`.
pub open spec fn permuted<T>(s: Seq<T>, p: Seq<usize>) -> Seq<T> {
    Seq::new(p.len(), |i: int| s[p[i] as int])
}

/// The positions of `keys` sorted by descending key; equal keys keep their
/// original order.
pub fn ranking_order(keys: &Vec<i64>) -> (p: Vec<usize>)
    ensures
        is_ranking(p@, keys@),
{
    let n = keys.len();
    let mut p: Vec<usize> = Vec::new();
    let mut k: usize = 0;
    while k < n
        invariant
            n == keys@.len(),
            k <= n,
            p@.len() == k,
            forall|i: int| 0 <= i < p@.len() ==> p@[i] < k,
            forall|i: int, j: int| 0 <= i < j < p@.len() ==> p@[i] != p@[j],
            forall|i: int, j: int|
                0 <= i < j < p@.len() ==> ranks_before(keys@, p@[i] as int, p@[j] as int),
        decreases n - k,
    {
        let mut pos: usize = 0;
        while pos < p.len() && keys[p[pos]] >= keys[k]
            invariant
                n == keys@.len(),
                k < n,
                pos <= p@.len(),
                forall|i: int| 0 <= i < p@.len() ==> p@[i] < k,
                forall|i: int| 0 <= i < pos ==> keys@[p@[i] as int] >= keys@[k as int],
            decreases p@.len() - pos,
        {
            pos = pos + 1;
        }
        let ghost old_p = p@;
        p.insert(pos, k);
        assert(p@ == old_p.insert(pos as int, k));
        assert forall|i: int, j: int| 0 <= i < j < p@.len() implies ranks_before(
            keys@,
            p@[i] as int,
            p@[j] as int,
        ) by {
            if j < pos {
            } else if j == pos {
                assert(p@[i] == old_p[i]);
            } else if i < pos {
                assert(p@[i] == old_p[i]);
                assert(p@[j] == old_p[j - 1]);
            } else if i == pos {
                assert(p@[j] == old_p[j - 1]);
                assert(keys@[old_p[pos as int] as int] < keys@[k as int]);
                if j - 1 > pos {
                    assert(ranks_before(keys@, old_p[pos as int] as int, old_p[j - 1] as int));
                }
            } else {
                assert(p@[i] == old_p[i - 1]);
                assert(p@[j] == old_p[j - 1]);
            }
        }
        assert forall|i: int, j: int| 0 <= i < j < p@.len() implies p@[i] != p@[j] by {
            if i < pos && j < pos {
            } else if i < pos && j == pos {
            } else if i < pos {
                assert(p@[j] == old_p[j - 1]);
            } else if i == pos {
                assert(p@[j] == old_p[j - 1]);
            } else {
                assert(p@[i] == old_p[i - 1]);
                assert(p@[j] == old_p[j - 1]);
            }
        }
        k = k + 1;
    }
    p
}

} // verus!
