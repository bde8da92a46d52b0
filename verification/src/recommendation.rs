//! Recommendations: merging the lists that several recommenders produce.

use crate::text::str_eq;
use vstd::prelude::*;

verus! {

/// Recommendation rules.
pub struct RecommendationService {}

/// Whether position `i` of a list of article ids holds the first recommendation of its
/// article.
pub open spec fn spec_first_of_article(ids: Seq<Seq<char>>, i: int) -> bool {
    forall|j: int| 0 <= j < i ==> ids[j] != ids[i]
}

/// The positions, in order, of the first `n` entries of a list of article ids that hold
/// the first recommendation of their article.
pub open spec fn spec_first_positions(ids: Seq<Seq<char>>, n: int) -> Seq<int>
    decreases n,
{
    if n <= 0 {
        Seq::empty()
    } else if spec_first_of_article(ids, n - 1) {
        spec_first_positions(ids, n - 1).push(n - 1)
    } else {
        spec_first_positions(ids, n - 1)
    }
}

/// The kept positions of the first `n` entries lie below `n` and increase.
proof fn lemma_positions_ordered(ids: Seq<Seq<char>>, n: int)
    requires
        0 <= n <= ids.len(),
    ensures
        forall|k: int|
            0 <= k < spec_first_positions(ids, n).len() ==> 0 <= #[trigger] spec_first_positions(ids, n)[k] < n,
        forall|k1: int, k2: int|
            #![trigger spec_first_positions(ids, n)[k1], spec_first_positions(ids, n)[k2]]
            0 <= k1 < k2 < spec_first_positions(ids, n).len() ==> spec_first_positions(ids, n)[k1]
                < spec_first_positions(ids, n)[k2],
    decreases n,
{
    if n > 0 {
        lemma_positions_ordered(ids, n - 1);
        let prev = spec_first_positions(ids, n - 1);
        let cur = spec_first_positions(ids, n);
        if spec_first_of_article(ids, n - 1) {
            assert(cur == prev.push(n - 1));
        } else {
            assert(cur == prev);
        }
        assert forall|k: int| 0 <= k < cur.len() implies 0 <= #[trigger] cur[k] < n by {
            if k < prev.len() {
                assert(cur[k] == prev[k]);
            }
        }
        assert forall|k1: int, k2: int| #![trigger cur[k1], cur[k2]] 0 <= k1 < k2 < cur.len() implies cur[k1] < cur[k2] by {
            assert(cur[k1] == prev[k1]);
            if k2 < prev.len() {
                assert(cur[k2] == prev[k2]);
            }
        }
    }
}

/// Each kept position of the first `n` entries holds an article that occurs at no earlier
/// position.
proof fn lemma_positions_first(ids: Seq<Seq<char>>, n: int)
    requires
        0 <= n <= ids.len(),
    ensures
        forall|k: int|
            0 <= k < spec_first_positions(ids, n).len() ==> spec_first_of_article(
                ids,
                #[trigger] spec_first_positions(ids, n)[k],
            ),
    decreases n,
{
    if n > 0 {
        lemma_positions_first(ids, n - 1);
        let prev = spec_first_positions(ids, n - 1);
        let cur = spec_first_positions(ids, n);
        if spec_first_of_article(ids, n - 1) {
            assert(cur == prev.push(n - 1));
        } else {
            assert(cur == prev);
        }
        assert forall|k: int| 0 <= k < cur.len() implies spec_first_of_article(ids, #[trigger] cur[k]) by {
            if k < prev.len() {
                assert(cur[k] == prev[k]);
            }
        }
    }
}

/// Every article among the first `n` entries is kept at some position.
proof fn lemma_positions_complete(ids: Seq<Seq<char>>, n: int, i: int)
    requires
        0 <= i < n <= ids.len(),
    ensures
        exists|k: int| 0 <= k < spec_first_positions(ids, n).len() && ids[#[trigger] spec_first_positions(ids, n)[k]] == ids[i],
    decreases n,
{
    let prev = spec_first_positions(ids, n - 1);
    let cur = spec_first_positions(ids, n);
    if spec_first_of_article(ids, n - 1) {
        assert(cur == prev.push(n - 1));
    } else {
        assert(cur == prev);
    }
    if i < n - 1 {
        lemma_positions_complete(ids, n - 1, i);
        let k = choose|k: int| 0 <= k < prev.len() && ids[#[trigger] prev[k]] == ids[i];
        assert(cur[k] == prev[k]);
    } else if spec_first_of_article(ids, n - 1) {
        assert(cur[prev.len() as int] == n - 1);
    } else {
        let j = choose|j: int| 0 <= j < n - 1 && #[trigger] ids[j] == ids[n - 1];
        lemma_positions_complete(ids, n - 1, j);
        let k = choose|k: int| 0 <= k < prev.len() && ids[#[trigger] prev[k]] == ids[j];
        assert(cur[k] == prev[k]);
    }
}

/// Merging recommendation lists keeps, in list order, the first recommendation of each
/// article and only that: every kept position holds an article that occurs at no earlier
/// position, no article is kept twice, and every article of the list is kept.
pub proof fn law_first_of_each_article(ids: Seq<Seq<char>>)
    ensures
        forall|k1: int, k2: int|
            #![trigger spec_first_positions(ids, ids.len() as int)[k1], spec_first_positions(ids, ids.len() as int)[k2]]
            0 <= k1 < k2 < spec_first_positions(ids, ids.len() as int).len() ==> spec_first_positions(
                ids,
                ids.len() as int,
            )[k1] < spec_first_positions(ids, ids.len() as int)[k2],
        forall|k: int, j: int|
            #![trigger ids[j], spec_first_positions(ids, ids.len() as int)[k]]
            0 <= k < spec_first_positions(ids, ids.len() as int).len() && 0 <= j < spec_first_positions(
                ids,
                ids.len() as int,
            )[k] ==> ids[j] != ids[spec_first_positions(ids, ids.len() as int)[k]],
        forall|k1: int, k2: int|
            #![trigger spec_first_positions(ids, ids.len() as int)[k1], spec_first_positions(ids, ids.len() as int)[k2]]
            0 <= k1 < spec_first_positions(ids, ids.len() as int).len() && 0 <= k2 < spec_first_positions(
                ids,
                ids.len() as int,
            ).len() && k1 != k2 ==> ids[spec_first_positions(ids, ids.len() as int)[k1]] != ids[spec_first_positions(
                ids,
                ids.len() as int,
            )[k2]],
        forall|i: int|
            #![trigger ids[i]]
            0 <= i < ids.len() ==> exists|k: int|
                0 <= k < spec_first_positions(ids, ids.len() as int).len() && ids[#[trigger] spec_first_positions(
                    ids,
                    ids.len() as int,
                )[k]] == ids[i],
{
    let n = ids.len() as int;
    lemma_positions_ordered(ids, n);
    lemma_positions_first(ids, n);
    let p = spec_first_positions(ids, n);
    assert forall|k: int, j: int| #![trigger ids[j], p[k]] 0 <= k < p.len() && 0 <= j < p[k] implies ids[j] != ids[p[k]] by {
        assert(spec_first_of_article(ids, p[k]));
    }
    assert forall|k1: int, k2: int| #![trigger p[k1], p[k2]] 0 <= k1 < p.len() && 0 <= k2 < p.len() && k1 != k2 implies ids[p[k1]]
        != ids[p[k2]] by {
        if k1 < k2 {
            assert(spec_first_of_article(ids, p[k2]));
        } else {
            assert(spec_first_of_article(ids, p[k1]));
        }
    }
    assert forall|i: int| #![trigger ids[i]] 0 <= i < ids.len() implies exists|k: int|
        0 <= k < spec_first_positions(ids, ids.len() as int).len() && ids[#[trigger] spec_first_positions(
            ids,
            ids.len() as int,
        )[k]] == ids[i] by {
        lemma_positions_complete(ids, ids.len() as int, i);
    }
}

/// The text of each article id.
pub open spec fn spec_id_views(ids: Seq<String>) -> Seq<Seq<char>> {
    Seq::new(ids.len(), |i: int| ids[i]@)
}

impl RecommendationService {
    /// Which recommendations a merged list keeps: the first one of each article, in
    /// list order; later ones of the same article are dropped.
    pub fn first_of_each_article(ids: &Vec<String>) -> (keep: Vec<usize>)
        ensures
            keep@.len() == spec_first_positions(spec_id_views(ids@), ids@.len() as int).len(),
            forall|k: int|
                0 <= k < keep@.len() ==> #[trigger] keep@[k] as int == spec_first_positions(
                    spec_id_views(ids@),
                    ids@.len() as int,
                )[k],
    {
        let ghost v = spec_id_views(ids@);
        let mut keep: Vec<usize> = Vec::new();
        let mut i: usize = 0;
        while i < ids.len()
            invariant
                i <= ids@.len(),
                v == spec_id_views(ids@),
                keep@.len() == spec_first_positions(v, i as int).len(),
                forall|k: int| 0 <= k < keep@.len() ==> #[trigger] keep@[k] as int == spec_first_positions(v, i as int)[k],
            decreases ids.len() - i,
        {
            let mut first = true;
            let mut j: usize = 0;
            while j < i
                invariant
                    j <= i,
                    i < ids@.len(),
                    v == spec_id_views(ids@),
                    first == (forall|t: int| 0 <= t < j ==> v[t] != v[i as int]),
                decreases i - j,
            {
                assert(v[j as int] == ids@[j as int]@ && v[i as int] == ids@[i as int]@);
                if str_eq(ids[j].as_str(), ids[i].as_str()) {
                    first = false;
                }
                j = j + 1;
            }
            assert(first == spec_first_of_article(v, i as int));
            if first {
                let ghost before = keep@;
                keep.push(i);
                assert forall|k: int| 0 <= k < keep@.len() implies #[trigger] keep@[k] as int == spec_first_positions(
                    v,
                    i + 1,
                )[k] by {
                    if k < before.len() {
                        assert(keep@[k] == before[k]);
                    }
                }
            }
            i = i + 1;
        }
        keep
    }
}

} // verus!
