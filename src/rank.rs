use vstd::prelude::*;
use crate::score::{fuzzy_match, match_score, order_key, score_order_key};
use crate::signature::{Function, FunctionSignature};

verus! {

/// How many results a search shows.
pub const TOP_RESULTS: usize = 20;

/// The smaller of the requested count and the number of candidates.
pub open spec fn result_len(top_k: nat, n: nat) -> nat {
    if top_k < n {
        top_k
    } else {
        n
    }
}

/// `out` lists candidate indices in the order of a stable sort by
/// descending key, cut after `top_k` entries: its length is
/// `min(top_k, keys.len())`; its entries are distinct indices; keys do not
/// increase along it; every candidate left out has a key no larger than
/// each listed one, and a later index where the keys are equal; equal keys
/// keep their candidates' order.
pub open spec fn is_ranking(keys: Seq<u64>, top_k: nat, out: Seq<usize>) -> bool {
    &&& out.len() == result_len(top_k, keys.len())
    &&& forall|x: int| 0 <= x < out.len() ==> out[x] < keys.len()
    &&& forall|x: int, y: int| 0 <= x < y < out.len() ==> out[x] != out[y]
    &&& forall|x: int, y: int|
        0 <= x < y < out.len() ==> keys[out[x] as int] >= keys[out[y] as int]
    &&& forall|x: int, y: int|
        0 <= x < y < out.len() && keys[out[x] as int] == keys[out[y] as int] ==> out[x] < out[y]
    &&& forall|x: int, j: int|
        #![trigger out[x], keys[j]]
        0 <= x < out.len() && 0 <= j < keys.len() && !out.contains(j as usize) ==> {
            &&& keys[out[x] as int] >= keys[j]
            &&& keys[out[x] as int] == keys[j] ==> out[x] < j
        }
}

/// The order keys of a list of scores.
pub open spec fn keys_of(scores: Seq<u64>) -> Seq<u64> {
    scores.map_values(|s: u64| order_key(s))
}

/// Ranks scores, given as bit patterns, from best to worst and keeps the
/// first `top_k`: the result holds indices into `scores`. Ties keep the
/// order of the input, and a NaN ranks below every number.
pub fn rank_scores(scores: &Vec<u64>, top_k: usize) -> (r: Vec<usize>)
    ensures
        is_ranking(keys_of(scores@), top_k as nat, r@),
{
    let n = scores.len();
    let mut keys: Vec<u64> = Vec::new();
    let mut i: usize = 0;
    while i < n
        invariant
            n == scores@.len(),
            0 <= i <= n,
            keys@ =~= keys_of(scores@).subrange(0, i as int),
        decreases n - i,
    {
        keys.push(score_order_key(scores[i]));
        i = i + 1;
    }
    let ghost k = keys@;
    assert(k =~= keys_of(scores@));
    let mut remaining: Vec<usize> = Vec::new();
    let mut j: usize = 0;
    while j < n
        invariant
            0 <= j <= n,
            remaining@.len() == j,
            forall|p: int| 0 <= p < j ==> remaining@[p] == p,
        decreases n - j,
    {
        remaining.push(j);
        j = j + 1;
    }
    let m = if top_k < n {
        top_k
    } else {
        n
    };
    let mut out: Vec<usize> = Vec::new();
    assert forall|t: int| 0 <= t < n implies #[trigger] remaining@.contains(t as usize) by {
        assert(remaining@[t] == t as usize);
    }
    while out.len() < m
        invariant
            keys@ == k,
            k.len() == n,
            m == result_len(top_k as nat, n as nat),
            out@.len() <= m,
            out@.len() + remaining@.len() == n,
            forall|p: int| 0 <= p < remaining@.len() ==> remaining@[p] < n,
            forall|p: int, q: int| 0 <= p < q < remaining@.len() ==> remaining@[p] < remaining@[q],
            forall|x: int| 0 <= x < out@.len() ==> out@[x] < n,
            forall|x: int, y: int| 0 <= x < y < out@.len() ==> out@[x] != out@[y],
            forall|x: int, p: int|
                0 <= x < out@.len() && 0 <= p < remaining@.len() ==> out@[x] != remaining@[p],
            forall|t: int|
                #![trigger out@.contains(t as usize)]
                0 <= t < n ==> out@.contains(t as usize) || remaining@.contains(t as usize),
            forall|x: int, y: int| 0 <= x < y < out@.len() ==> k[out@[x] as int] >= k[out@[y] as int],
            forall|x: int, y: int|
                0 <= x < y < out@.len() && k[out@[x] as int] == k[out@[y] as int] ==> out@[x] < out@[y],
            forall|x: int, p: int|
                0 <= x < out@.len() && 0 <= p < remaining@.len() ==> {
                    &&& k[out@[x] as int] >= k[remaining@[p] as int]
                    &&& k[out@[x] as int] == k[remaining@[p] as int] ==> out@[x] < remaining@[p]
                },
        decreases m - out@.len(),
    {
        let len = remaining.len();
        let mut best: usize = 0;
        let mut p: usize = 1;
        while p < len
            invariant
                len == remaining@.len(),
                0 < len,
                forall|q: int| 0 <= q < len ==> remaining@[q] < n,
                keys@ == k,
                k.len() == n,
                0 <= best < p <= len,
                forall|q: int|
                    0 <= q < p ==> k[remaining@[best as int] as int] >= k[remaining@[q] as int],
                forall|q: int|
                    0 <= q < best ==> k[remaining@[best as int] as int] > k[remaining@[q] as int],
            decreases len - p,
        {
            if keys[remaining[p]] > keys[remaining[best]] {
                best = p;
            }
            p = p + 1;
        }
        let ghost old_out = out@;
        let ghost old_rem = remaining@;
        let chosen = remaining.remove(best);
        out.push(chosen);
        proof {
            assert(out@ == old_out.push(chosen));
            assert(remaining@ == old_rem.remove(best as int));
            assert forall|q: int| 0 <= q < remaining@.len() implies remaining@[q] == if q
                < best {
                old_rem[q]
            } else {
                old_rem[q + 1]
            } by {}
            assert forall|i: int|
                #![trigger out@.contains(i as usize)]
                0 <= i < n implies out@.contains(i as usize) || remaining@.contains(i as usize) by {
                if old_out.contains(i as usize) {
                    let x = choose|x: int| 0 <= x < old_out.len() && old_out[x] == i as usize;
                    assert(out@[x] == i as usize);
                } else {
                    let q = choose|q: int| 0 <= q < old_rem.len() && old_rem[q] == i as usize;
                    if q < best {
                        assert(remaining@[q] == i as usize);
                    } else if q == best {
                        assert(out@[old_out.len() as int] == i as usize);
                    } else {
                        assert(remaining@[q - 1] == i as usize);
                    }
                }
            }
            assert forall|x: int, q: int|
                0 <= x < out@.len() && 0 <= q < remaining@.len() implies {
                &&& k[out@[x] as int] >= k[remaining@[q] as int]
                &&& k[out@[x] as int] == k[remaining@[q] as int] ==> out@[x] < remaining@[q]
            } by {
                let q0 = if q < best {
                    q
                } else {
                    q + 1
                };
                assert(remaining@[q] == old_rem[q0]);
                if x == old_out.len() {
                    if q0 < best {
                        assert(old_rem[q0] < old_rem[best as int]);
                    } else {
                        assert(old_rem[best as int] < old_rem[q0]);
                    }
                }
            }
        }
    }
    proof {
        assert forall|x: int, j: int|
            #![trigger out@[x], k[j]]
            0 <= x < out@.len() && 0 <= j < k.len() && !out@.contains(j as usize) implies {
            &&& k[out@[x] as int] >= k[j]
            &&& k[out@[x] as int] == k[j] ==> out@[x] < j
        } by {
            let q = choose|q: int| 0 <= q < remaining@.len() && remaining@[q] == j as usize;
        }
    }
    out
}

/// The scores of all candidates against a query.
pub open spec fn candidate_scores(candidates: Seq<Function>, query: FunctionSignature) -> Seq<u64> {
    candidates.map_values(|f: Function| match_score(f.signature, query))
}

/// Scores every candidate against the query and ranks them from best to
/// worst, keeping at most `top_k`: the result holds indices into
/// `candidates`, with the length `min(top_k, candidates.len())`.
pub fn rank(candidates: &Vec<Function>, query: &FunctionSignature, top_k: usize) -> (r: Vec<usize>)
    ensures
        is_ranking(keys_of(candidate_scores(candidates@, *query)), top_k as nat, r@),
{
    let n = candidates.len();
    let mut scores: Vec<u64> = Vec::new();
    let mut i: usize = 0;
    while i < n
        invariant
            n == candidates@.len(),
            0 <= i <= n,
            scores@ =~= candidate_scores(candidates@, *query).subrange(0, i as int),
        decreases n - i,
    {
        scores.push(fuzzy_match(&candidates[i].signature, query));
        i = i + 1;
    }
    assert(scores@ =~= candidate_scores(candidates@, *query));
    rank_scores(&scores, top_k)
}

} // verus!
