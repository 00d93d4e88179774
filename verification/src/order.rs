//! Stable orderings of lists by a key, as permutations of their positions.

use vstd::prelude::*;

use crate::text::{lemma_seq_lt_order, seq_lt, text_lt};

verus! {

/// Newest first, and among equal stamps the earlier position first: the
/// order that a stable sort by descending stamp leaves.
pub open spec fn newer_first(keys: Seq<u64>, a: int, b: int) -> bool {
    keys[a] > keys[b] || (keys[a] == keys[b] && a < b)
}

/// `perm` lists every position below `n` exactly once.
pub open spec fn is_permutation(perm: Seq<usize>, n: nat) -> bool {
    &&& perm.len() == n
    &&& forall|i: int| 0 <= i < perm.len() ==> perm[i] < n
    &&& forall|i: int, j: int| 0 <= i < j < perm.len() ==> perm[i] != perm[j]
}

/// A permutation of the positions below `n` reaches each of them.
pub proof fn lemma_permutation_onto(perm: Seq<usize>, n: nat, p: int)
    requires
        is_permutation(perm, n),
        0 <= p < n,
    ensures
        exists|j: int| 0 <= j < perm.len() && perm[j] as int == p,
{
    broadcast use vstd::seq_lib::seq_to_set_is_finite;
    let s = perm.map_values(|u: usize| u as int);
    assert(s.no_duplicates()) by {
        assert forall|i: int, j: int| 0 <= i < s.len() && 0 <= j < s.len() && i != j implies s[i]
            != s[j] by {
            if i < j {
                assert(perm[i] != perm[j]);
            } else {
                assert(perm[j] != perm[i]);
            }
        }
    }
    s.unique_seq_to_set();
    vstd::set_lib::lemma_int_range(0, n as int);
    let range = vstd::set_lib::set_int_range(0, n as int);
    assert(s.to_set().subset_of(range)) by {
        assert forall|v: int| s.to_set().contains(v) implies range.contains(v) by {
            let i = choose|i: int| 0 <= i < s.len() && s[i] == v;
            assert(perm[i] < n);
        }
    }
    vstd::set_lib::lemma_subset_equality(s.to_set(), range);
    assert(range.contains(p));
    assert(s.to_set().contains(p));
    let j = choose|j: int| 0 <= j < s.len() && s[j] == p;
    assert(perm[j] as int == p);
}

/// Every earlier slot of `perm` precedes every later one.
pub open spec fn ordered_by_recency(keys: Seq<u64>, perm: Seq<usize>) -> bool {
    forall|i: int, j: int|
        0 <= i < j < perm.len() ==> newer_first(keys, #[trigger] perm[i] as int, #[trigger] perm[j] as int)
}

/// Positions of `keys`, newest stamp first, ties in their original order.
pub fn newest_first_order(keys: &Vec<u64>) -> (perm: Vec<usize>)
    ensures
        is_permutation(perm@, keys@.len()),
        ordered_by_recency(keys@, perm@),
{
    let mut perm: Vec<usize> = Vec::new();
    let mut k: usize = 0;
    while k < keys.len()
        invariant
            k <= keys@.len(),
            perm@.len() == k,
            forall|i: int| 0 <= i < perm@.len() ==> perm@[i] < k,
            forall|x: usize| x < k ==> #[trigger] perm@.contains(x),
            ordered_by_recency(keys@, perm@),
        decreases keys@.len() - k,
    {
        let mut p: usize = 0;
        while p < perm.len() && keys[perm[p]] >= keys[k]
            invariant
                p <= perm@.len(),
                k < keys@.len(),
                forall|i: int| 0 <= i < perm@.len() ==> perm@[i] < k,
                forall|q: int| 0 <= q < p ==> keys@[perm@[q] as int] >= keys@[k as int],
            decreases perm@.len() - p,
        {
            p += 1;
        }
        let ghost before = perm@;
        perm.insert(p, k);
        proof {
            assert(perm@ == before.insert(p as int, k));
            assert forall|i: int, j: int| 0 <= i < j < perm@.len() implies newer_first(
                keys@,
                #[trigger] perm@[i] as int,
                #[trigger] perm@[j] as int,
            ) by {
                if j < p {
                    assert(perm@[i] == before[i] && perm@[j] == before[j]);
                } else if j == p {
                    assert(perm@[i] == before[i]);
                    assert(keys@[before[i] as int] >= keys@[k as int]);
                } else if i == p {
                    assert(perm@[j] == before[j - 1]);
                    if p < before.len() {
                        assert(keys@[before[p as int] as int] < keys@[k as int]);
                        if j - 1 > p {
                            assert(newer_first(keys@, before[p as int] as int, before[j - 1] as int));
                        }
                    }
                } else if i < p {
                    assert(perm@[i] == before[i] && perm@[j] == before[j - 1]);
                } else {
                    assert(perm@[i] == before[i - 1] && perm@[j] == before[j - 1]);
                }
            }
            assert forall|x: usize| x < k + 1 implies #[trigger] perm@.contains(x) by {
                if x == k {
                    assert(perm@[p as int] == k);
                } else {
                    assert(before.contains(x));
                    let q = choose|q: int| 0 <= q < before.len() && before[q] == x;
                    if q < p {
                        assert(perm@[q] == before[q]);
                    } else {
                        assert(perm@[q + 1] == before[q]);
                    }
                }
            }
        }
        k += 1;
    }
    proof {
        assert forall|i: int, j: int| 0 <= i < j < perm@.len() implies perm@[i] != perm@[j] by {
            assert(newer_first(keys@, perm@[i] as int, perm@[j] as int));
        }
    }
    perm
}

/// Higher score first, then the title that sorts first, then the earlier
/// position: the order a stable sort by (score descending, title) leaves.
pub open spec fn ranked_before(scores: Seq<u32>, titles: Seq<Seq<char>>, a: int, b: int) -> bool {
    ||| scores[a] > scores[b]
    ||| scores[a] == scores[b] && seq_lt(titles[a], titles[b])
    ||| scores[a] == scores[b] && titles[a] == titles[b] && a < b
}

/// The texts held by a list of character vectors.
pub open spec fn char_views(v: Seq<Vec<char>>) -> Seq<Seq<char>> {
    v.map_values(|t: Vec<char>| t@)
}

/// Every earlier slot of `perm` ranks before every later one.
pub open spec fn ordered_by_rank(scores: Seq<u32>, titles: Seq<Seq<char>>, perm: Seq<usize>) -> bool {
    forall|i: int, j: int|
        0 <= i < j < perm.len() ==> ranked_before(
            scores,
            titles,
            #[trigger] perm[i] as int,
            #[trigger] perm[j] as int,
        )
}

proof fn lemma_rank_order(scores: Seq<u32>, titles: Seq<Seq<char>>, a: int, b: int, c: int)
    ensures
        !ranked_before(scores, titles, a, a),
        a != b ==> (ranked_before(scores, titles, a, b) || ranked_before(scores, titles, b, a)),
        ranked_before(scores, titles, a, b) && ranked_before(scores, titles, b, c) ==> ranked_before(
            scores,
            titles,
            a,
            c,
        ),
{
    lemma_seq_lt_order(titles[a], titles[b], titles[c]);
    lemma_seq_lt_order(titles[b], titles[a], titles[c]);
}

/// Positions ranked by score (highest first), then title, then position.
pub fn rank_order(scores: &Vec<u32>, titles: &Vec<Vec<char>>) -> (perm: Vec<usize>)
    requires
        scores@.len() == titles@.len(),
    ensures
        is_permutation(perm@, scores@.len()),
        ordered_by_rank(scores@, char_views(titles@), perm@),
{
    let mut perm: Vec<usize> = Vec::new();
    let mut k: usize = 0;
    while k < scores.len()
        invariant
            scores@.len() == titles@.len(),
            k <= scores@.len(),
            perm@.len() == k,
            forall|i: int| 0 <= i < perm@.len() ==> perm@[i] < k,
            forall|x: usize| x < k ==> #[trigger] perm@.contains(x),
            ordered_by_rank(scores@, char_views(titles@), perm@),
        decreases scores@.len() - k,
    {
        let mut p: usize = 0;
        while p < perm.len() && !(scores[k] > scores[perm[p]] || (scores[k] == scores[perm[p]]
            && text_lt(&titles[k], &titles[perm[p]])))
            invariant
                scores@.len() == titles@.len(),
                p <= perm@.len(),
                k < scores@.len(),
                forall|i: int| 0 <= i < perm@.len() ==> perm@[i] < k,
                forall|q: int|
                    0 <= q < p ==> ranked_before(scores@, char_views(titles@), #[trigger] perm@[q] as int, k as int),
            decreases perm@.len() - p,
        {
            proof {
                lemma_rank_order(scores@, char_views(titles@), k as int, perm@[p as int] as int, k as int);
            }
            p += 1;
        }
        let ghost before = perm@;
        perm.insert(p, k);
        proof {
            assert(perm@ == before.insert(p as int, k));
            assert forall|i: int, j: int| 0 <= i < j < perm@.len() implies ranked_before(
                scores@,
                char_views(titles@),
                #[trigger] perm@[i] as int,
                #[trigger] perm@[j] as int,
            ) by {
                if j < p {
                    assert(perm@[i] == before[i] && perm@[j] == before[j]);
                } else if j == p {
                    assert(perm@[i] == before[i]);
                } else if i == p {
                    assert(perm@[j] == before[j - 1]);
                    if j - 1 > p {
                        assert(ranked_before(scores@, char_views(titles@), before[p as int] as int, before[j - 1] as int));
                        lemma_rank_order(scores@, char_views(titles@), k as int, before[p as int] as int, before[j - 1] as int);
                    }
                } else if i < p {
                    assert(perm@[i] == before[i] && perm@[j] == before[j - 1]);
                } else {
                    assert(perm@[i] == before[i - 1] && perm@[j] == before[j - 1]);
                }
            }
            assert forall|x: usize| x < k + 1 implies #[trigger] perm@.contains(x) by {
                if x == k {
                    assert(perm@[p as int] == k);
                } else {
                    assert(before.contains(x));
                    let q = choose|q: int| 0 <= q < before.len() && before[q] == x;
                    if q < p {
                        assert(perm@[q] == before[q]);
                    } else {
                        assert(perm@[q + 1] == before[q]);
                    }
                }
            }
        }
        k += 1;
    }
    proof {
        assert forall|i: int, j: int| 0 <= i < j < perm@.len() implies perm@[i] != perm@[j] by {
            assert(ranked_before(scores@, char_views(titles@), perm@[i] as int, perm@[j] as int));
            lemma_rank_order(scores@, char_views(titles@), perm@[i] as int, perm@[j] as int, perm@[j] as int);
        }
    }
    perm
}

/// A recents key: (in front, running, last use, opening), compared in that
/// order, larger first.
pub open spec fn key_gt(x: (bool, bool, u64, u64), y: (bool, bool, u64, u64)) -> bool {
    ||| (x.0 && !y.0)
    ||| (x.0 == y.0 && x.1 && !y.1)
    ||| (x.0 == y.0 && x.1 == y.1 && x.2 > y.2)
    ||| (x.0 == y.0 && x.1 == y.1 && x.2 == y.2 && x.3 > y.3)
}

/// The order a stable sort by descending key leaves: a larger key first,
/// and among equal keys the earlier position first.
pub open spec fn key_first(keys: Seq<(bool, bool, u64, u64)>, a: int, b: int) -> bool {
    key_gt(keys[a], keys[b]) || (keys[a] == keys[b] && a < b)
}

/// Every earlier slot of `perm` comes before every later one by key.
pub open spec fn ordered_by_key(keys: Seq<(bool, bool, u64, u64)>, perm: Seq<usize>) -> bool {
    forall|i: int, j: int|
        0 <= i < j < perm.len() ==> key_first(keys, #[trigger] perm[i] as int, #[trigger] perm[j] as int)
}

fn key_ge(x: (bool, bool, u64, u64), y: (bool, bool, u64, u64)) -> (r: bool)
    ensures
        r == (key_gt(x, y) || x == y),
{
    if x.0 != y.0 {
        x.0
    } else if x.1 != y.1 {
        x.1
    } else if x.2 != y.2 {
        x.2 > y.2
    } else {
        x.3 >= y.3
    }
}

/// Positions of `keys`, largest key first, ties in their original order.
pub fn key_order(keys: &Vec<(bool, bool, u64, u64)>) -> (perm: Vec<usize>)
    ensures
        is_permutation(perm@, keys@.len()),
        ordered_by_key(keys@, perm@),
{
    let mut perm: Vec<usize> = Vec::new();
    let mut k: usize = 0;
    while k < keys.len()
        invariant
            k <= keys@.len(),
            perm@.len() == k,
            forall|i: int| 0 <= i < perm@.len() ==> perm@[i] < k,
            forall|x: usize| x < k ==> #[trigger] perm@.contains(x),
            ordered_by_key(keys@, perm@),
        decreases keys@.len() - k,
    {
        let mut p: usize = 0;
        while p < perm.len() && key_ge(keys[perm[p]], keys[k])
            invariant
                p <= perm@.len(),
                k < keys@.len(),
                forall|i: int| 0 <= i < perm@.len() ==> perm@[i] < k,
                forall|q: int|
                    0 <= q < p ==> key_gt(keys@[perm@[q] as int], keys@[k as int]) || keys@[perm@[q] as int]
                        == keys@[k as int],
            decreases perm@.len() - p,
        {
            p += 1;
        }
        let ghost before = perm@;
        perm.insert(p, k);
        proof {
            assert(perm@ == before.insert(p as int, k));
            assert forall|i: int, j: int| 0 <= i < j < perm@.len() implies key_first(
                keys@,
                #[trigger] perm@[i] as int,
                #[trigger] perm@[j] as int,
            ) by {
                if j < p {
                    assert(perm@[i] == before[i] && perm@[j] == before[j]);
                } else if j == p {
                    assert(perm@[i] == before[i]);
                } else if i == p {
                    assert(perm@[j] == before[j - 1]);
                    if p < before.len() {
                        assert(!(key_gt(keys@[before[p as int] as int], keys@[k as int]) || keys@[before[p as int] as int] == keys@[k as int]));
                        if j - 1 > p {
                            assert(key_first(keys@, before[p as int] as int, before[j - 1] as int));
                        }
                    }
                } else if i < p {
                    assert(perm@[i] == before[i] && perm@[j] == before[j - 1]);
                } else {
                    assert(perm@[i] == before[i - 1] && perm@[j] == before[j - 1]);
                }
            }
            assert forall|x: usize| x < k + 1 implies #[trigger] perm@.contains(x) by {
                if x == k {
                    assert(perm@[p as int] == k);
                } else {
                    assert(before.contains(x));
                    let q = choose|q: int| 0 <= q < before.len() && before[q] == x;
                    if q < p {
                        assert(perm@[q] == before[q]);
                    } else {
                        assert(perm@[q + 1] == before[q]);
                    }
                }
            }
        }
        k += 1;
    }
    proof {
        assert forall|i: int, j: int| 0 <= i < j < perm@.len() implies perm@[i] != perm@[j] by {
            assert(key_first(keys@, perm@[i] as int, perm@[j] as int));
        }
    }
    perm
}

} // verus!

