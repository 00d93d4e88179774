//! Typo-tolerant matching: one edit apart, a near window, a subsequence.

use vstd::prelude::*;

verus! {

// ---------------------------------------------------------------------------
// One edit apart
// ---------------------------------------------------------------------------

/// `a` and `b` have the same length and agree everywhere except, perhaps, at `i`.
pub open spec fn agree_except_at(a: Seq<char>, b: Seq<char>, i: int) -> bool {
    a.len() == b.len() && forall|k: int| 0 <= k < a.len() && k != i ==> a[k] == b[k]
}

/// Equal, or one substituted character apart.
pub open spec fn substitution_apart(a: Seq<char>, b: Seq<char>) -> bool {
    exists|i: int| agree_except_at(a, b, i)
}

/// Two neighbouring characters swapped, everything else equal.
pub open spec fn swapped_at(a: Seq<char>, b: Seq<char>, i: int) -> bool {
    &&& a.len() == b.len()
    &&& 0 <= i && i + 1 < a.len()
    &&& a[i] == b[i + 1]
    &&& a[i + 1] == b[i]
    &&& forall|k: int| 0 <= k < a.len() && k != i && k != i + 1 ==> a[k] == b[k]
}

/// One transposition of neighbouring characters apart.
pub open spec fn transposition_apart(a: Seq<char>, b: Seq<char>) -> bool {
    exists|i: int| swapped_at(a, b, i)
}

/// Removing one character of `longer` gives `shorter`.
pub open spec fn insertion_apart(longer: Seq<char>, shorter: Seq<char>) -> bool {
    longer.len() == shorter.len() + 1 && exists|k: int|
        0 <= k < longer.len() && #[trigger] longer.remove(k) == shorter
}

/// Edit distance at most one, where the edits are insertion, deletion,
/// substitution and transposition of neighbouring characters.
pub open spec fn one_edit_apart(a: Seq<char>, b: Seq<char>) -> bool {
    ||| substitution_apart(a, b)
    ||| transposition_apart(a, b)
    ||| insertion_apart(a, b)
    ||| insertion_apart(b, a)
}

/// Lengths of sequences one edit apart differ by at most one.
pub proof fn lemma_one_edit_lengths(a: Seq<char>, b: Seq<char>)
    requires
        one_edit_apart(a, b),
    ensures
        a.len() <= b.len() + 1,
        b.len() <= a.len() + 1,
{
}

proof fn lemma_equal_length_not_insertion(a: Seq<char>, b: Seq<char>)
    requires
        a.len() == b.len(),
    ensures
        !insertion_apart(a, b),
        !insertion_apart(b, a),
{
}

/// Greedy check that `longer` is `shorter` with one extra character.
fn one_insertion(longer: &[char], shorter: &[char]) -> (r: bool)
    requires
        longer@.len() == shorter@.len() + 1,
    ensures
        r == insertion_apart(longer@, shorter@),
{
    let mut i: usize = 0;
    let mut j: usize = 0;
    let mut skipped = false;
    let ghost mut p: int = 0;
    while i < longer.len() && j < shorter.len()
        invariant
            longer@.len() == shorter@.len() + 1,
            !skipped ==> i == j,
            !skipped ==> forall|x: int| 0 <= x < j ==> longer@[x] == shorter@[x],
            skipped ==> i == j + 1,
            skipped ==> 0 <= p <= j,
            skipped ==> forall|x: int| 0 <= x < p ==> longer@[x] == shorter@[x],
            skipped ==> p < shorter@.len() && longer@[p] != shorter@[p],
            skipped ==> forall|x: int| p <= x < j ==> longer@[x + 1] == shorter@[x],
            j <= shorter@.len(),
        decreases longer@.len() - i,
    {
        if longer[i] == shorter[j] {
            i += 1;
            j += 1;
        } else if !skipped {
            skipped = true;
            proof {
                p = j as int;
            }
            i += 1;
        } else {
            proof {
                assert forall|k: int| 0 <= k < longer@.len() implies #[trigger] longer@.remove(k)
                    != shorter@ by {
                    if k > p {
                        assert(longer@.remove(k)[p] == longer@[p]);
                    } else {
                        assert(longer@.remove(k)[j as int] == longer@[j + 1]);
                    }
                }
            }
            return false;
        }
    }
    proof {
        if !skipped {
            let k = longer@.len() - 1;
            assert(longer@.remove(k) =~= shorter@);
        } else {
            assert(j == shorter@.len());
            assert(longer@.remove(p) =~= shorter@);
        }
    }
    true
}

/// Edit distance at most one (insertion, deletion, substitution or
/// transposition of two neighbouring characters).
pub fn within_one_edit(a: &[char], b: &[char]) -> (r: bool)
    ensures
        r == one_edit_apart(a@, b@),
{
    let na = a.len();
    let nb = b.len();
    if na == nb {
        proof {
            lemma_equal_length_not_insertion(a@, b@);
        }
        let mut mismatches: Vec<usize> = Vec::new();
        let mut i: usize = 0;
        while i < na
            invariant
                na == a@.len(),
                nb == b@.len(),
                na == nb,
                i <= na,
                mismatches@.len() <= 2,
                forall|x: int, y: int|
                    0 <= x < y < mismatches@.len() ==> mismatches@[x] < mismatches@[y],
                forall|x: int| 0 <= x < mismatches@.len() ==> #[trigger] mismatches@[x] < i,
                forall|x: int|
                    0 <= x < mismatches@.len() ==> a@[#[trigger] mismatches@[x] as int] != b@[mismatches@[x] as int],
                forall|k: int|
                    0 <= k < i && a@[k] != b@[k] ==> exists|x: int|
                        0 <= x < mismatches@.len() && #[trigger] mismatches@[x] == k,
            decreases na - i,
        {
            if a[i] != b[i] {
                if mismatches.len() == 2 {
                    let m0 = mismatches[0];
                    let m1 = mismatches[1];
                    proof {
                        assert forall|t: int| !agree_except_at(a@, b@, t) by {
                            if agree_except_at(a@, b@, t) {
                                assert(m0 == t);
                                assert(m1 == t);
                            }
                        }
                        assert forall|t: int| !swapped_at(a@, b@, t) by {
                            if swapped_at(a@, b@, t) {
                                assert(m0 == t || m0 == t + 1);
                                assert(m1 == t || m1 == t + 1);
                                assert(i == t || i == t + 1);
                            }
                        }
                    }
                    return false;
                }
                let ghost old_m = mismatches@;
                mismatches.push(i);
                proof {
                    assert forall|k: int| 0 <= k < i + 1 && a@[k] != b@[k] implies exists|x: int|
                        0 <= x < mismatches@.len() && #[trigger] mismatches@[x] == k by {
                        if k < i {
                            let x = choose|x: int| 0 <= x < old_m.len() && old_m[x] == k;
                            assert(mismatches@[x] == k);
                        } else {
                            assert(mismatches@[old_m.len() as int] == k);
                        }
                    }
                }
            }
            i += 1;
        }
        if mismatches.len() == 0 {
            proof {
                assert(agree_except_at(a@, b@, 0));
            }
            return true;
        }
        if mismatches.len() == 1 {
            proof {
                let m = mismatches@[0] as int;
                assert forall|k: int| 0 <= k < a@.len() && k != m implies a@[k] == b@[k] by {
                    if a@[k] != b@[k] {
                        let x = choose|x: int| 0 <= x < mismatches@.len() && mismatches@[x] == k;
                    }
                }
                assert(agree_except_at(a@, b@, m));
            }
            return true;
        }
        let x = mismatches[0];
        let y = mismatches[1];
        if y == x + 1 && a[x] == b[y] && a[y] == b[x] {
            proof {
                assert forall|k: int|
                    0 <= k < a@.len() && k != x && k != x + 1 implies a@[k] == b@[k] by {
                    if a@[k] != b@[k] {
                        let z = choose|z: int| 0 <= z < mismatches@.len() && mismatches@[z] == k;
                    }
                }
                assert(swapped_at(a@, b@, x as int));
            }
            true
        } else {
            proof {
                assert forall|t: int| !agree_except_at(a@, b@, t) by {
                    if agree_except_at(a@, b@, t) {
                        assert(x == t);
                        assert(y == t);
                    }
                }
                assert forall|t: int| !swapped_at(a@, b@, t) by {
                    if swapped_at(a@, b@, t) {
                        assert(x == t || x == t + 1);
                        assert(y == t || y == t + 1);
                    }
                }
            }
            false
        }
    } else if na > nb && na - nb == 1 {
        one_insertion(a, b)
    } else if nb > na && nb - na == 1 {
        one_insertion(b, a)
    } else {
        false
    }
}

// ---------------------------------------------------------------------------
// Near window
// ---------------------------------------------------------------------------

/// Some contiguous piece of `h` is within one edit of `q`, which has at
/// least two characters (a single letter only matches exactly).
pub open spec fn near_window(q: Seq<char>, h: Seq<char>) -> bool {
    q.len() >= 2 && exists|s: int, e: int|
        0 <= s <= e <= h.len() && #[trigger] one_edit_apart(q, h.subrange(s, e))
}

/// Best window of the haystack at distance at most one from the query.
pub fn fuzzy_window_match(query: &[char], haystack: &[char]) -> (r: bool)
    ensures
        r == near_window(query@, haystack@),
{
    let qn = query.len();
    let hl = haystack.len();
    if qn < 2 {
        return false;
    }
    let min_w: usize = qn - 1;
    let max_w: usize = if qn < haystack.len() { qn + 1 } else { haystack.len() };
    if haystack.len() < min_w {
        proof {
            assert forall|s: int, e: int|
                0 <= s <= e <= haystack@.len() implies !#[trigger] one_edit_apart(
                query@,
                haystack@.subrange(s, e),
            ) by {
                if one_edit_apart(query@, haystack@.subrange(s, e)) {
                    lemma_one_edit_lengths(query@, haystack@.subrange(s, e));
                }
            }
        }
        return false;
    }
    let mut d: usize = 0;
    while d < 3
        invariant
            qn == query@.len(),
            qn >= 2,
            min_w == qn - 1,
            max_w <= haystack@.len(),
            max_w <= qn + 1,
            max_w == qn + 1 || max_w == haystack@.len(),
            min_w <= max_w,
            d <= 3,
            hl == haystack@.len(),
            forall|s: int, e: int|
                0 <= s <= e <= haystack@.len() && e - s < min_w + d ==> !#[trigger] one_edit_apart(
                    query@,
                    haystack@.subrange(s, e),
                ),
        decreases 3 - d,
    {
        if d <= max_w - min_w {
            let w: usize = min_w + d;
            let limit: usize = haystack.len() - w + 1;
            let mut start: usize = 0;
            while start < limit
                invariant
                    qn == query@.len(),
                    qn >= 2,
                    hl == haystack@.len(),
                    1 <= w <= haystack@.len(),
                    limit == haystack@.len() - w + 1,
                    w == min_w + d,
                    start <= limit,
                    forall|s: int, e: int|
                        0 <= s <= e <= haystack@.len() && e - s < min_w + d ==> !#[trigger] one_edit_apart(
                            query@,
                            haystack@.subrange(s, e),
                        ),
                    forall|s: int|
                        0 <= s < start ==> !#[trigger] one_edit_apart(
                            query@,
                            haystack@.subrange(s, s + w),
                        ),
                decreases limit - start,
            {
                assert(start + w <= haystack@.len());
                let end: usize = start + w;
                let window = &haystack[start..end];
                assert(window@ == haystack@.subrange(start as int, start + w));
                if within_one_edit(query, window) {
                    assert(one_edit_apart(query@, haystack@.subrange(start as int, end as int)));
                    return true;
                }
                start += 1;
            }
            proof {
                assert forall|s: int, e: int|
                    0 <= s <= e <= haystack@.len() && e - s < min_w + d + 1 implies !#[trigger] one_edit_apart(
                    query@,
                    haystack@.subrange(s, e),
                ) by {
                    if e - s == w {
                        assert(s < start);
                        assert(haystack@.subrange(s, e) == haystack@.subrange(s, s + w));
                    }
                }
            }
        } else {
            proof {
                assert forall|s: int, e: int|
                    0 <= s <= e <= haystack@.len() && e - s < min_w + d + 1 implies !#[trigger] one_edit_apart(
                    query@,
                    haystack@.subrange(s, e),
                ) by {
                    if one_edit_apart(query@, haystack@.subrange(s, e)) {
                        lemma_one_edit_lengths(query@, haystack@.subrange(s, e));
                    }
                }
            }
        }
        d += 1;
    }
    proof {
        assert forall|s: int, e: int|
            0 <= s <= e <= haystack@.len() implies !#[trigger] one_edit_apart(
            query@,
            haystack@.subrange(s, e),
        ) by {
            if one_edit_apart(query@, haystack@.subrange(s, e)) {
                lemma_one_edit_lengths(query@, haystack@.subrange(s, e));
            }
        }
    }
    false
}

// ---------------------------------------------------------------------------
// Subsequence
// ---------------------------------------------------------------------------

/// `idx` picks, in increasing positions of `h`, the characters of `q` in order.
pub open spec fn embeds(q: Seq<char>, h: Seq<char>, idx: Seq<int>) -> bool {
    &&& idx.len() == q.len()
    &&& forall|i: int| 0 <= i < idx.len() ==> 0 <= #[trigger] idx[i] < h.len()
    &&& forall|i: int| 0 <= i < idx.len() ==> h[#[trigger] idx[i]] == q[i]
    &&& forall|i: int, j: int| 0 <= i < j < idx.len() ==> idx[i] < idx[j]
}

/// The characters of `q` appear in `h` in order, possibly with gaps.
pub open spec fn subsequence_of(q: Seq<char>, h: Seq<char>) -> bool {
    exists|idx: Seq<int>| #[trigger] embeds(q, h, idx)
}

proof fn lemma_embeds_prefix(q: Seq<char>, h: Seq<char>, idx: Seq<int>, n: int)
    requires
        embeds(q, h, idx),
        0 <= n <= q.len(),
    ensures
        embeds(q.take(n), h, idx.take(n)),
{
}

proof fn lemma_embeds_widen(q: Seq<char>, h: Seq<char>, idx: Seq<int>, k: int)
    requires
        embeds(q, h.take(k), idx),
        0 <= k <= h.len(),
    ensures
        embeds(q, h, idx),
{
    assert forall|i: int| 0 <= i < idx.len() implies h[#[trigger] idx[i]] == q[i] by {
        assert(h.take(k)[idx[i]] == h[idx[i]]);
    }
}

proof fn lemma_embeds_narrow(q: Seq<char>, h: Seq<char>, idx: Seq<int>, k: int)
    requires
        embeds(q, h, idx),
        0 <= k <= h.len(),
        forall|i: int| 0 <= i < idx.len() ==> #[trigger] idx[i] < k,
    ensures
        embeds(q, h.take(k), idx),
{
    assert forall|i: int| 0 <= i < idx.len() implies h.take(k)[#[trigger] idx[i]] == q[i] by {
        assert(h.take(k)[idx[i]] == h[idx[i]]);
    }
}

/// Does the query appear as a subsequence (characters in order, with gaps)?
pub fn is_subsequence(query: &[char], haystack: &[char]) -> (r: bool)
    ensures
        r == (query@.len() > 0 && subsequence_of(query@, haystack@)),
{
    if query.len() == 0 {
        return false;
    }
    let ghost q = query@;
    let ghost h = haystack@;
    let mut qi: usize = 0;
    let ghost mut idx: Seq<int> = Seq::empty();
    let mut k: usize = 0;
    proof {
        assert(!subsequence_of(q.take(1), h.take(0))) by {
            if subsequence_of(q.take(1), h.take(0)) {
                let w = choose|w: Seq<int>| #[trigger] embeds(q.take(1), h.take(0), w);
                assert(w.len() == 1);
                assert(0 <= w[0] < h.take(0).len());
            }
        }
        assert(embeds(q.take(0), h.take(0), idx));
    }
    while k < haystack.len()
        invariant
            q == query@,
            h == haystack@,
            q.len() > 0,
            qi < q.len(),
            k <= h.len(),
            embeds(q.take(qi as int), h.take(k as int), idx),
            !subsequence_of(q.take(qi + 1), h.take(k as int)),
        decreases h.len() - k,
    {
        let ch = haystack[k];
        if ch == query[qi] {
            proof {
                let nidx = idx.push(k as int);
                assert forall|i: int| 0 <= i < nidx.len() implies h.take(k + 1)[#[trigger] nidx[i]]
                    == q.take(qi + 1)[i] by {
                    if i < idx.len() {
                        assert(h.take(k as int)[idx[i]] == q.take(qi as int)[i]);
                    }
                }
                assert(embeds(q.take(qi + 1), h.take(k + 1), nidx));
                idx = nidx;
            }
            if qi + 1 == query.len() {
                proof {
                    assert(q.take(qi + 1) =~= q);
                    lemma_embeds_widen(q, h, idx, k + 1);
                }
                return true;
            }
            proof {
                assert(!subsequence_of(q.take(qi + 2), h.take(k + 1))) by {
                    if subsequence_of(q.take(qi + 2), h.take(k + 1)) {
                        let w = choose|w: Seq<int>| #[trigger] embeds(q.take(qi + 2), h.take(k + 1), w);
                        lemma_embeds_prefix(q.take(qi + 2), h.take(k + 1), w, qi + 1);
                        assert(q.take(qi + 2).take(qi + 1) =~= q.take(qi + 1));
                        lemma_embeds_widen(q.take(qi + 1), h, w.take(qi + 1), k + 1);
                        assert forall|i: int| 0 <= i < w.take(qi + 1).len() implies #[trigger] w.take(
                            qi + 1,
                        )[i] < k by {
                            assert(w[i] <= w[qi as int]);
                            assert(w[qi as int] < w[qi + 1]);
                        }
                        lemma_embeds_narrow(q.take(qi + 1), h, w.take(qi + 1), k as int);
                    }
                }
            }
            qi += 1;
        } else {
            proof {
                assert(!subsequence_of(q.take(qi + 1), h.take(k + 1))) by {
                    if subsequence_of(q.take(qi + 1), h.take(k + 1)) {
                        let w = choose|w: Seq<int>| #[trigger] embeds(q.take(qi + 1), h.take(k + 1), w);
                        assert(h.take(k + 1)[w[qi as int]] == q.take(qi + 1)[qi as int]);
                        assert(w[qi as int] != k);
                        lemma_embeds_widen(q.take(qi + 1), h, w, k + 1);
                        assert forall|i: int| 0 <= i < w.len() implies #[trigger] w[i] < k by {
                            assert(w[i] <= w[qi as int]);
                        }
                        lemma_embeds_narrow(q.take(qi + 1), h, w, k as int);
                    }
                }
            }
        }
        k += 1;
    }
    proof {
        assert(h.take(k as int) =~= h);
        if subsequence_of(q, h) {
            let w = choose|w: Seq<int>| #[trigger] embeds(q, h, w);
            lemma_embeds_prefix(q, h, w, qi + 1);
        }
    }
    false
}

} // verus!
