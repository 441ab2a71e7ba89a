//! Stable descending top-k selection over integer ranking keys.
use vstd::prelude::*;

verus! {

/// Number of entries kept in every ranked selection.
pub const TOP_N: usize = 5;

/// Whether index `a` ranks ahead of index `b`: a higher key first, and the
/// lower index first among equal keys.
pub open spec fn precedes(keys: Seq<u128>, a: int, b: int) -> bool {
    keys[a] > keys[b] || (keys[a] == keys[b] && a < b)
}

/// `sel` holds, in ranking order, the first `min(k, n)` indices below `n`
/// of the stable descending order of `keys`: each of them ranks ahead of
/// every index below `n` that it leaves out.
pub open spec fn is_top(keys: Seq<u128>, n: int, k: int, sel: Seq<usize>) -> bool {
    &&& sel.len() == if k < n { k } else { n }
    &&& forall|p: int| 0 <= p < sel.len() ==> #[trigger] sel[p] < n
    &&& forall|p: int, q: int|
        0 <= p < q < sel.len() ==> precedes(keys, #[trigger] sel[p] as int, #[trigger] sel[q] as int)
    &&& forall|p: int, j: usize|
        #![trigger sel[p], sel.contains(j)]
        0 <= p < sel.len() && j < n && !sel.contains(j) ==> precedes(keys, sel[p] as int, j as int)
}

/// The keys along `sel` never increase.
pub open spec fn keys_descending(keys: Seq<u128>, sel: Seq<usize>) -> bool {
    forall|p: int, q: int|
        0 <= p < q < sel.len() ==> keys[#[trigger] sel[p] as int] >= keys[#[trigger] sel[q] as int]
}

/// A top selection has at most `k` entries, distinct, with keys in
/// descending order.
pub proof fn lemma_top_shape(keys: Seq<u128>, n: int, k: int, sel: Seq<usize>)
    requires
        0 <= k,
        0 <= n,
        is_top(keys, n, k, sel),
    ensures
        sel.len() <= k,
        keys_descending(keys, sel),
        sel.no_duplicates(),
{
    assert forall|p: int, q: int| 0 <= p < q < sel.len() implies keys[#[trigger] sel[p] as int]
        >= keys[#[trigger] sel[q] as int] by {
        assert(precedes(keys, sel[p] as int, sel[q] as int));
    }
    assert forall|p: int, q: int| 0 <= p < sel.len() && 0 <= q < sel.len() && p != q implies sel[p]
        != sel[q] by {
        if p < q {
            assert(precedes(keys, sel[p] as int, sel[q] as int));
        } else {
            assert(precedes(keys, sel[q] as int, sel[p] as int));
        }
    }
}

/// There is only one top selection: `is_top` pins the result down.
pub proof fn lemma_top_unique(keys: Seq<u128>, n: int, k: int, s1: Seq<usize>, s2: Seq<usize>)
    requires
        0 <= n <= keys.len(),
        is_top(keys, n, k, s1),
        is_top(keys, n, k, s2),
    ensures
        s1 == s2,
{
    assert forall|p: int| 0 <= p < s1.len() implies s1[p] == s2[p] by {
        lemma_top_agree_upto(keys, n, k, s1, s2, p);
    }
    assert(s1 =~= s2);
}

proof fn lemma_top_agree_upto(keys: Seq<u128>, n: int, k: int, s1: Seq<usize>, s2: Seq<usize>, p: int)
    requires
        0 <= n <= keys.len(),
        is_top(keys, n, k, s1),
        is_top(keys, n, k, s2),
        0 <= p < s1.len(),
    ensures
        s1[p] == s2[p],
    decreases p,
{
    if p > 0 {
        lemma_top_agree_upto(keys, n, k, s1, s2, p - 1);
    }
    assert forall|q: int| 0 <= q < p implies s1[q] == s2[q] by {
        lemma_top_agree_upto(keys, n, k, s1, s2, q);
    }
    let a = s1[p];
    let b = s2[p];
    if a != b {
        // neither can rank ahead of the other, yet distinct indices are
        // always ordered one way
        assert(p < s2.len());
        lemma_top_slot(keys, n, k, s1, s2, p);
        lemma_top_slot(keys, n, k, s2, s1, p);
    }
}

/// With equal prefixes before `p`, the entry of `s1` at `p` cannot rank
/// ahead of a different entry of `s2` at `p`.
proof fn lemma_top_slot(keys: Seq<u128>, n: int, k: int, s1: Seq<usize>, s2: Seq<usize>, p: int)
    requires
        0 <= n <= keys.len(),
        is_top(keys, n, k, s1),
        is_top(keys, n, k, s2),
        0 <= p < s1.len(),
        p < s2.len(),
        forall|q: int| 0 <= q < p ==> s1[q] == s2[q],
        s1[p] != s2[p],
    ensures
        !precedes(keys, s1[p] as int, s2[p] as int),
{
    let a = s1[p];
    if precedes(keys, a as int, s2[p] as int) {
        if s2.contains(a) {
            let q = choose|q: int| 0 <= q < s2.len() && s2[q] == a;
            if q < p {
                assert(s1[q] == a);
                assert(precedes(keys, s1[q] as int, s1[p] as int));
            } else {
                assert(q > p);
                assert(precedes(keys, s2[p] as int, s2[q] as int));
            }
        } else {
            assert(s1[p] < n);
            assert(precedes(keys, s2[p] as int, a as int));
        }
    }
}

/// Indices of the `k` highest keys, highest first; among equal keys the
/// earlier index comes first.
pub fn top_indices(keys: &Vec<u128>, k: usize) -> (sel: Vec<usize>)
    ensures
        is_top(keys@, keys@.len() as int, k as int, sel@),
{
    let mut sel: Vec<usize> = Vec::new();
    let mut i: usize = 0;
    while i < keys.len()
        invariant
            i <= keys.len(),
            is_top(keys@, i as int, k as int, sel@),
            sel@.len() < k ==> forall|j: usize| j < i ==> #[trigger] sel@.contains(j),
        decreases keys.len() - i,
    {
        let ki = keys[i];
        let mut p: usize = 0;
        while p < sel.len() && keys[sel[p]] >= ki
            invariant
                p <= sel.len(),
                is_top(keys@, i as int, k as int, sel@),
                sel@.len() < k ==> forall|j: usize| j < i ==> #[trigger] sel@.contains(j),
                i < keys.len(),
                ki == keys@[i as int],
                forall|q: int| 0 <= q < p ==> keys@[#[trigger] sel@[q] as int] >= ki,
            decreases sel.len() - p,
        {
            p += 1;
        }
        let ghost old_sel = sel@;
        proof {
            // every selected index from `p` on ranks behind `i`
            assert forall|q: int| p <= q < old_sel.len() implies keys@[#[trigger] old_sel[q] as int] < ki by {
                if p < q {
                    assert(precedes(keys@, old_sel[p as int] as int, old_sel[q] as int));
                }
            }
        }
        if p < k {
            sel.insert(p, i);
            let ghost ins = sel@;
            proof {
                assert(ins == old_sel.insert(p as int, i));
                assert forall|a: int, b: int| 0 <= a < b < ins.len() implies precedes(
                    keys@,
                    #[trigger] ins[a] as int,
                    #[trigger] ins[b] as int,
                ) by {
                    if b < p {
                    } else if b == p {
                        assert(ins[b] == i);
                    } else if a < p {
                        assert(ins[b] == old_sel[b - 1]);
                        assert(ins[a] == old_sel[a]);
                    } else if a == p {
                        assert(ins[b] == old_sel[b - 1]);
                    } else {
                        assert(ins[b] == old_sel[b - 1]);
                        assert(ins[a] == old_sel[a - 1]);
                    }
                }
                assert forall|t: int| 0 <= t < old_sel.len() implies #[trigger] ins.contains(
                    old_sel[t],
                ) by {
                    if t < p {
                        assert(ins[t] == old_sel[t]);
                    } else {
                        assert(ins[t + 1] == old_sel[t]);
                    }
                }
                assert(ins[p as int] == i);
            }
            if sel.len() > k {
                sel.pop();
            }
            proof {
                let s = sel@;
                assert(forall|q: int| 0 <= q < s.len() ==> s[q] == ins[q]);
                assert forall|a: int, b: int| 0 <= a < b < s.len() implies precedes(
                    keys@,
                    #[trigger] s[a] as int,
                    #[trigger] s[b] as int,
                ) by {
                    assert(precedes(keys@, ins[a] as int, ins[b] as int));
                }
                assert forall|a: int, j: usize|
                    #![trigger s[a], s.contains(j)]
                    0 <= a < s.len() && j < i + 1 && !s.contains(j) implies precedes(
                    keys@,
                    s[a] as int,
                    j as int,
                ) by {
                    if j == i {
                        assert(s[p as int] == i);
                    }
                    if ins.contains(j) {
                        // `j` was dropped: it is the last entry of `ins`
                        let t = choose|t: int| 0 <= t < ins.len() && ins[t] == j;
                        if t < s.len() {
                            assert(s[t] == j);
                        }
                        assert(t == ins.len() - 1);
                        assert(precedes(keys@, ins[a] as int, ins[t] as int));
                    } else {
                        assert(!old_sel.contains(j)) by {
                            if old_sel.contains(j) {
                                let t = choose|t: int| 0 <= t < old_sel.len() && old_sel[t] == j;
                                assert(ins.contains(old_sel[t]));
                            }
                        }
                        assert(j < i);
                        if old_sel.len() < k {
                            assert(old_sel.contains(j));
                        }
                        if a == p {
                            assert(p < old_sel.len());
                            assert(precedes(keys@, old_sel[p as int] as int, j as int));
                        } else if a < p {
                            assert(s[a] == old_sel[a]);
                        } else {
                            assert(s[a] == old_sel[a - 1]);
                        }
                    }
                }
                assert forall|a: int| 0 <= a < s.len() implies #[trigger] s[a] < i + 1 by {
                    if a < p {
                        assert(s[a] == old_sel[a]);
                    } else if a > p {
                        assert(s[a] == old_sel[a - 1]);
                    }
                }
                if s.len() < k {
                    assert forall|j: usize| j < i + 1 implies #[trigger] s.contains(j) by {
                        if j == i {
                            assert(s[p as int] == i);
                        } else {
                            assert(old_sel.contains(j));
                            let t = choose|t: int| 0 <= t < old_sel.len() && old_sel[t] == j;
                            assert(ins.contains(old_sel[t]));
                        }
                    }
                }
            }
        } else {
            proof {
                let s = sel@;
                assert forall|a: int, j: usize|
                    #![trigger s[a], s.contains(j)]
                    0 <= a < s.len() && j < i + 1 && !s.contains(j) implies precedes(
                    keys@,
                    s[a] as int,
                    j as int,
                ) by {
                    if j == i {
                        assert(keys@[s[a] as int] >= ki);
                    }
                }
            }
        }
        i += 1;
    }
    sel
}

} // verus!
