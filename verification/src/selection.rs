//! Bounded top-k selection of retrieval candidates by integer score.
//!
//! Each candidate enters with its score in millionths, a tie-breaking sort
//! key and its index. The selection keeps the `limit` greatest entries in
//! the heap order (score, then sort key, then index) and lists them by
//! descending score, then ascending sort key.
use vstd::prelude::*;

use crate::text::{lemma_lex_irreflexive, lemma_lex_transitive, lemma_lex_trichotomy, lex_lt, str_eq, str_lt};

verus! {

/// A candidate under selection.
#[derive(Debug, Clone)]
pub struct HeapEntry {
    pub score_micros: i64,
    pub tie_breaker: String,
    pub candidate_index: usize,
}

/// The heap order: `a` is greater than `b` by score, then sort key, then
/// index.
pub open spec fn entry_gt(a: HeapEntry, b: HeapEntry) -> bool {
    if a.score_micros != b.score_micros {
        a.score_micros > b.score_micros
    } else if a.tie_breaker@ != b.tie_breaker@ {
        lex_lt(b.tie_breaker@, a.tie_breaker@)
    } else {
        a.candidate_index > b.candidate_index
    }
}

/// The listing order: higher score first, then smaller sort key, then
/// smaller index.
pub open spec fn listed_before(a: HeapEntry, b: HeapEntry) -> bool {
    if a.score_micros != b.score_micros {
        a.score_micros > b.score_micros
    } else if a.tie_breaker@ != b.tie_breaker@ {
        lex_lt(a.tie_breaker@, b.tie_breaker@)
    } else {
        a.candidate_index < b.candidate_index
    }
}

/// Two entries with the same score, sort key and index.
pub open spec fn same_key(a: HeapEntry, b: HeapEntry) -> bool {
    a.score_micros == b.score_micros && a.tie_breaker@ == b.tie_breaker@ && a.candidate_index == b.candidate_index
}

/// `r` are entries of `s` at the distinct positions `pos`, and no entry of
/// `s` left out is greater in the heap order than an entry kept.
pub open spec fn kept_positions(s: Seq<HeapEntry>, r: Seq<HeapEntry>, pos: Seq<int>) -> bool {
    &&& pos.len() == r.len()
    &&& forall|k: int| 0 <= k < r.len() ==> 0 <= #[trigger] pos[k] < s.len() && r[k] == s[pos[k]]
    &&& forall|k1: int, k2: int| 0 <= k1 < k2 < r.len() ==> pos[k1] != pos[k2]
    &&& forall|j: int, k: int|
        0 <= j < s.len() && !pos.contains(j) && 0 <= k < r.len() ==> !entry_gt(#[trigger] s[j], #[trigger] r[k])
}

/// `r` is a top-`limit` selection of `s`: as many entries as the limit
/// allows, the greatest ones in the heap order, listed in listing order.
pub open spec fn top_selection(s: Seq<HeapEntry>, limit: int, r: Seq<HeapEntry>) -> bool {
    &&& r.len() == (if limit < s.len() {
        limit
    } else {
        s.len() as int
    })
    &&& forall|a: int, b: int| 0 <= a < b < r.len() ==> !listed_before(#[trigger] r[b], #[trigger] r[a])
    &&& exists|pos: Seq<int>| kept_positions(s, r, pos)
}

/// The heap order is a strict order, total up to equal keys, and depends
/// on the keys alone.
pub proof fn lemma_entry_order(a: HeapEntry, b: HeapEntry, c: HeapEntry)
    ensures
        !entry_gt(a, a),
        entry_gt(a, b) && entry_gt(b, c) ==> entry_gt(a, c),
        entry_gt(a, b) || entry_gt(b, a) || same_key(a, b),
        same_key(a, b) ==> (entry_gt(a, c) == entry_gt(b, c) && entry_gt(c, a) == entry_gt(c, b)),
{
    lemma_lex_irreflexive(a.tie_breaker@);
    lemma_lex_trichotomy(a.tie_breaker@, b.tie_breaker@);
    lemma_lex_trichotomy(b.tie_breaker@, c.tie_breaker@);
    lemma_lex_trichotomy(a.tie_breaker@, c.tie_breaker@);
    if lex_lt(c.tie_breaker@, b.tie_breaker@) && lex_lt(b.tie_breaker@, a.tie_breaker@) {
        lemma_lex_transitive(c.tie_breaker@, b.tie_breaker@, a.tie_breaker@);
    }
}

/// The listing order is a strict order.
pub proof fn lemma_listed_order(a: HeapEntry, b: HeapEntry, c: HeapEntry)
    ensures
        !listed_before(a, a),
        listed_before(a, b) && listed_before(b, c) ==> listed_before(a, c),
{
    lemma_lex_irreflexive(a.tie_breaker@);
    lemma_lex_trichotomy(a.tie_breaker@, b.tie_breaker@);
    lemma_lex_trichotomy(b.tie_breaker@, c.tie_breaker@);
    lemma_lex_trichotomy(a.tie_breaker@, c.tie_breaker@);
    if lex_lt(a.tie_breaker@, b.tie_breaker@) && lex_lt(b.tie_breaker@, c.tie_breaker@) {
        lemma_lex_transitive(a.tie_breaker@, b.tie_breaker@, c.tie_breaker@);
    }
}

/// Whether `a` is greater than `b` in the heap order.
pub fn heap_gt(a: &HeapEntry, b: &HeapEntry) -> (r: bool)
    ensures
        r == entry_gt(*a, *b),
{
    if a.score_micros != b.score_micros {
        a.score_micros > b.score_micros
    } else if !str_eq(a.tie_breaker.as_str(), b.tie_breaker.as_str()) {
        str_lt(b.tie_breaker.as_str(), a.tie_breaker.as_str())
    } else {
        a.candidate_index > b.candidate_index
    }
}

/// Whether `a` is listed before `b`.
pub fn lists_before(a: &HeapEntry, b: &HeapEntry) -> (r: bool)
    ensures
        r == listed_before(*a, *b),
{
    if a.score_micros != b.score_micros {
        a.score_micros > b.score_micros
    } else if !str_eq(a.tie_breaker.as_str(), b.tie_breaker.as_str()) {
        str_lt(a.tie_breaker.as_str(), b.tie_breaker.as_str())
    } else {
        a.candidate_index < b.candidate_index
    }
}


/// The index in `kept` of an entry no other entry is smaller than in the
/// heap order.
fn smallest_index(kept: &Vec<HeapEntry>) -> (q: usize)
    requires
        kept@.len() > 0,
    ensures
        q < kept@.len(),
        forall|u: int| 0 <= u < kept@.len() ==> !entry_gt(kept@[q as int], #[trigger] kept@[u]),
{
    let mut q: usize = 0;
    let mut t: usize = 1;
    proof {
        lemma_entry_order(kept@[0], kept@[0], kept@[0]);
    }
    while t < kept.len()
        invariant
            1 <= t <= kept@.len(),
            q < t,
            forall|u: int| 0 <= u < t ==> !entry_gt(kept@[q as int], #[trigger] kept@[u]),
        decreases kept@.len() - t,
    {
        if heap_gt(&kept[q], &kept[t]) {
            proof {
                assert forall|u: int| 0 <= u <= t implies !entry_gt(kept@[t as int], #[trigger] kept@[u]) by {
                    lemma_entry_order(kept@[q as int], kept@[t as int], kept@[u]);
                    lemma_entry_order(kept@[t as int], kept@[t as int], kept@[u]);
                }
            }
            q = t;
        } else {
            proof {
                assert(!entry_gt(kept@[q as int], kept@[t as int]));
            }
        }
        t = t + 1;
    }
    q
}

/// The place of `e` in `kept` in listing order: after every entry it is
/// not listed before.
fn listing_place(kept: &Vec<HeapEntry>, e: &HeapEntry) -> (p: usize)
    ensures
        p <= kept@.len(),
        forall|a: int| 0 <= a < p ==> !listed_before(*e, #[trigger] kept@[a]),
        p < kept@.len() ==> listed_before(*e, kept@[p as int]),
{
    let mut p: usize = 0;
    while p < kept.len() && !lists_before(e, &kept[p])
        invariant
            p <= kept@.len(),
            forall|a: int| 0 <= a < p ==> !listed_before(*e, #[trigger] kept@[a]),
        decreases kept@.len() - p,
    {
        p = p + 1;
    }
    p
}

/// Keeps the `limit` greatest entries in the heap order and lists them by
/// descending score, then ascending sort key (then index).
pub fn select_subset_by_score(entries: Vec<HeapEntry>, limit: usize) -> (r: Vec<HeapEntry>)
    ensures
        top_selection(entries@, limit as int, r@),
{
    let ghost s = entries@;
    let n = entries.len();
    let mut rest = entries;
    let mut kept: Vec<HeapEntry> = Vec::new();
    let ghost mut pos: Seq<int> = Seq::empty();
    while rest.len() > 0
        invariant
            n == s.len(),
            rest@.len() <= n,
            rest@ == s.take(rest@.len() as int),
            kept@.len() == (if limit < n - rest@.len() {
                limit as int
            } else {
                n - rest@.len()
            }),
            pos.len() == kept@.len(),
            forall|k: int| 0 <= k < kept@.len() ==> rest@.len() <= #[trigger] pos[k] < n && kept@[k] == s[pos[k]],
            forall|k1: int, k2: int| 0 <= k1 < k2 < kept@.len() ==> pos[k1] != pos[k2],
            forall|j: int, k: int|
                rest@.len() <= j < n && !pos.contains(j) && 0 <= k < kept@.len() ==> !entry_gt(
                    #[trigger] s[j],
                    #[trigger] kept@[k],
                ),
            kept@.len() < limit ==> forall|j: int| rest@.len() <= j < n ==> pos.contains(j),
            forall|a: int, b: int| 0 <= a < b < kept@.len() ==> !listed_before(#[trigger] kept@[b], #[trigger] kept@[a]),
        decreases rest@.len(),
    {
        let e = rest.pop().unwrap();
        let m = rest.len();
        proof {
            assert(e == s[m as int]);
            assert(rest@ =~= s.take(m as int));
        }
        let ghost old_kept = kept@;
        let ghost old_pos = pos;
        let p = listing_place(&kept, &e);
        kept.insert(p, e);
        proof {
            pos = pos.insert(p as int, m as int);
            assert(kept@ == old_kept.insert(p as int, e));
            assert forall|a: int, b: int| 0 <= a < b < kept@.len() implies !listed_before(
                #[trigger] kept@[b],
                #[trigger] kept@[a],
            ) by {
                if a < p && b == p {
                } else if a == p && b > p {
                    lemma_listed_order(old_kept[b - 1], e, old_kept[p as int]);
                    lemma_listed_order(old_kept[p as int], e, old_kept[b - 1]);
                    lemma_listed_order(old_kept[b - 1], old_kept[p as int], e);
                } else if a < p && b > p {
                    assert(kept@[a] == old_kept[a] && kept@[b] == old_kept[b - 1]);
                } else if b < p {
                } else {
                    assert(kept@[a] == old_kept[a - 1] && kept@[b] == old_kept[b - 1]);
                }
            }
            assert forall|j: int| m <= j < n && !pos.contains(j) implies m + 1 <= j && !old_pos.contains(j) by {
                if j == m {
                    assert(pos[p as int] == m);
                }
                if old_pos.contains(j) {
                    let k = choose|k: int| 0 <= k < old_pos.len() && old_pos[k] == j;
                    if k < p {
                        assert(pos[k] == j);
                    } else {
                        assert(pos[k + 1] == j);
                    }
                }
            }
        }
        if kept.len() > limit {
            let ghost ins_kept = kept@;
            let ghost ins_pos = pos;
            let q = smallest_index(&kept);
            let d = kept.remove(q);
            proof {
                pos = pos.remove(q as int);
                assert(kept@ == ins_kept.remove(q as int));
                assert forall|j: int, k: int|
                    m <= j < n && !pos.contains(j) && 0 <= k < kept@.len() implies !entry_gt(
                    #[trigger] s[j],
                    #[trigger] kept@[k],
                ) by {
                    let kk = if k < q {
                        k
                    } else {
                        k + 1
                    };
                    assert(kept@[k] == ins_kept[kk]);
                    if j == ins_pos[q as int] {
                        assert(s[j] == ins_kept[q as int]);
                    } else {
                        if ins_pos.contains(j) {
                            let t = choose|t: int| 0 <= t < ins_pos.len() && ins_pos[t] == j;
                            assert(t != q);
                            if t < q {
                                assert(pos[t] == j);
                            } else {
                                assert(pos[t - 1] == j);
                            }
                        }
                        assert(!ins_pos.contains(j));
                        assert(m + 1 <= j && !old_pos.contains(j));
                        if kk == p {
                            // the entry kept is `e`; the one dropped is an older entry
                            assert(q != p);
                            let oq = if q < p {
                                q as int
                            } else {
                                q - 1
                            };
                            assert(ins_kept[q as int] == old_kept[oq]);
                            assert(!entry_gt(s[j], old_kept[oq]));
                            assert(!entry_gt(ins_kept[q as int], e));
                            lemma_entry_order(e, ins_kept[q as int], s[j]);
                            lemma_entry_order(s[j], e, ins_kept[q as int]);
                        } else {
                            let ok = if kk < p {
                                kk
                            } else {
                                kk - 1
                            };
                            assert(ins_kept[kk] == old_kept[ok]);
                        }
                    }
                }
            }
        }
    }
    proof {
        assert(kept_positions(s, kept@, pos));
    }
    kept
}

} // verus!
