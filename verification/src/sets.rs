//! Ordered sets of strings held in vectors.
//!
//! A vector whose strings strictly increase in string order stands for the
//! set of its elements, as a `BTreeSet<String>` does; iterating it yields
//! the elements in ascending order.
use vstd::prelude::*;

use crate::text::{lemma_lex_irreflexive, lemma_lex_transitive, lemma_lex_trichotomy, lex_lt, str_eq, str_lt};

verus! {

/// The views of a sequence of strings.
pub open spec fn views(v: Seq<String>) -> Seq<Seq<char>> {
    v.map_values(|s: String| s@)
}

/// Strictly increasing in string order (so also free of duplicates).
pub open spec fn sorted_strict(s: Seq<Seq<char>>) -> bool {
    forall|i: int, j: int| 0 <= i < j < s.len() ==> lex_lt(#[trigger] s[i], #[trigger] s[j])
}

/// A strictly sorted sequence holds each string once, so its set has as
/// many elements as it has entries.
pub proof fn lemma_sorted_strict_len(s: Seq<Seq<char>>)
    requires
        sorted_strict(s),
    ensures
        s.no_duplicates(),
        s.to_set().len() == s.len(),
{
    assert forall|i: int, j: int| 0 <= i < s.len() && 0 <= j < s.len() && i != j implies s[i] != s[j] by {
        if i < j {
            assert(lex_lt(s[i], s[j]));
            crate::text::lemma_lex_irreflexive(s[i]);
        } else {
            assert(lex_lt(s[j], s[i]));
            crate::text::lemma_lex_irreflexive(s[j]);
        }
    }
    s.unique_seq_to_set();
}

/// An ordered set is determined by its elements: two strictly sorted
/// sequences with the same elements are equal.
pub proof fn lemma_ordered_set_unique(a: Seq<Seq<char>>, b: Seq<Seq<char>>)
    requires
        sorted_strict(a),
        sorted_strict(b),
        a.to_set() == b.to_set(),
    ensures
        a == b,
    decreases a.len(),
{
    lemma_sorted_strict_len(a);
    lemma_sorted_strict_len(b);
    if a.len() > 0 {
        assert(a.to_set().contains(a[0]));
        assert(b.to_set().contains(b[0]));
        let ia = choose|i: int| 0 <= i < a.len() && a[i] == b[0];
        let ib = choose|i: int| 0 <= i < b.len() && b[i] == a[0];
        if a[0] != b[0] {
            assert(ia > 0 && ib > 0);
            assert(lex_lt(a[0], a[ia]));
            assert(lex_lt(b[0], b[ib]));
            lemma_lex_trichotomy(a[0], b[0]);
        }
        let ta = a.drop_first();
        let tb = b.drop_first();
        assert(ta.to_set() =~= tb.to_set()) by {
            assert forall|x: Seq<char>| ta.to_set().contains(x) implies tb.to_set().contains(x) by {
                let i = choose|i: int| 0 <= i < ta.len() && ta[i] == x;
                assert(a[i + 1] == x);
                assert(b.to_set().contains(x));
                let j = choose|j: int| 0 <= j < b.len() && b[j] == x;
                if j == 0 {
                    assert(lex_lt(a[0], a[i + 1]));
                    lemma_lex_irreflexive(a[0]);
                }
                assert(tb[j - 1] == x);
            }
            assert forall|x: Seq<char>| tb.to_set().contains(x) implies ta.to_set().contains(x) by {
                let i = choose|i: int| 0 <= i < tb.len() && tb[i] == x;
                assert(b[i + 1] == x);
                assert(a.to_set().contains(x));
                let j = choose|j: int| 0 <= j < a.len() && a[j] == x;
                if j == 0 {
                    assert(lex_lt(b[0], b[i + 1]));
                    lemma_lex_irreflexive(b[0]);
                }
                assert(ta[j - 1] == x);
            }
        }
        lemma_ordered_set_unique(ta, tb);
        assert(a =~= seq![a[0]] + ta);
        assert(b =~= seq![b[0]] + tb);
    } else {
        if b.len() > 0 {
            assert(b.to_set().contains(b[0]));
        }
    }
}

/// `v` is an ordered set whose elements are exactly `set`.
pub open spec fn is_ordered_set(v: Seq<String>, set: Set<Seq<char>>) -> bool {
    sorted_strict(views(v)) && views(v).to_set() == set
}

/// A clone of every string, in order.
pub fn clone_strings(v: &Vec<String>) -> (r: Vec<String>)
    ensures
        r@ == v@,
{
    let mut r: Vec<String> = Vec::new();
    let mut i: usize = 0;
    while i < v.len()
        invariant
            i <= v@.len(),
            r@ == v@.take(i as int),
        decreases v@.len() - i,
    {
        r.push(v[i].clone());
        assert(v@.take(i + 1) =~= v@.take(i as int).push(v@[i as int]));
        i = i + 1;
    }
    assert(v@.take(v@.len() as int) =~= v@);
    r
}

/// Whether `x` is among the strings of `v`.
pub fn contains_str(v: &Vec<String>, x: &str) -> (r: bool)
    ensures
        r == views(v@).contains(x@),
{
    let mut i: usize = 0;
    while i < v.len()
        invariant
            i <= v@.len(),
            forall|k: int| 0 <= k < i ==> v@[k]@ != x@,
        decreases v@.len() - i,
    {
        if str_eq(v[i].as_str(), x) {
            assert(views(v@)[i as int] == x@);
            return true;
        }
        i = i + 1;
    }
    assert forall|k: int| 0 <= k < views(v@).len() implies views(v@)[k] != x@ by {
        assert(views(v@)[k] == v@[k]@);
    }
    false
}

/// Inserts `x` into the ordered set `v`.
pub fn set_insert(v: &mut Vec<String>, x: String)
    requires
        sorted_strict(views(old(v)@)),
    ensures
        sorted_strict(views(final(v)@)),
        views(final(v)@).to_set() == views(old(v)@).to_set().insert(x@),
{
    let ghost old_views = views(v@);
    let mut p: usize = 0;
    while p < v.len() && str_lt(v[p].as_str(), x.as_str())
        invariant
            p <= v@.len(),
            views(v@) == old_views,
            sorted_strict(old_views),
            forall|k: int| 0 <= k < p ==> lex_lt(#[trigger] old_views[k], x@),
        decreases v@.len() - p,
    {
        p = p + 1;
    }
    if p < v.len() && str_eq(v[p].as_str(), x.as_str()) {
        assert(old_views[p as int] == x@);
        assert(old_views.to_set().insert(x@) =~= old_views.to_set());
        return;
    }
    proof {
        if p < old_views.len() {
            lemma_lex_trichotomy(old_views[p as int], x@);
        }
    }
    let ghost xv = x@;
    v.insert(p, x);
    proof {
        let nv = views(v@);
        assert(nv =~= old_views.insert(p as int, xv));
        assert forall|i: int, j: int| 0 <= i < j < nv.len() implies lex_lt(
            #[trigger] nv[i],
            #[trigger] nv[j],
        ) by {
            if j < p {
            } else if j == p {
            } else if i < p {
                lemma_lex_transitive(nv[i], xv, old_views[p as int]);
                if j > p + 1 {
                    lemma_lex_transitive(nv[i], old_views[p as int], nv[j]);
                }
            } else if i == p {
                if j > p + 1 {
                    lemma_lex_transitive(xv, old_views[p as int], nv[j]);
                }
            } else {
            }
        }
        assert(nv.to_set() =~= old_views.to_set().insert(xv)) by {
            assert forall|s: Seq<char>| nv.to_set().contains(s) implies old_views.to_set().insert(
                xv,
            ).contains(s) by {
                let k = choose|k: int| 0 <= k < nv.len() && nv[k] == s;
                if k < p {
                    assert(old_views[k] == s);
                } else if k > p {
                    assert(old_views[k - 1] == s);
                }
            }
            assert forall|s: Seq<char>| old_views.to_set().insert(xv).contains(s) implies nv.to_set().contains(
                s,
            ) by {
                if s == xv {
                    assert(nv[p as int] == s);
                } else {
                    let k = choose|k: int| 0 <= k < old_views.len() && old_views[k] == s;
                    if k < p {
                        assert(nv[k] == s);
                    } else {
                        assert(nv[k + 1] == s);
                    }
                }
            }
        }
    }
}

/// Removes `x` from the ordered set `v`.
pub fn set_remove(v: &mut Vec<String>, x: &str)
    requires
        sorted_strict(views(old(v)@)),
    ensures
        sorted_strict(views(final(v)@)),
        views(final(v)@).to_set() == views(old(v)@).to_set().remove(x@),
{
    let ghost old_views = views(v@);
    let mut p: usize = 0;
    while p < v.len()
        invariant
            p <= v@.len(),
            views(v@) == old_views,
            old_views == views(old(v)@),
            sorted_strict(old_views),
            forall|k: int| 0 <= k < p ==> old_views[k] != x@,
        decreases v@.len() - p,
    {
        if str_eq(v[p].as_str(), x) {
            assert(old_views[p as int] == x@);
            v.remove(p);
            proof {
                let nv = views(v@);
                assert(nv =~= old_views.remove(p as int));
                assert forall|i: int, j: int| 0 <= i < j < nv.len() implies lex_lt(
                    #[trigger] nv[i],
                    #[trigger] nv[j],
                ) by {
                    if i < p && j >= p {
                        assert(nv[j] == old_views[j + 1]);
                    } else if i >= p {
                        assert(nv[i] == old_views[i + 1]);
                        assert(nv[j] == old_views[j + 1]);
                    }
                }
                assert(nv.to_set() =~= old_views.to_set().remove(x@)) by {
                    assert forall|s: Seq<char>| nv.to_set().contains(s) implies old_views.to_set().remove(
                        x@,
                    ).contains(s) by {
                        let k = choose|k: int| 0 <= k < nv.len() && nv[k] == s;
                        if k < p {
                            assert(old_views[k] == s);
                            lemma_lex_irreflexive(s);
                        } else {
                            assert(old_views[k + 1] == s);
                            assert(lex_lt(old_views[p as int], old_views[k + 1]));
                            lemma_lex_irreflexive(s);
                        }
                    }
                    assert forall|s: Seq<char>| old_views.to_set().remove(x@).contains(s) implies nv.to_set().contains(
                        s,
                    ) by {
                        let k = choose|k: int| 0 <= k < old_views.len() && old_views[k] == s;
                        if k < p {
                            assert(nv[k] == s);
                        } else if k > p {
                            assert(nv[k - 1] == s);
                        }
                    }
                }
            }
            assert(views(v@).to_set() == old_views.to_set().remove(x@));
            assert(old_views == views(old(v)@));
            return;
        }
        p = p + 1;
    }
    assert(old_views.to_set().remove(x@) =~= old_views.to_set());
}

/// The empty ordered set.
pub fn set_new() -> (v: Vec<String>)
    ensures
        is_ordered_set(v@, Set::empty()),
{
    let v: Vec<String> = Vec::new();
    assert(views(v@).to_set() =~= Set::empty());
    v
}

/// The ordered set of the strings of `items` (sorted, duplicates dropped).
pub fn sorted_unique(items: &Vec<String>) -> (r: Vec<String>)
    ensures
        is_ordered_set(r@, views(items@).to_set()),
{
    let mut r = set_new();
    let mut i: usize = 0;
    assert(views(items@.take(0)).to_set() =~= Set::empty());
    while i < items.len()
        invariant
            i <= items@.len(),
            is_ordered_set(r@, views(items@.take(i as int)).to_set()),
        decreases items@.len() - i,
    {
        set_insert(&mut r, items[i].clone());
        proof {
            assert(views(items@.take(i + 1)) =~= views(items@.take(i as int)).push(items@[i as int]@));
            views(items@.take(i as int)).lemma_push_to_set_commute(items@[i as int]@);
        }
        i = i + 1;
    }
    assert(items@.take(items@.len() as int) =~= items@);
    r
}


/// Adds every string of `items` to the ordered set `v`.
pub fn set_extend(v: &mut Vec<String>, items: &Vec<String>)
    requires
        sorted_strict(views(old(v)@)),
    ensures
        sorted_strict(views(final(v)@)),
        views(final(v)@).to_set() == views(old(v)@).to_set().union(views(items@).to_set()),
{
    let ghost start = views(v@).to_set();
    let mut i: usize = 0;
    assert(views(items@.take(0)).to_set() =~= Set::empty());
    assert(start.union(Set::empty()) =~= start);
    while i < items.len()
        invariant
            i <= items@.len(),
            start == views(old(v)@).to_set(),
            sorted_strict(views(v@)),
            views(v@).to_set() == start.union(views(items@.take(i as int)).to_set()),
        decreases items@.len() - i,
    {
        set_insert(v, items[i].clone());
        proof {
            assert(views(items@.take(i + 1)) =~= views(items@.take(i as int)).push(items@[i as int]@));
            views(items@.take(i as int)).lemma_push_to_set_commute(items@[i as int]@);
            assert(start.union(views(items@.take(i + 1)).to_set()) =~= start.union(
                views(items@.take(i as int)).to_set(),
            ).insert(items@[i as int]@));
        }
        i = i + 1;
    }
    assert(items@.take(items@.len() as int) =~= items@);
}
} // verus!
