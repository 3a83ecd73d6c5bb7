//! Which declarations an audit gathers source facts for.
//!
//! Normally every workspace declaration. A Mathlib-profile audit that
//! compares with Mathlib and hides noise needs facts only for what its
//! candidate sets touch: each anchor's workspace row and each workspace
//! candidate, one declaration per id, in id order, a later one replacing an
//! earlier one with the same id.
use vstd::prelude::*;

use crate::audit::ReviewProfile;
use crate::declaration::{same_declaration, HydratedDeclaration};
use crate::retrieval::{CandidateSet, RetrievedCandidate};
use crate::sets::sorted_strict;
use crate::source_refs::workspace_origin;
use crate::text::{lemma_lex_irreflexive, lemma_lex_transitive, lemma_lex_trichotomy, lex_lt, str_eq, str_lt};

verus! {

/// Whether the audit gathers facts only for what its candidate sets touch.
pub open spec fn facts_for_candidates_only(compare_mathlib: bool, profile: ReviewProfile, show_noise: bool) -> bool {
    compare_mathlib && !show_noise && profile == ReviewProfile::Mathlib
}

/// The last declaration in `s` with id `id`.
pub open spec fn last_with_decl_id(s: Seq<HydratedDeclaration>, id: Seq<char>) -> Option<HydratedDeclaration>
    decreases s.len(),
{
    if s.len() == 0 {
        None
    } else if s.last().declaration_id@ == id {
        Some(s.last())
    } else {
        last_with_decl_id(s.drop_last(), id)
    }
}

/// The workspace declarations among the candidates, in order.
pub open spec fn workspace_candidates(cs: Seq<RetrievedCandidate>) -> Seq<HydratedDeclaration>
    decreases cs.len(),
{
    if cs.len() == 0 {
        Seq::empty()
    } else {
        let rest = workspace_candidates(cs.drop_last());
        if cs.last().declaration.origin@ == workspace_origin() {
            rest.push(cs.last().declaration)
        } else {
            rest
        }
    }
}

/// What one candidate set contributes, in order: its anchor's workspace row
/// (when the workspace has one), then its workspace candidates.
pub open spec fn set_contribution(rows: Seq<HydratedDeclaration>, set: CandidateSet) -> Seq<HydratedDeclaration> {
    let anchor = match last_with_decl_id(rows, set.anchor.declaration_id@) {
        Some(d) => seq![d],
        None => Seq::empty(),
    };
    anchor + workspace_candidates(set.candidates@)
}

/// What all candidate sets contribute, in order.
pub open spec fn contributions(rows: Seq<HydratedDeclaration>, sets: Seq<CandidateSet>) -> Seq<HydratedDeclaration>
    decreases sets.len(),
{
    if sets.len() == 0 {
        Seq::empty()
    } else {
        contributions(rows, sets.drop_last()) + set_contribution(rows, sets.last())
    }
}

/// The ids of a list of declarations.
pub open spec fn decl_ids(s: Seq<HydratedDeclaration>) -> Seq<Seq<char>> {
    s.map_values(|d: HydratedDeclaration| d.declaration_id@)
}

/// `r` holds one declaration per id of `s`, in id order, each the last one
/// `s` has under its id.
pub open spec fn keyed_by_last_id(r: Seq<HydratedDeclaration>, s: Seq<HydratedDeclaration>) -> bool {
    &&& sorted_strict(decl_ids(r))
    &&& decl_ids(r).to_set() == decl_ids(s).to_set()
    &&& forall|k: int|
        0 <= k < r.len() ==> (last_with_decl_id(s, (#[trigger] r[k]).declaration_id@) matches Some(d)
            && same_declaration(r[k], d))
}

proof fn lemma_last_with_id_push(s: Seq<HydratedDeclaration>, x: HydratedDeclaration, id: Seq<char>)
    ensures
        last_with_decl_id(s.push(x), id) == if x.declaration_id@ == id {
            Some(x)
        } else {
            last_with_decl_id(s, id)
        },
{
    assert(s.push(x).drop_last() =~= s);
}

/// Puts `x` into `out` under its id, replacing a declaration with the same
/// id, keeping `out` in id order.
fn upsert(
    out: &mut Vec<HydratedDeclaration>,
    x: HydratedDeclaration,
    Ghost(seen): Ghost<Seq<HydratedDeclaration>>,
    Ghost(orig): Ghost<HydratedDeclaration>,
)
    requires
        keyed_by_last_id(old(out)@, seen),
        same_declaration(x, orig),
    ensures
        keyed_by_last_id(final(out)@, seen.push(orig)),
{
    let ghost before = out@;
    let mut p: usize = 0;
    while p < out.len() && str_lt(out[p].declaration_id.as_str(), x.declaration_id.as_str())
        invariant
            p <= out@.len(),
            out@ == before,
            forall|i: int| 0 <= i < p ==> lex_lt((#[trigger] out@[i]).declaration_id@, x.declaration_id@),
        decreases out@.len() - p,
    {
        p = p + 1;
    }
    let ghost after_seen = seen.push(orig);
    proof {
        assert forall|id: Seq<char>| #[trigger] last_with_decl_id(after_seen, id) == if orig.declaration_id@ == id {
            Some(orig)
        } else {
            last_with_decl_id(seen, id)
        } by {
            lemma_last_with_id_push(seen, orig, id);
        }
        assert(decl_ids(after_seen) =~= decl_ids(seen).push(x.declaration_id@));
        decl_ids(seen).lemma_push_to_set_commute(x.declaration_id@);
    }
    if p < out.len() && str_eq(out[p].declaration_id.as_str(), x.declaration_id.as_str()) {
        out.set(p, x);
        proof {
            assert(decl_ids(out@) =~= decl_ids(before));
            assert(decl_ids(before).to_set().contains(x.declaration_id@)) by {
                assert(decl_ids(before)[p as int] == x.declaration_id@);
            }
            assert(decl_ids(out@).to_set() =~= decl_ids(after_seen).to_set());
            assert forall|k: int| 0 <= k < out@.len() implies (last_with_decl_id(
                after_seen,
                (#[trigger] out@[k]).declaration_id@,
            ) matches Some(d) && same_declaration(out@[k], d)) by {
                if k != p {
                    assert(out@[k] == before[k]);
                    assert(decl_ids(before)[k] != decl_ids(before)[p as int]) by {
                        if k < p {
                            lemma_lex_irreflexive(decl_ids(before)[k]);
                        } else {
                            lemma_lex_irreflexive(decl_ids(before)[p as int]);
                        }
                    }
                }
            }
        }
    } else {
        proof {
            if p < out@.len() {
                lemma_lex_trichotomy(out@[p as int].declaration_id@, x.declaration_id@);
            }
        }
        let ghost xid = x.declaration_id@;
        out.insert(p, x);
        proof {
            assert(decl_ids(out@) =~= decl_ids(before).insert(p as int, xid));
            assert forall|i: int, j: int| 0 <= i < j < decl_ids(out@).len() implies lex_lt(
                #[trigger] decl_ids(out@)[i],
                #[trigger] decl_ids(out@)[j],
            ) by {
                let ids = decl_ids(before);
                if j < p {
                    assert(ids[i] == decl_ids(out@)[i] && ids[j] == decl_ids(out@)[j]);
                } else if j == p {
                    assert(lex_lt(before[i].declaration_id@, xid));
                } else if i == p {
                    if j - 1 > p {
                        assert(lex_lt(ids[p as int], ids[j - 1]));
                        lemma_lex_transitive(xid, ids[p as int], ids[j - 1]);
                    }
                } else if i < p {
                    assert(lex_lt(before[i].declaration_id@, xid));
                    assert(lex_lt(xid, ids[p as int]));
                    if j - 1 > p {
                        assert(lex_lt(ids[p as int], ids[j - 1]));
                        lemma_lex_transitive(xid, ids[p as int], ids[j - 1]);
                    }
                    lemma_lex_transitive(ids[i], xid, ids[j - 1]);
                } else {
                    assert(ids[i - 1] == decl_ids(out@)[i] && ids[j - 1] == decl_ids(out@)[j]);
                }
            }
            decl_ids(before).lemma_push_to_set_commute(xid);
            assert(decl_ids(out@).to_set() =~= decl_ids(before).to_set().insert(xid)) by {
                assert forall|id| decl_ids(out@).to_set().contains(id) <==> decl_ids(before).to_set().insert(xid).contains(
                    id,
                ) by {
                    if decl_ids(out@).contains(id) {
                        let q = choose|q: int| 0 <= q < decl_ids(out@).len() && decl_ids(out@)[q] == id;
                        if q < p {
                            assert(decl_ids(before)[q] == id);
                        } else if q > p {
                            assert(decl_ids(before)[q - 1] == id);
                        }
                    }
                    if decl_ids(before).contains(id) {
                        let q = choose|q: int| 0 <= q < decl_ids(before).len() && decl_ids(before)[q] == id;
                        if q < p {
                            assert(decl_ids(out@)[q] == id);
                        } else {
                            assert(decl_ids(out@)[q + 1] == id);
                        }
                    }
                    if id == xid {
                        assert(decl_ids(out@)[p as int] == id);
                    }
                }
            }
            assert forall|k: int| 0 <= k < out@.len() implies (last_with_decl_id(
                after_seen,
                (#[trigger] out@[k]).declaration_id@,
            ) matches Some(d) && same_declaration(out@[k], d)) by {
                if k != p {
                    let kk = if k < p {
                        k
                    } else {
                        k - 1
                    };
                    assert(out@[k] == before[kk]);
                    if before[kk].declaration_id@ == xid {
                        if kk < p {
                            lemma_lex_irreflexive(xid);
                        } else {
                            assert(lex_lt(xid, decl_ids(before)[p as int]));
                            if kk > p {
                                assert(lex_lt(decl_ids(before)[p as int], decl_ids(before)[kk]));
                                lemma_lex_transitive(xid, decl_ids(before)[p as int], xid);
                            }
                            lemma_lex_irreflexive(xid);
                        }
                    }
                } else {
                    assert(same_declaration(out@[k], orig));
                }
            }
        }
    }
}


fn last_row_index(rows: &Vec<HydratedDeclaration>, id: &str) -> (r: Option<usize>)
    ensures
        match r {
            Some(i) => i < rows@.len() && last_with_decl_id(rows@, id@) == Some(rows@[i as int]),
            None => last_with_decl_id(rows@, id@) is None,
        },
{
    let mut i = rows.len();
    assert(rows@.take(i as int) =~= rows@);
    while i > 0
        invariant
            i <= rows@.len(),
            last_with_decl_id(rows@, id@) == last_with_decl_id(rows@.take(i as int), id@),
        decreases i,
    {
        proof {
            assert(rows@.take(i as int).drop_last() =~= rows@.take(i - 1));
        }
        if str_eq(rows[i - 1].declaration_id.as_str(), id) {
            return Some(i - 1);
        }
        i = i - 1;
    }
    None
}

/// The declarations an audit gathers source facts for: every workspace row,
/// or, for a Mathlib-profile audit that compares with Mathlib and hides
/// noise, one declaration per id among the anchors' workspace rows and the
/// workspace candidates of the candidate sets, in id order, the last one
/// under each id.
pub fn source_fact_declarations(
    workspace_rows: &Vec<HydratedDeclaration>,
    candidate_sets: &Vec<CandidateSet>,
    compare_mathlib: bool,
    review_profile: ReviewProfile,
    show_noise: bool,
) -> (r: Vec<HydratedDeclaration>)
    ensures
        !facts_for_candidates_only(compare_mathlib, review_profile, show_noise) ==> r@.len() == workspace_rows@.len()
            && forall|k: int| 0 <= k < r@.len() ==> same_declaration(#[trigger] r@[k], workspace_rows@[k]),
        facts_for_candidates_only(compare_mathlib, review_profile, show_noise) ==> keyed_by_last_id(
            r@,
            contributions(workspace_rows@, candidate_sets@),
        ),
{
    if !compare_mathlib || show_noise || review_profile != ReviewProfile::Mathlib {
        let mut all: Vec<HydratedDeclaration> = Vec::new();
        let mut i: usize = 0;
        while i < workspace_rows.len()
            invariant
                i <= workspace_rows@.len(),
                all@.len() == i,
                forall|k: int| 0 <= k < i ==> same_declaration(#[trigger] all@[k], workspace_rows@[k]),
            decreases workspace_rows@.len() - i,
        {
            all.push(workspace_rows[i].copy());
            i = i + 1;
        }
        return all;
    }
    let ghost rows = workspace_rows@;
    let ghost sets = candidate_sets@;
    let mut out: Vec<HydratedDeclaration> = Vec::new();
    let ghost mut seen: Seq<HydratedDeclaration> = Seq::empty();
    proof {
        assert(decl_ids(out@).to_set() =~= decl_ids(seen).to_set());
    }
    let mut s: usize = 0;
    while s < candidate_sets.len()
        invariant
            s <= sets.len(),
            rows == workspace_rows@,
            sets == candidate_sets@,
            seen == contributions(rows, sets.take(s as int)),
            keyed_by_last_id(out@, seen),
        decreases sets.len() - s,
    {
        let set = &candidate_sets[s];
        proof {
            assert(sets.take(s + 1).drop_last() =~= sets.take(s as int));
        }
        let ghost start = seen;
        match last_row_index(workspace_rows, set.anchor.declaration_id.as_str()) {
            Some(i) => {
                let d = workspace_rows[i].copy();
                upsert(&mut out, d, Ghost(seen), Ghost(rows[i as int]));
                proof {
                    seen = seen.push(rows[i as int]);
                }
            },
            None => {},
        }
        let ghost anchor_part = seen;
        proof {
            assert(anchor_part == start + match last_with_decl_id(rows, set.anchor.declaration_id@) {
                Some(d) => seq![d],
                None => Seq::<HydratedDeclaration>::empty(),
            }) by {
                if last_with_decl_id(rows, set.anchor.declaration_id@) is None {
                    assert(start + Seq::<HydratedDeclaration>::empty() =~= start);
                } else {
                    assert(start.push(last_with_decl_id(rows, set.anchor.declaration_id@)->Some_0) =~= start + seq![
                        last_with_decl_id(rows, set.anchor.declaration_id@)->Some_0,
                    ]);
                }
            }
            assert(set.candidates@.take(0) =~= Seq::<RetrievedCandidate>::empty());
            assert(anchor_part + workspace_candidates(set.candidates@.take(0)) =~= anchor_part);
        }
        let mut c: usize = 0;
        while c < set.candidates.len()
            invariant
                c <= set.candidates@.len(),
                seen == anchor_part + workspace_candidates(set.candidates@.take(c as int)),
                keyed_by_last_id(out@, seen),
            decreases set.candidates@.len() - c,
        {
            let cand = &set.candidates[c];
            proof {
                assert(set.candidates@.take(c + 1).drop_last() =~= set.candidates@.take(c as int));
                assert(set.candidates@.take(c + 1).last() == *cand);
            }
            if crate::source_refs::is_workspace(cand.declaration.origin.as_str()) {
                let d = cand.declaration.copy();
                upsert(&mut out, d, Ghost(seen), Ghost(cand.declaration));
                proof {
                    assert(anchor_part + workspace_candidates(set.candidates@.take(c as int)).push(cand.declaration)
                        =~= (anchor_part + workspace_candidates(set.candidates@.take(c as int))).push(cand.declaration));
                    seen = seen.push(cand.declaration);
                }
            }
            c = c + 1;
        }
        proof {
            assert(set.candidates@.take(set.candidates@.len() as int) =~= set.candidates@);
            assert(sets.take(s + 1).last() == *set);
            assert(seen =~= start + set_contribution(rows, *set));
        }
        s = s + 1;
    }
    proof {
        assert(sets.take(s as int) =~= sets);
    }
    out
}

} // verus!
