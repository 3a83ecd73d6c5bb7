//! Stable pair-feature facts for search-quality datasets: the feature
//! families retrieval matched, the declaration kinds, the evidence mode, the
//! shared structural fingerprints and roles, the module relation, the
//! semantic state and the cheap blockers of a candidate pair.
use vstd::prelude::*;

use crate::declaration::HydratedDeclaration;
use crate::retrieval::{feature_family_of, KeyContribution};
use crate::semantic::{
    obligation_fact, semantic_reranking_summary, EvidenceStatus, SearchSemanticObligationFact,
    SearchSemanticRerankingSummary, SemanticEvidence,
};
use crate::sets::{contains_str, is_ordered_set, set_insert, set_new, views};
use crate::text::{opt_view, str_eq};
use crate::worker::RoleFeature;

verus! {

/// How the two declarations of a pair can be compared.
#[derive(Debug, Clone, Copy, PartialEq, Eq, Structural)]
pub enum SearchEvidenceMode {
    Local,
    SourceBacked,
    Static,
}

/// Shared role features of one family.
#[derive(Debug, Clone)]
pub struct SearchRoleOverlap {
    pub family: String,
    pub count: usize,
}

/// Whether the two declarations live in one module.
#[derive(Debug, Clone)]
pub enum SearchModuleRelation {
    SameModule { module: String },
    DifferentModules { left_module: String, right_module: String },
}

/// What the semantic probe said about the pair.
#[derive(Debug, Clone, Copy, PartialEq, Eq, Structural)]
pub enum SearchSemanticEvidenceState {
    NotRun,
    Verified,
    Rejected,
    Unavailable,
}

/// Stable pair-feature facts.
#[derive(Debug, Clone)]
pub struct SearchPairFeatures {
    pub retrieval_feature_families: Vec<String>,
    pub declaration_kinds: Vec<String>,
    pub evidence_mode: SearchEvidenceMode,
    pub structural_fingerprint_families: Vec<String>,
    pub role_overlap: Vec<SearchRoleOverlap>,
    pub module_relation: SearchModuleRelation,
    pub semantic_reranking: SearchSemanticRerankingSummary,
    pub semantic_evidence_state: SearchSemanticEvidenceState,
    pub semantic_obligations: Vec<SearchSemanticObligationFact>,
    pub cheap_blockers: Vec<String>,
}

/// The feature families of the contributions, or `unknown` when there are
/// none.
pub open spec fn family_set(cs: Seq<KeyContribution>) -> Set<Seq<char>> {
    if cs.len() == 0 {
        set!["unknown"@]
    } else {
        Set::new(
            |f: Seq<char>|
                exists|i: int|
                    0 <= i < cs.len() && f == feature_family_of((#[trigger] cs[i]).kind@, opt_view(cs[i].role)),
        )
    }
}

/// The feature families of the contributions, as an ordered set.
pub fn feature_families(cs: &Vec<KeyContribution>) -> (r: Vec<String>)
    ensures
        is_ordered_set(r@, family_set(cs@)),
{
    let mut out = set_new();
    if cs.len() == 0 {
        set_insert(&mut out, "unknown".to_owned());
        assert(views(out@).to_set() =~= set!["unknown"@]);
        return out;
    }
    let mut i: usize = 0;
    while i < cs.len()
        invariant
            i <= cs@.len(),
            crate::sets::sorted_strict(views(out@)),
            views(out@).to_set() == Set::new(
                |f: Seq<char>|
                    exists|k: int|
                        0 <= k < i && f == feature_family_of((#[trigger] cs@[k]).kind@, opt_view(cs@[k].role)),
            ),
        decreases cs@.len() - i,
    {
        let fam = cs[i].feature_family();
        let ghost fv = fam@;
        set_insert(&mut out, fam);
        proof {
            let a = Set::new(
                |f: Seq<char>|
                    exists|k: int|
                        0 <= k < i && f == feature_family_of((#[trigger] cs@[k]).kind@, opt_view(cs@[k].role)),
            );
            let b = Set::new(
                |f: Seq<char>|
                    exists|k: int|
                        0 <= k < i + 1 && f == feature_family_of((#[trigger] cs@[k]).kind@, opt_view(cs@[k].role)),
            );
            assert(b =~= a.insert(fv)) by {
                assert forall|f| b.contains(f) implies a.insert(fv).contains(f) by {
                    let k = choose|k: int|
                        0 <= k < i + 1 && f == feature_family_of((#[trigger] cs@[k]).kind@, opt_view(cs@[k].role));
                    if k < i {
                        assert(a.contains(f));
                    }
                }
                assert forall|f| a.insert(fv).contains(f) implies b.contains(f) by {
                    if f == fv {
                        assert(f == feature_family_of(cs@[i as int].kind@, opt_view(cs@[i as int].role)));
                    } else {
                        let k = choose|k: int|
                            0 <= k < i && f == feature_family_of((#[trigger] cs@[k]).kind@, opt_view(cs@[k].role));
                        assert(0 <= k < i + 1);
                    }
                }
            }
        }
        i = i + 1;
    }
    out
}

/// The two kinds, as an ordered set.
pub fn declaration_kinds(l: &HydratedDeclaration, r: &HydratedDeclaration) -> (out: Vec<String>)
    ensures
        is_ordered_set(out@, set![l.kind@, r.kind@]),
{
    let mut out = set_new();
    set_insert(&mut out, l.kind.clone());
    set_insert(&mut out, r.kind.clone());
    assert(Set::<Seq<char>>::empty().insert(l.kind@).insert(r.kind@) =~= set![l.kind@, r.kind@]);
    out
}

/// Local when both come from one origin, source-backed when both have
/// source spans, static otherwise.
pub open spec fn evidence_mode_of(l: HydratedDeclaration, r: HydratedDeclaration) -> SearchEvidenceMode {
    if l.origin@ == r.origin@ {
        SearchEvidenceMode::Local
    } else if l.source_span is Some && r.source_span is Some {
        SearchEvidenceMode::SourceBacked
    } else {
        SearchEvidenceMode::Static
    }
}

/// How the two declarations can be compared.
pub fn evidence_mode(l: &HydratedDeclaration, r: &HydratedDeclaration) -> (m: SearchEvidenceMode)
    ensures
        m == evidence_mode_of(*l, *r),
{
    if str_eq(l.origin.as_str(), r.origin.as_str()) {
        SearchEvidenceMode::Local
    } else if l.source_span.is_some() && r.source_span.is_some() {
        SearchEvidenceMode::SourceBacked
    } else {
        SearchEvidenceMode::Static
    }
}

/// A fingerprint both share (and that is not empty).
pub open spec fn shared(a: Seq<char>, b: Seq<char>) -> bool {
    a.len() > 0 && a == b
}

/// The structural fingerprint families both declarations share, in family
/// order (statement, safe permutation, connective, conclusion).
pub open spec fn structural_families(l: HydratedDeclaration, r: HydratedDeclaration) -> Seq<Seq<char>> {
    (if shared(l.fingerprints.statement@, r.fingerprints.statement@) {
        seq!["statement_fingerprint"@]
    } else {
        Seq::empty()
    }) + (if shared(l.fingerprints.safe_binder_permutation@, r.fingerprints.safe_binder_permutation@) {
        seq!["safe_permutation_fingerprint"@]
    } else {
        Seq::empty()
    }) + (if shared(l.fingerprints.connective_shape@, r.fingerprints.connective_shape@) {
        seq!["connective_fingerprint"@]
    } else {
        Seq::empty()
    }) + (if shared(l.fingerprints.conclusion_shape@, r.fingerprints.conclusion_shape@) {
        seq!["conclusion_fingerprint"@]
    } else {
        Seq::empty()
    })
}

fn push_if(out: &mut Vec<String>, cond: bool, s: &str)
    ensures
        views(final(out)@) == views(old(out)@) + if cond {
            seq![s@]
        } else {
            Seq::empty()
        },
{
    let ghost before = views(out@);
    if cond {
        out.push(s.to_owned());
        assert(views(out@) =~= before + seq![s@]);
    } else {
        assert(views(out@) =~= before + Seq::empty());
    }
}

/// The structural fingerprint families both declarations share.
pub fn structural_fingerprint_families(l: &HydratedDeclaration, r: &HydratedDeclaration) -> (out: Vec<String>)
    ensures
        views(out@) == structural_families(*l, *r),
{
    let mut out: Vec<String> = Vec::new();
    let a = &l.fingerprints;
    let b = &r.fingerprints;
    assert(views(out@) =~= Seq::empty());
    push_if(
        &mut out,
        !a.statement.as_str().is_empty() && str_eq(a.statement.as_str(), b.statement.as_str()),
        "statement_fingerprint",
    );
    push_if(
        &mut out,
        !a.safe_binder_permutation.as_str().is_empty() && str_eq(
            a.safe_binder_permutation.as_str(),
            b.safe_binder_permutation.as_str(),
        ),
        "safe_permutation_fingerprint",
    );
    push_if(
        &mut out,
        !a.connective_shape.as_str().is_empty() && str_eq(a.connective_shape.as_str(), b.connective_shape.as_str()),
        "connective_fingerprint",
    );
    push_if(
        &mut out,
        !a.conclusion_shape.as_str().is_empty() && str_eq(a.conclusion_shape.as_str(), b.conclusion_shape.as_str()),
        "conclusion_fingerprint",
    );
    proof {
        assert(views(out@) =~= structural_families(*l, *r));
    }
    out
}

/// The family of a role.
pub open spec fn role_family_of(role: Seq<char>) -> Seq<char> {
    if role == "conclusion_const"@ {
        "role_conclusion_const"@
    } else if role == "hypothesis_const"@ {
        "role_hypothesis_const"@
    } else if role == "conclusion_head"@ || role == "hypothesis_head"@ || role == "binder_domain_head"@ {
        "role_head"@
    } else {
        "role_other"@
    }
}

/// The family of a role (role features are grouped by role).
pub fn role_family(role: &str) -> (r: String)
    ensures
        r@ == role_family_of(role@),
{
    if str_eq(role, "conclusion_const") {
        "role_conclusion_const".to_owned()
    } else if str_eq(role, "hypothesis_const") {
        "role_hypothesis_const".to_owned()
    } else if str_eq(role, "conclusion_head") || str_eq(role, "hypothesis_head") || str_eq(role, "binder_domain_head") {
        "role_head".to_owned()
    } else {
        "role_other".to_owned()
    }
}

/// The module relation of the pair.
pub open spec fn module_relation_ok(m: SearchModuleRelation, l: HydratedDeclaration, r: HydratedDeclaration) -> bool {
    match m {
        SearchModuleRelation::SameModule { module } => l.module@ == r.module@ && module@ == l.module@,
        SearchModuleRelation::DifferentModules { left_module, right_module } => l.module@ != r.module@
            && left_module@ == l.module@ && right_module@ == r.module@,
    }
}

/// Whether the two declarations live in one module.
pub fn module_relation(l: &HydratedDeclaration, r: &HydratedDeclaration) -> (m: SearchModuleRelation)
    ensures
        module_relation_ok(m, *l, *r),
{
    if str_eq(l.module.as_str(), r.module.as_str()) {
        SearchModuleRelation::SameModule { module: l.module.clone() }
    } else {
        SearchModuleRelation::DifferentModules { left_module: l.module.clone(), right_module: r.module.clone() }
    }
}

/// The semantic state of a pair.
pub open spec fn semantic_state_of(s: Option<SemanticEvidence>) -> SearchSemanticEvidenceState {
    match s {
        None => SearchSemanticEvidenceState::NotRun,
        Some(e) => match e.status {
            EvidenceStatus::Verified => SearchSemanticEvidenceState::Verified,
            EvidenceStatus::Rejected => SearchSemanticEvidenceState::Rejected,
            EvidenceStatus::Unavailable => SearchSemanticEvidenceState::Unavailable,
        },
    }
}

/// What the semantic probe said about the pair.
pub fn semantic_evidence_state(s: Option<&SemanticEvidence>) -> (r: SearchSemanticEvidenceState)
    ensures
        r == semantic_state_of(
            match s {
                Some(e) => Some(*e),
                None => None,
            },
        ),
{
    match s {
        None => SearchSemanticEvidenceState::NotRun,
        Some(e) => match e.status {
            EvidenceStatus::Verified => SearchSemanticEvidenceState::Verified,
            EvidenceStatus::Rejected => SearchSemanticEvidenceState::Rejected,
            EvidenceStatus::Unavailable => SearchSemanticEvidenceState::Unavailable,
        },
    }
}

/// Cheap blockers of the pair.
pub open spec fn cheap_blocker_set(l: HydratedDeclaration, r: HydratedDeclaration, cs: Seq<KeyContribution>) -> Set<Seq<char>> {
    Set::new(
        |b: Seq<char>|
            {
                ||| (b == "generated"@ && (crate::review_policy::generated_spec(l)
                    || crate::review_policy::generated_spec(r)))
                ||| (b == "non_public"@ && (l.visibility@ != "public"@ || r.visibility@ != "public"@))
                ||| (b == "low_signal_marker"@ && (l.low_signal_markers@.len() > 0 || r.low_signal_markers@.len()
                    > 0))
                ||| (b == "role_head_only"@ && cs.len() > 0 && forall|i: int|
                    0 <= i < cs.len() ==> feature_family_of((#[trigger] cs[i]).kind@, opt_view(cs[i].role))
                        == "role_head"@)
            },
    )
}

/// The cheap blockers of the pair, as an ordered set.
pub fn cheap_blockers(l: &HydratedDeclaration, r: &HydratedDeclaration, cs: &Vec<KeyContribution>) -> (out: Vec<String>)
    ensures
        is_ordered_set(out@, cheap_blocker_set(*l, *r, cs@)),
{
    let mut out = set_new();
    let ghost mut acc: Set<Seq<char>> = Set::empty();
    if contains_str(&l.status_flags, "generated") || contains_str(&r.status_flags, "generated") {
        set_insert(&mut out, "generated".to_owned());
        proof { acc = acc.insert("generated"@); }
    }
    if !str_eq(l.visibility.as_str(), "public") || !str_eq(r.visibility.as_str(), "public") {
        set_insert(&mut out, "non_public".to_owned());
        proof { acc = acc.insert("non_public"@); }
    }
    if l.low_signal_markers.len() > 0 || r.low_signal_markers.len() > 0 {
        set_insert(&mut out, "low_signal_marker".to_owned());
        proof { acc = acc.insert("low_signal_marker"@); }
    }
    let mut all_head = cs.len() > 0;
    let mut i: usize = 0;
    while i < cs.len()
        invariant
            i <= cs@.len(),
            all_head == (cs@.len() > 0 && forall|k: int|
                0 <= k < i ==> feature_family_of((#[trigger] cs@[k]).kind@, opt_view(cs@[k].role)) == "role_head"@),
        decreases cs@.len() - i,
    {
        let fam = cs[i].feature_family();
        if !str_eq(fam.as_str(), "role_head") {
            all_head = false;
        }
        i = i + 1;
    }
    if all_head {
        set_insert(&mut out, "role_head_only".to_owned());
        proof { acc = acc.insert("role_head_only"@); }
    }
    proof {
        assert(acc =~= cheap_blocker_set(*l, *r, cs@));
    }
    out
}


/// The right declaration has a role feature with this role and key.
pub open spec fn has_role_key(rf: Seq<RoleFeature>, role: Seq<char>, key: Seq<char>) -> bool {
    exists|j: int| 0 <= j < rf.len() && (#[trigger] rf[j]).role@ == role && rf[j].key@ == key
}

/// Left role features of family `fam` that the right declaration shares.
pub open spec fn overlap_count(lf: Seq<RoleFeature>, rf: Seq<RoleFeature>, fam: Seq<char>) -> int
    decreases lf.len(),
{
    if lf.len() == 0 {
        0
    } else {
        overlap_count(lf.drop_last(), rf, fam) + if role_family_of(lf.last().role@) == fam && has_role_key(
            rf,
            lf.last().role@,
            lf.last().key@,
        ) {
            1int
        } else {
            0int
        }
    }
}

/// Shared role features per family, families in order, zero counts left out.
pub open spec fn role_overlap_spec(l: HydratedDeclaration, r: HydratedDeclaration) -> Seq<(Seq<char>, int)> {
    let lf = l.role_features@;
    let rf = r.role_features@;
    let one = |f: Seq<char>|
        if overlap_count(lf, rf, f) > 0 {
            seq![(f, overlap_count(lf, rf, f))]
        } else {
            Seq::empty()
        };
    one("role_conclusion_const"@) + one("role_head"@) + one("role_hypothesis_const"@) + one("role_other"@)
}

fn has_key(rf: &Vec<RoleFeature>, role: &str, key: &str) -> (b: bool)
    ensures
        b == has_role_key(rf@, role@, key@),
{
    let mut j: usize = 0;
    while j < rf.len()
        invariant
            j <= rf@.len(),
            forall|q: int| 0 <= q < j ==> !((#[trigger] rf@[q]).role@ == role@ && rf@[q].key@ == key@),
        decreases rf@.len() - j,
    {
        if str_eq(rf[j].role.as_str(), role) && str_eq(rf[j].key.as_str(), key) {
            return true;
        }
        j = j + 1;
    }
    false
}

fn count_family(lf: &Vec<RoleFeature>, rf: &Vec<RoleFeature>, fam: &str) -> (n: usize)
    ensures
        n == overlap_count(lf@, rf@, fam@),
{
    let mut n: usize = 0;
    let mut i: usize = 0;
    while i < lf.len()
        invariant
            i <= lf@.len(),
            n <= i,
            n == overlap_count(lf@.take(i as int), rf@, fam@),
        decreases lf@.len() - i,
    {
        proof {
            assert(lf@.take(i + 1).drop_last() =~= lf@.take(i as int));
            assert(lf@.take(i + 1).last() == lf@[i as int]);
        }
        let f = role_family(lf[i].role.as_str());
        if str_eq(f.as_str(), fam) && has_key(rf, lf[i].role.as_str(), lf[i].key.as_str()) {
            n = n + 1;
        }
        i = i + 1;
    }
    assert(lf@.take(lf@.len() as int) =~= lf@);
    n
}

/// The view of role overlaps.
pub open spec fn overlap_views(v: Seq<SearchRoleOverlap>) -> Seq<(Seq<char>, int)> {
    v.map_values(|o: SearchRoleOverlap| (o.family@, o.count as int))
}

fn push_overlap(out: &mut Vec<SearchRoleOverlap>, fam: &str, n: usize)
    ensures
        overlap_views(final(out)@) == overlap_views(old(out)@) + if n > 0 {
            seq![(fam@, n as int)]
        } else {
            Seq::empty()
        },
{
    let ghost before = overlap_views(out@);
    if n > 0 {
        out.push(SearchRoleOverlap { family: fam.to_owned(), count: n });
        assert(overlap_views(out@) =~= before + seq![(fam@, n as int)]);
    } else {
        assert(overlap_views(out@) =~= before + Seq::empty());
    }
}

/// Shared role features per family.
pub fn role_overlap(l: &HydratedDeclaration, r: &HydratedDeclaration) -> (out: Vec<SearchRoleOverlap>)
    ensures
        overlap_views(out@) == role_overlap_spec(*l, *r),
{
    let mut out: Vec<SearchRoleOverlap> = Vec::new();
    assert(overlap_views(out@) =~= Seq::empty());
    let a = count_family(&l.role_features, &r.role_features, "role_conclusion_const");
    push_overlap(&mut out, "role_conclusion_const", a);
    let b = count_family(&l.role_features, &r.role_features, "role_head");
    push_overlap(&mut out, "role_head", b);
    let c = count_family(&l.role_features, &r.role_features, "role_hypothesis_const");
    push_overlap(&mut out, "role_hypothesis_const", c);
    let d = count_family(&l.role_features, &r.role_features, "role_other");
    push_overlap(&mut out, "role_other", d);
    proof {
        assert(overlap_views(out@) =~= role_overlap_spec(*l, *r));
    }
    out
}

/// The pair features of a candidate pair, with its semantic evidence if any.
pub open spec fn pair_features_ok(
    f: SearchPairFeatures,
    l: HydratedDeclaration,
    r: HydratedDeclaration,
    cs: Seq<KeyContribution>,
    s: Option<SemanticEvidence>,
) -> bool {
    &&& is_ordered_set(f.retrieval_feature_families@, family_set(cs))
    &&& is_ordered_set(f.declaration_kinds@, set![l.kind@, r.kind@])
    &&& f.evidence_mode == evidence_mode_of(l, r)
    &&& views(f.structural_fingerprint_families@) == structural_families(l, r)
    &&& overlap_views(f.role_overlap@) == role_overlap_spec(l, r)
    &&& module_relation_ok(f.module_relation, l, r)
    &&& f.semantic_reranking.version@ == crate::semantic::SEMANTIC_RERANKING_VERSION@
    &&& f.semantic_evidence_state == semantic_state_of(s)
    &&& f.semantic_obligations@ == match s {
        Some(e) => seq![obligation_fact(e)],
        None => Seq::empty(),
    }
    &&& is_ordered_set(f.cheap_blockers@, cheap_blocker_set(l, r, cs))
}

/// The pair features of a candidate pair.
pub fn pair_features_with_semantic(
    l: &HydratedDeclaration,
    r: &HydratedDeclaration,
    cs: &Vec<KeyContribution>,
    s: Option<&SemanticEvidence>,
) -> (f: SearchPairFeatures)
    ensures
        pair_features_ok(
            f,
            *l,
            *r,
            cs@,
            match s {
                Some(e) => Some(*e),
                None => None,
            },
        ),
{
    let mut obligations: Vec<SearchSemanticObligationFact> = Vec::new();
    match s {
        Some(e) => obligations.push(e.semantic_obligation_fact()),
        None => {},
    }
    proof {
        assert(obligations@ =~= match s {
            Some(e) => seq![obligation_fact(*e)],
            None => Seq::<SearchSemanticObligationFact>::empty(),
        });
    }
    SearchPairFeatures {
        retrieval_feature_families: feature_families(cs),
        declaration_kinds: declaration_kinds(l, r),
        evidence_mode: evidence_mode(l, r),
        structural_fingerprint_families: structural_fingerprint_families(l, r),
        role_overlap: role_overlap(l, r),
        module_relation: module_relation(l, r),
        semantic_reranking: semantic_reranking_summary(),
        semantic_evidence_state: semantic_evidence_state(s),
        semantic_obligations: obligations,
        cheap_blockers: cheap_blockers(l, r, cs),
    }
}

/// The pair features of a candidate pair without semantic evidence.
pub fn pair_features(l: &HydratedDeclaration, r: &HydratedDeclaration, cs: &Vec<KeyContribution>) -> (f:
    SearchPairFeatures)
    ensures
        pair_features_ok(f, *l, *r, cs@, None),
{
    pair_features_with_semantic(l, r, cs, None)
}


/// A pair has at most one feature family per contribution, or the single
/// `unknown` family.
pub proof fn lemma_family_count(cs: Seq<KeyContribution>)
    ensures
        family_set(cs).finite(),
        family_set(cs).len() <= cs.len() + 1,
{
    if cs.len() == 0 {
        assert(family_set(cs) =~= set!["unknown"@]);
    } else {
        let fams = cs.map_values(|c: KeyContribution| feature_family_of(c.kind@, opt_view(c.role)));
        assert(family_set(cs) =~= fams.to_set()) by {
            assert forall|f: Seq<char>| family_set(cs).contains(f) implies fams.to_set().contains(f) by {
                let i = choose|i: int|
                    0 <= i < cs.len() && f == feature_family_of((#[trigger] cs[i]).kind@, opt_view(cs[i].role));
                assert(fams[i] == f);
            }
            assert forall|f: Seq<char>| fams.to_set().contains(f) implies family_set(cs).contains(f) by {
                let i = choose|i: int| 0 <= i < fams.len() && fams[i] == f;
                assert(f == feature_family_of(cs[i].kind@, opt_view(cs[i].role)));
            }
        }
        fams.lemma_cardinality_of_set();
    }
}

} // verus!
