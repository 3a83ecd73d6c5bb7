//! The symbolic scorer: per-family component scores of a candidate pair and
//! the ablation variants evaluations compare. All weights are whole
//! numbers.
use vstd::prelude::*;

use crate::pair_features::{SearchEvidenceMode, SearchModuleRelation, SearchPairFeatures, SearchSemanticEvidenceState};
use crate::sets::views;
use crate::text::{has_prefix, starts_with, str_eq};

verus! {

/// Version of the symbolic scorer.
pub const SCORER_VERSION: &'static str = "lean-dup.symbolic-scorer.v1";

pub const WEIGHT_STATEMENT_FINGERPRINT: u64 = 100;
pub const WEIGHT_SAFE_PERMUTATION_FINGERPRINT: u64 = 80;
pub const WEIGHT_CONNECTIVE_CONCLUSION: u64 = 24;
pub const WEIGHT_ROLE_FEATURE: u64 = 8;
pub const WEIGHT_SOURCE_MODULE: u64 = 4;
pub const WEIGHT_STATIC_EVIDENCE: u64 = 2;
pub const WEIGHT_SEMANTIC_EVIDENCE: u64 = 120;

/// Total score from which an ablated pair stays shown.
pub const VISIBLE_SCORE: u64 = 24;

/// Stable scorer variants available to evaluation.
#[derive(Debug, Clone, Copy, PartialEq, Eq, Structural)]
pub enum SearchScoringVariant {
    AllFeatures,
    NoRoleFeatures,
    NoConnectiveConclusionFeatures,
    NoSourceModuleFeatures,
    NoStaticEvidenceFeatures,
    SemanticEvidenceOnlyRerank,
}

/// Kebab-case name of a variant.
pub open spec fn variant_label(v: SearchScoringVariant) -> Seq<char> {
    match v {
        SearchScoringVariant::AllFeatures => "all-features"@,
        SearchScoringVariant::NoRoleFeatures => "no-role-features"@,
        SearchScoringVariant::NoConnectiveConclusionFeatures => "no-connective-conclusion-features"@,
        SearchScoringVariant::NoSourceModuleFeatures => "no-source-module-features"@,
        SearchScoringVariant::NoStaticEvidenceFeatures => "no-static-evidence-features"@,
        SearchScoringVariant::SemanticEvidenceOnlyRerank => "semantic-evidence-only-rerank"@,
    }
}

impl SearchScoringVariant {
    /// Every variant, in declaration order.
    pub fn all() -> (r: [SearchScoringVariant; 6])
        ensures
            r@ == seq![
                SearchScoringVariant::AllFeatures,
                SearchScoringVariant::NoRoleFeatures,
                SearchScoringVariant::NoConnectiveConclusionFeatures,
                SearchScoringVariant::NoSourceModuleFeatures,
                SearchScoringVariant::NoStaticEvidenceFeatures,
                SearchScoringVariant::SemanticEvidenceOnlyRerank,
            ],
    {
        let r = [
            SearchScoringVariant::AllFeatures,
            SearchScoringVariant::NoRoleFeatures,
            SearchScoringVariant::NoConnectiveConclusionFeatures,
            SearchScoringVariant::NoSourceModuleFeatures,
            SearchScoringVariant::NoStaticEvidenceFeatures,
            SearchScoringVariant::SemanticEvidenceOnlyRerank,
        ];
        assert(r@ =~= seq![
            SearchScoringVariant::AllFeatures,
            SearchScoringVariant::NoRoleFeatures,
            SearchScoringVariant::NoConnectiveConclusionFeatures,
            SearchScoringVariant::NoSourceModuleFeatures,
            SearchScoringVariant::NoStaticEvidenceFeatures,
            SearchScoringVariant::SemanticEvidenceOnlyRerank,
        ]);
        r
    }

    /// Kebab-case name of the variant.
    pub fn label(self) -> (r: &'static str)
        ensures
            r@ == variant_label(self),
    {
        match self {
            SearchScoringVariant::AllFeatures => "all-features",
            SearchScoringVariant::NoRoleFeatures => "no-role-features",
            SearchScoringVariant::NoConnectiveConclusionFeatures => "no-connective-conclusion-features",
            SearchScoringVariant::NoSourceModuleFeatures => "no-source-module-features",
            SearchScoringVariant::NoStaticEvidenceFeatures => "no-static-evidence-features",
            SearchScoringVariant::SemanticEvidenceOnlyRerank => "semantic-evidence-only-rerank",
        }
    }
}

/// Versioned scoring facts exposed to reports.
#[derive(Debug, Clone, Copy)]
pub struct SearchScoringSummary {
    pub version: &'static str,
    pub variant: SearchScoringVariant,
}

impl SearchScoringSummary {
    /// The facts of one variant.
    pub fn new(variant: SearchScoringVariant) -> (r: SearchScoringSummary)
        ensures
            r.version@ == SCORER_VERSION@,
            r.variant == variant,
    {
        SearchScoringSummary { version: SCORER_VERSION, variant }
    }
}

/// The default scoring facts (all features).
pub fn default_summary() -> (r: SearchScoringSummary)
    ensures
        r.version@ == SCORER_VERSION@,
        r.variant == SearchScoringVariant::AllFeatures,
{
    SearchScoringSummary::new(SearchScoringVariant::AllFeatures)
}

/// Per-pair scorer output; components are sorted by name.
#[derive(Debug, Clone)]
pub struct SearchPairScoring {
    pub version: &'static str,
    pub variant: SearchScoringVariant,
    pub total_score: u64,
    pub component_scores: Vec<(String, u64)>,
}

/// How many of the families equal `f`.
pub open spec fn count_family(fams: Seq<Seq<char>>, f: Seq<char>) -> int
    decreases fams.len(),
{
    if fams.len() == 0 {
        0
    } else {
        count_family(fams.drop_last(), f) + if fams.last() == f {
            1int
        } else {
            0int
        }
    }
}

/// How many of the families are role families (`role_` prefixed).
pub open spec fn count_role(fams: Seq<Seq<char>>) -> int
    decreases fams.len(),
{
    if fams.len() == 0 {
        0
    } else {
        count_role(fams.drop_last()) + if has_prefix(fams.last(), "role_"@) {
            1int
        } else {
            0int
        }
    }
}

/// The scored component families, in name order.
#[derive(Debug, Clone, Copy, PartialEq, Eq, Structural)]
pub enum ScoreComponent {
    ConnectiveConclusion,
    RoleFeatures,
    SafePermutationFingerprint,
    SemanticEvidence,
    SourceModule,
    StatementFingerprint,
    StaticEvidence,
}

/// Name of a component in scorer output.
pub open spec fn component_name(k: ScoreComponent) -> Seq<char> {
    match k {
        ScoreComponent::ConnectiveConclusion => "connective_conclusion"@,
        ScoreComponent::RoleFeatures => "role_features"@,
        ScoreComponent::SafePermutationFingerprint => "safe_permutation_fingerprint"@,
        ScoreComponent::SemanticEvidence => "semantic_evidence"@,
        ScoreComponent::SourceModule => "source_module"@,
        ScoreComponent::StatementFingerprint => "statement_fingerprint"@,
        ScoreComponent::StaticEvidence => "static_evidence"@,
    }
}

/// The score of one component of a pair under a variant (0 when it does not
/// score): each matched family scores its weight once per match (role
/// families and the connective/conclusion families pooled); the module
/// relation, static evidence and semantic evidence score once. Ablated
/// families do not score; the semantic-only variant scores semantic
/// evidence alone.
pub open spec fn amount(f: SearchPairFeatures, v: SearchScoringVariant, k: ScoreComponent) -> int {
    let fams = views(f.retrieval_feature_families@);
    let symbolic = v != SearchScoringVariant::SemanticEvidenceOnlyRerank;
    match k {
        ScoreComponent::ConnectiveConclusion => if symbolic && v != SearchScoringVariant::NoConnectiveConclusionFeatures {
            (count_family(fams, "connective_fingerprint"@) + count_family(fams, "conclusion_fingerprint"@))
                * WEIGHT_CONNECTIVE_CONCLUSION
        } else {
            0
        },
        ScoreComponent::RoleFeatures => if symbolic && v != SearchScoringVariant::NoRoleFeatures {
            count_role(fams) * WEIGHT_ROLE_FEATURE
        } else {
            0
        },
        ScoreComponent::SafePermutationFingerprint => if symbolic {
            count_family(fams, "safe_permutation_fingerprint"@) * WEIGHT_SAFE_PERMUTATION_FINGERPRINT
        } else {
            0
        },
        ScoreComponent::SemanticEvidence => if f.semantic_evidence_state != SearchSemanticEvidenceState::NotRun {
            WEIGHT_SEMANTIC_EVIDENCE as int
        } else {
            0
        },
        ScoreComponent::SourceModule => if symbolic && v != SearchScoringVariant::NoSourceModuleFeatures {
            match f.module_relation {
                SearchModuleRelation::SameModule { .. } => WEIGHT_SOURCE_MODULE as int,
                SearchModuleRelation::DifferentModules { .. } => (WEIGHT_SOURCE_MODULE / 2) as int,
            }
        } else {
            0
        },
        ScoreComponent::StatementFingerprint => if symbolic {
            count_family(fams, "statement_fingerprint"@) * WEIGHT_STATEMENT_FINGERPRINT
        } else {
            0
        },
        ScoreComponent::StaticEvidence => if symbolic && f.evidence_mode == SearchEvidenceMode::Static && v
            != SearchScoringVariant::NoStaticEvidenceFeatures {
            WEIGHT_STATIC_EVIDENCE as int
        } else {
            0
        },
    }
}

/// A component entry if it scored at all.
pub open spec fn component(name: Seq<char>, a: int) -> Seq<(Seq<char>, int)> {
    if a > 0 {
        seq![(name, a)]
    } else {
        Seq::empty()
    }
}

/// The scoring components of a pair under a variant, sorted by name.
pub open spec fn components_spec(f: SearchPairFeatures, v: SearchScoringVariant) -> Seq<(Seq<char>, int)> {
    let c = |k: ScoreComponent| component(component_name(k), amount(f, v, k));
    c(ScoreComponent::ConnectiveConclusion) + c(ScoreComponent::RoleFeatures) + c(
        ScoreComponent::SafePermutationFingerprint,
    ) + c(ScoreComponent::SemanticEvidence) + c(ScoreComponent::SourceModule) + c(
        ScoreComponent::StatementFingerprint,
    ) + c(ScoreComponent::StaticEvidence)
}

/// Sum of the component scores.
pub open spec fn total_of(cs: Seq<(Seq<char>, int)>) -> int
    decreases cs.len(),
{
    if cs.len() == 0 {
        0
    } else {
        total_of(cs.drop_last()) + cs.last().1
    }
}

/// The view of component scores.
pub open spec fn component_views(v: Seq<(String, u64)>) -> Seq<(Seq<char>, int)> {
    v.map_values(|c: (String, u64)| (c.0@, c.1 as int))
}

proof fn lemma_total_append(a: Seq<(Seq<char>, int)>, b: Seq<(Seq<char>, int)>)
    ensures
        total_of(a + b) == total_of(a) + total_of(b),
    decreases b.len(),
{
    if b.len() > 0 {
        assert((a + b).drop_last() =~= a + b.drop_last());
        lemma_total_append(a, b.drop_last());
    } else {
        assert(a + b =~= a);
    }
}

fn count_fams(fams: &Vec<String>) -> (r: (u64, u64, u64, u64, u64))
    requires
        fams@.len() <= 0x1_0000_0000,
    ensures
        r.0 == count_family(views(fams@), "statement_fingerprint"@),
        r.1 == count_family(views(fams@), "safe_permutation_fingerprint"@),
        r.2 == count_family(views(fams@), "connective_fingerprint"@),
        r.3 == count_family(views(fams@), "conclusion_fingerprint"@),
        r.4 == count_role(views(fams@)),
        r.0 <= fams@.len() && r.1 <= fams@.len() && r.2 <= fams@.len() && r.3 <= fams@.len() && r.4 <= fams@.len(),
{
    let ghost fv = views(fams@);
    let mut a: u64 = 0;
    let mut b: u64 = 0;
    let mut c: u64 = 0;
    let mut d: u64 = 0;
    let mut e: u64 = 0;
    let mut i: usize = 0;
    while i < fams.len()
        invariant
            i <= fams@.len(),
            fams@.len() <= 0x1_0000_0000,
            fv == views(fams@),
            a == count_family(fv.take(i as int), "statement_fingerprint"@),
            b == count_family(fv.take(i as int), "safe_permutation_fingerprint"@),
            c == count_family(fv.take(i as int), "connective_fingerprint"@),
            d == count_family(fv.take(i as int), "conclusion_fingerprint"@),
            e == count_role(fv.take(i as int)),
            a <= i && b <= i && c <= i && d <= i && e <= i,
        decreases fams@.len() - i,
    {
        proof {
            assert(fv.take(i + 1).drop_last() =~= fv.take(i as int));
            assert(fv.take(i + 1).last() == fams@[i as int]@);
        }
        let f = fams[i].as_str();
        if str_eq(f, "statement_fingerprint") {
            a = a + 1;
        }
        if str_eq(f, "safe_permutation_fingerprint") {
            b = b + 1;
        }
        if str_eq(f, "connective_fingerprint") {
            c = c + 1;
        }
        if str_eq(f, "conclusion_fingerprint") {
            d = d + 1;
        }
        if starts_with(f, "role_") {
            e = e + 1;
        }
        i = i + 1;
    }
    assert(fv.take(fams@.len() as int) =~= fv);
    (a, b, c, d, e)
}

/// Bound on one component score.
pub open spec fn component_bound() -> int {
    0x2_0000_0000int * 200
}

fn push_component(out: &mut Vec<(String, u64)>, name: &str, n: u64, w: u64)
    requires
        n <= 0x2_0000_0000,
        0 < w <= 200,
        forall|k: int| 0 <= k < old(out)@.len() ==> (#[trigger] old(out)@[k]).1 <= component_bound(),
    ensures
        component_views(final(out)@) == component_views(old(out)@) + component(name@, n * w),
        forall|k: int| 0 <= k < final(out)@.len() ==> (#[trigger] final(out)@[k]).1 <= component_bound(),
        final(out)@.len() <= old(out)@.len() + 1,
{
    let ghost before = component_views(out@);
    if n > 0 {
        assert(0 < n * w <= 0x2_0000_0000 * 200) by (nonlinear_arith)
            requires
                0 < n <= 0x2_0000_0000,
                0 < w <= 200,
        ;
        out.push((name.to_owned(), n * w));
        assert(component_views(out@) =~= before + component(name@, n * w));
    } else {
        assert(component_views(out@) =~= before + Seq::empty());
    }
}

/// Scores a pair's features under a variant.
pub fn score_features(f: &SearchPairFeatures, v: SearchScoringVariant) -> (r: SearchPairScoring)
    requires
        f.retrieval_feature_families@.len() <= 0x1_0000_0000,
    ensures
        r.version@ == SCORER_VERSION@,
        r.variant == v,
        component_views(r.component_scores@) == components_spec(*f, v),
        r.total_score == total_of(components_spec(*f, v)),
{
    let (stmt0, perm0, conn0, concl0, role0) = count_fams(&f.retrieval_feature_families);
    let symbolic = v != SearchScoringVariant::SemanticEvidenceOnlyRerank;
    let cc = if symbolic && v != SearchScoringVariant::NoConnectiveConclusionFeatures {
        conn0 + concl0
    } else {
        0
    };
    let roles = if symbolic && v != SearchScoringVariant::NoRoleFeatures {
        role0
    } else {
        0
    };
    let perm = if symbolic {
        perm0
    } else {
        0
    };
    let stmt = if symbolic {
        stmt0
    } else {
        0
    };
    let mut out: Vec<(String, u64)> = Vec::new();
    assert(component_views(out@) =~= Seq::empty());
    push_component(&mut out, "connective_conclusion", cc, WEIGHT_CONNECTIVE_CONCLUSION);
    push_component(&mut out, "role_features", roles, WEIGHT_ROLE_FEATURE);
    push_component(&mut out, "safe_permutation_fingerprint", perm, WEIGHT_SAFE_PERMUTATION_FINGERPRINT);
    let ghost after_perm = component_views(out@);
    if f.semantic_evidence_state != SearchSemanticEvidenceState::NotRun {
        out.push(("semantic_evidence".to_owned(), WEIGHT_SEMANTIC_EVIDENCE));
        assert(component_views(out@) =~= after_perm + seq![("semantic_evidence"@, WEIGHT_SEMANTIC_EVIDENCE as int)]);
    } else {
        assert(component_views(out@) =~= after_perm + Seq::empty());
    }
    let ghost after_sem = component_views(out@);
    if symbolic && v != SearchScoringVariant::NoSourceModuleFeatures {
        let m = match &f.module_relation {
            SearchModuleRelation::SameModule { .. } => WEIGHT_SOURCE_MODULE,
            SearchModuleRelation::DifferentModules { .. } => WEIGHT_SOURCE_MODULE / 2,
        };
        out.push(("source_module".to_owned(), m));
        assert(component_views(out@) =~= after_sem + seq![("source_module"@, m as int)]);
    } else {
        assert(component_views(out@) =~= after_sem + Seq::empty());
    }
    let ghost after_module = component_views(out@);
    push_component(&mut out, "statement_fingerprint", stmt, WEIGHT_STATEMENT_FINGERPRINT);
    let ghost after_stmt = component_views(out@);
    if symbolic && f.evidence_mode == SearchEvidenceMode::Static && v != SearchScoringVariant::NoStaticEvidenceFeatures {
        out.push(("static_evidence".to_owned(), WEIGHT_STATIC_EVIDENCE));
        assert(component_views(out@) =~= after_stmt + seq![("static_evidence"@, WEIGHT_STATIC_EVIDENCE as int)]);
    } else {
        assert(component_views(out@) =~= after_stmt + Seq::empty());
    }
    proof {
        let spec = components_spec(*f, v);
        assert(component_views(out@) =~= spec);
    }
    let mut total: u64 = 0;
    let mut i: usize = 0;
    while i < out.len()
        invariant
            i <= out@.len(),
            out@.len() <= 7,
            forall|k: int| 0 <= k < out@.len() ==> (#[trigger] out@[k]).1 <= component_bound(),
            total == total_of(component_views(out@).take(i as int)),
            total <= i * 1717986918400,
            component_bound() == 1717986918400,
        decreases out@.len() - i,
    {
        proof {
            assert(component_views(out@).take(i + 1).drop_last() =~= component_views(out@).take(i as int));
        }
        total = total + out[i].1;
        i = i + 1;
    }
    assert(component_views(out@).take(out@.len() as int) =~= component_views(out@));
    SearchPairScoring { version: SCORER_VERSION, variant: v, total_score: total, component_scores: out }
}


/// A scored observation: whether the variant still ranks and shows the pair.
#[derive(Debug, Clone)]
pub struct ScoredObservation {
    pub ranked: bool,
    pub shown: bool,
    pub survived_shown_filter: bool,
    pub scoring: SearchPairScoring,
}

/// Scores an observation. The full scorer keeps the default decisions; an
/// ablated variant ranks the pair only if it scores above zero and shows it
/// only from the visible score on.
pub fn score_observation(f: &SearchPairFeatures, v: SearchScoringVariant, default_ranked: bool, default_shown: bool) -> (r:
    ScoredObservation)
    requires
        f.retrieval_feature_families@.len() <= 0x1_0000_0000,
    ensures
        component_views(r.scoring.component_scores@) == components_spec(*f, v),
        r.scoring.total_score == total_of(components_spec(*f, v)),
        r.scoring.variant == v,
        r.scoring.version@ == SCORER_VERSION@,
        v == SearchScoringVariant::AllFeatures ==> r.ranked == default_ranked && r.shown == default_shown,
        v != SearchScoringVariant::AllFeatures ==> r.ranked == (default_ranked && r.scoring.total_score > 0)
            && r.shown == (r.ranked && r.scoring.total_score >= VISIBLE_SCORE),
        r.survived_shown_filter == r.shown,
{
    let scoring = score_features(f, v);
    if v == SearchScoringVariant::AllFeatures {
        return ScoredObservation { ranked: default_ranked, shown: default_shown, survived_shown_filter: default_shown, scoring };
    }
    let ranked = default_ranked && scoring.total_score > 0;
    let shown = ranked && scoring.total_score >= VISIBLE_SCORE;
    ScoredObservation { ranked, shown, survived_shown_filter: shown, scoring }
}

/// Each ablation turns off exactly its own component: every other
/// component scores as under the full scorer.
pub proof fn lemma_ablations_disable_only_their_families(f: SearchPairFeatures, k: ScoreComponent)
    ensures
        amount(f, SearchScoringVariant::NoRoleFeatures, ScoreComponent::RoleFeatures) == 0,
        k != ScoreComponent::RoleFeatures ==> amount(f, SearchScoringVariant::NoRoleFeatures, k) == amount(
            f,
            SearchScoringVariant::AllFeatures,
            k,
        ),
        amount(f, SearchScoringVariant::NoConnectiveConclusionFeatures, ScoreComponent::ConnectiveConclusion) == 0,
        k != ScoreComponent::ConnectiveConclusion ==> amount(
            f,
            SearchScoringVariant::NoConnectiveConclusionFeatures,
            k,
        ) == amount(f, SearchScoringVariant::AllFeatures, k),
        amount(f, SearchScoringVariant::NoSourceModuleFeatures, ScoreComponent::SourceModule) == 0,
        k != ScoreComponent::SourceModule ==> amount(f, SearchScoringVariant::NoSourceModuleFeatures, k) == amount(
            f,
            SearchScoringVariant::AllFeatures,
            k,
        ),
        amount(f, SearchScoringVariant::NoStaticEvidenceFeatures, ScoreComponent::StaticEvidence) == 0,
        k != ScoreComponent::StaticEvidence ==> amount(f, SearchScoringVariant::NoStaticEvidenceFeatures, k)
            == amount(f, SearchScoringVariant::AllFeatures, k),
{
}

/// Without semantic evidence the semantic-only variant scores nothing.
pub proof fn lemma_semantic_only_without_evidence(f: SearchPairFeatures)
    requires
        f.semantic_evidence_state == SearchSemanticEvidenceState::NotRun,
    ensures
        components_spec(f, SearchScoringVariant::SemanticEvidenceOnlyRerank).len() == 0,
        total_of(components_spec(f, SearchScoringVariant::SemanticEvidenceOnlyRerank)) == 0,
{
    assert(components_spec(f, SearchScoringVariant::SemanticEvidenceOnlyRerank) =~= Seq::empty());
}


proof fn lemma_counts_nonneg(fams: Seq<Seq<char>>, f: Seq<char>)
    ensures
        count_family(fams, f) >= 0,
        count_role(fams) >= 0,
    decreases fams.len(),
{
    if fams.len() > 0 {
        lemma_counts_nonneg(fams.drop_last(), f);
    }
}

proof fn lemma_component_total(name: Seq<char>, a: int)
    requires
        a >= 0,
    ensures
        total_of(component(name, a)) == a,
{
    let s = component(name, a);
    if a > 0 {
        assert(s.len() == 1);
        assert(s.drop_last() =~= Seq::<(Seq<char>, int)>::empty());
        assert(total_of(s.drop_last()) == 0);
        assert(s.last().1 == a);
    } else {
        assert(s =~= Seq::<(Seq<char>, int)>::empty());
    }
}

/// The matched families the scorer weighs are four different names, none of
/// them a role family.
proof fn lemma_family_names()
    ensures
        "statement_fingerprint"@ != "safe_permutation_fingerprint"@,
        "statement_fingerprint"@ != "connective_fingerprint"@,
        "statement_fingerprint"@ != "conclusion_fingerprint"@,
        "safe_permutation_fingerprint"@ != "connective_fingerprint"@,
        "safe_permutation_fingerprint"@ != "conclusion_fingerprint"@,
        "connective_fingerprint"@ != "conclusion_fingerprint"@,
        !has_prefix("statement_fingerprint"@, "role_"@),
        !has_prefix("safe_permutation_fingerprint"@, "role_"@),
        !has_prefix("connective_fingerprint"@, "role_"@),
        !has_prefix("conclusion_fingerprint"@, "role_"@),
        forall|x: Seq<char>| #[trigger] has_prefix(x, "role_"@) ==> x.len() >= 5 && x[0] == 'r',
{
    reveal_strlit("statement_fingerprint");
    reveal_strlit("safe_permutation_fingerprint");
    reveal_strlit("connective_fingerprint");
    reveal_strlit("conclusion_fingerprint");
    reveal_strlit("role_");
    assert("statement_fingerprint"@.len() != "safe_permutation_fingerprint"@.len());
    assert("statement_fingerprint"@.len() != "connective_fingerprint"@.len());
    assert("statement_fingerprint"@.len() != "conclusion_fingerprint"@.len());
    assert("safe_permutation_fingerprint"@.len() != "connective_fingerprint"@.len());
    assert("safe_permutation_fingerprint"@.len() != "conclusion_fingerprint"@.len());
    assert("connective_fingerprint"@[3] != "conclusion_fingerprint"@[3]);
    assert("statement_fingerprint"@.subrange(0, 5)[0] != "role_"@[0]);
    assert("safe_permutation_fingerprint"@.subrange(0, 5)[0] != "role_"@[0]);
    assert("connective_fingerprint"@.subrange(0, 5)[0] != "role_"@[0]);
    assert("conclusion_fingerprint"@.subrange(0, 5)[0] != "role_"@[0]);
    assert forall|x: Seq<char>| #[trigger] has_prefix(x, "role_"@) implies x.len() >= 5 && x[0] == 'r' by {
        assert(x.subrange(0, 5)[0] == x[0]);
    }
}

proof fn lemma_amounts_nonneg(f: SearchPairFeatures, v: SearchScoringVariant, k: ScoreComponent)
    ensures
        amount(f, v, k) >= 0,
{
    let fams = views(f.retrieval_feature_families@);
    lemma_counts_nonneg(fams, "statement_fingerprint"@);
    lemma_counts_nonneg(fams, "safe_permutation_fingerprint"@);
    lemma_counts_nonneg(fams, "connective_fingerprint"@);
    lemma_counts_nonneg(fams, "conclusion_fingerprint"@);
}

/// The total score is the sum of the component amounts.
proof fn lemma_total_is_sum(f: SearchPairFeatures, v: SearchScoringVariant)
    ensures
        total_of(components_spec(f, v)) == amount(f, v, ScoreComponent::ConnectiveConclusion) + amount(
            f,
            v,
            ScoreComponent::RoleFeatures,
        ) + amount(f, v, ScoreComponent::SafePermutationFingerprint) + amount(f, v, ScoreComponent::SemanticEvidence)
            + amount(f, v, ScoreComponent::SourceModule) + amount(f, v, ScoreComponent::StatementFingerprint) + amount(
            f,
            v,
            ScoreComponent::StaticEvidence,
        ),
{
    let c = |k: ScoreComponent| component(component_name(k), amount(f, v, k));
    let ks = seq![
        ScoreComponent::ConnectiveConclusion,
        ScoreComponent::RoleFeatures,
        ScoreComponent::SafePermutationFingerprint,
        ScoreComponent::SemanticEvidence,
        ScoreComponent::SourceModule,
        ScoreComponent::StatementFingerprint,
        ScoreComponent::StaticEvidence,
    ];
    assert forall|i: int| 0 <= i < 7 implies total_of(#[trigger] c(ks[i])) == amount(f, v, ks[i]) by {
        lemma_amounts_nonneg(f, v, ks[i]);
        lemma_component_total(component_name(ks[i]), amount(f, v, ks[i]));
    }
    let c0 = c(ks[0]);
    let c1 = c(ks[1]);
    let c2 = c(ks[2]);
    let c3 = c(ks[3]);
    let c4 = c(ks[4]);
    let c5 = c(ks[5]);
    let c6 = c(ks[6]);
    lemma_total_append(c0, c1);
    lemma_total_append(c0 + c1, c2);
    lemma_total_append(c0 + c1 + c2, c3);
    lemma_total_append(c0 + c1 + c2 + c3, c4);
    lemma_total_append(c0 + c1 + c2 + c3 + c4, c5);
    lemma_total_append(c0 + c1 + c2 + c3 + c4 + c5, c6);
}

proof fn lemma_count_push(fams: Seq<Seq<char>>, x: Seq<char>, f: Seq<char>)
    ensures
        count_family(fams.push(x), f) == count_family(fams, f) + if x == f {
            1int
        } else {
            0int
        },
        count_role(fams.push(x)) == count_role(fams) + if has_prefix(x, "role_"@) {
            1int
        } else {
            0int
        },
{
    assert(fams.push(x).drop_last() =~= fams);
}

/// Scoring a pair with one more matched feature family adds that family's
/// weight to the total: 100 for a statement fingerprint, 80 for a safe
/// permutation fingerprint, 24 for a connective or conclusion fingerprint
/// (unless that family is ablated), 8 for a role family (unless roles are
/// ablated); the semantic-only variant scores no family.
pub proof fn lemma_one_more_family_adds_its_weight(
    f: SearchPairFeatures,
    g: SearchPairFeatures,
    v: SearchScoringVariant,
    family: Seq<char>,
)
    requires
        views(g.retrieval_feature_families@) == views(f.retrieval_feature_families@).push(family),
        g.module_relation == f.module_relation,
        g.evidence_mode == f.evidence_mode,
        g.semantic_evidence_state == f.semantic_evidence_state,
    ensures
        ({
            let before = total_of(components_spec(f, v));
            let after = total_of(components_spec(g, v));
            let symbolic = v != SearchScoringVariant::SemanticEvidenceOnlyRerank;
            &&& !symbolic ==> after == before
            &&& symbolic && family == "statement_fingerprint"@ ==> after == before + 100
            &&& symbolic && family == "safe_permutation_fingerprint"@ ==> after == before + 80
            &&& symbolic && (family == "connective_fingerprint"@ || family == "conclusion_fingerprint"@) ==> after
                == before + if v == SearchScoringVariant::NoConnectiveConclusionFeatures {
                0int
            } else {
                24int
            }
            &&& symbolic && has_prefix(family, "role_"@) ==> after == before + if v
                == SearchScoringVariant::NoRoleFeatures {
                0int
            } else {
                8int
            }
        }),
{
    lemma_family_names();
    let fams = views(f.retrieval_feature_families@);
    lemma_total_is_sum(f, v);
    lemma_total_is_sum(g, v);
    lemma_count_push(fams, family, "statement_fingerprint"@);
    lemma_count_push(fams, family, "safe_permutation_fingerprint"@);
    lemma_count_push(fams, family, "connective_fingerprint"@);
    lemma_count_push(fams, family, "conclusion_fingerprint"@);
    assert(amount(g, v, ScoreComponent::SemanticEvidence) == amount(f, v, ScoreComponent::SemanticEvidence));
    assert(amount(g, v, ScoreComponent::SourceModule) == amount(f, v, ScoreComponent::SourceModule));
    assert(amount(g, v, ScoreComponent::StaticEvidence) == amount(f, v, ScoreComponent::StaticEvidence));
}

} // verus!
