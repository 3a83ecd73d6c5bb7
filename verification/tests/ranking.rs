use lean_dup::declaration::{ComparisonEvidenceMode, ComparisonEvidencePolicy, HydratedDeclaration};
use lean_dup::ranking::{
    rank_candidates, RankingInput, RankingProfile, ReviewAction, ReviewEvidenceMode, ReviewFilter,
    ReviewPriority, ReviewRelation,
};
use lean_dup::retrieval::{CandidateExplanation, CandidateSet, KeyContribution, RetrievedCandidate};
use lean_dup::semantic::{EvidenceKind, EvidenceStatus, SearchSemanticObligationKind, SemanticEvidence};
use lean_dup::source_refs::SourceFacts;
use lean_dup::worker::Fingerprints;

/// Retrieval scores are carried in millionths.
const UNIT: u64 = 1_000_000;

fn declaration(id: &str, origin: &str, name: &str) -> HydratedDeclaration {
    HydratedDeclaration {
        handle: id.to_owned(),
        declaration_id: id.to_owned(),
        origin: origin.to_owned(),
        module: name.rsplit_once('.').map(|(module, _)| module).unwrap_or("").to_owned(),
        qualified_name: name.to_owned(),
        display_name: name.rsplit('.').next().unwrap().to_owned(),
        kind: "theorem".to_owned(),
        visibility: "public".to_owned(),
        modifiers: Vec::new(),
        source_span: None,
        statement_text: "theorem".to_owned(),
        docstring_text: None,
        definition_body_summary: None,
        status_flags: Vec::new(),
        feature_version: "features.roles.v1".to_owned(),
        fingerprints: Fingerprints {
            statement: "statement".to_owned(),
            safe_binder_permutation: "permutation".to_owned(),
            connective_shape: "connective".to_owned(),
            conclusion_shape: "conclusion".to_owned(),
        },
        role_features: Vec::new(),
        binder_count: 0,
        low_signal_markers: Vec::new(),
    }
}

fn candidate_with_display(
    declaration: HydratedDeclaration,
    contribution_kind: &str,
    display: Option<&str>,
    score: u64,
) -> RetrievedCandidate {
    let pair_id = "workspace:Tiny:Tiny.same::".to_owned() + &declaration.declaration_id;
    RetrievedCandidate {
        pair_id,
        declaration,
        score,
        explanation: CandidateExplanation {
            contributions: vec![KeyContribution {
                kind: contribution_kind.to_owned(),
                role: Some("conclusion_head".to_owned()),
                display: display.map(str::to_owned),
                key: "k".to_owned(),
                score,
            }],
        },
    }
}

fn candidate(declaration: HydratedDeclaration, contribution_kind: &str, score: u64) -> RetrievedCandidate {
    candidate_with_display(declaration, contribution_kind, None, score)
}

fn candidate_with_many(declaration: HydratedDeclaration, contribution_kinds: Vec<&str>) -> RetrievedCandidate {
    let pair_id = "workspace:Tiny:Tiny.same::".to_owned() + &declaration.declaration_id;
    RetrievedCandidate {
        pair_id,
        declaration,
        score: 120 * UNIT,
        explanation: CandidateExplanation {
            contributions: contribution_kinds
                .into_iter()
                .map(|kind| KeyContribution {
                    kind: kind.to_owned(),
                    role: None,
                    display: None,
                    key: kind.to_owned(),
                    score: UNIT,
                })
                .collect(),
        },
    }
}

fn candidate_set(anchor: HydratedDeclaration, candidate: RetrievedCandidate) -> CandidateSet {
    CandidateSet {
        anchor,
        candidates: vec![candidate],
    }
}

fn input(candidate_sets: Vec<CandidateSet>) -> RankingInput {
    RankingInput {
        candidate_sets,
        semantic_evidence: Vec::new(),
        source_facts: SourceFacts::empty(),
        profile: RankingProfile::default_profile(),
        comparison_policy: ComparisonEvidencePolicy::new(),
    }
}

fn proof_grade_mathlib_policy() -> ComparisonEvidencePolicy {
    ComparisonEvidencePolicy::for_origin("mathlib", ComparisonEvidenceMode::ProofGrade)
}

fn input_requiring_mathlib_evidence(candidate_sets: Vec<CandidateSet>) -> RankingInput {
    RankingInput {
        comparison_policy: proof_grade_mathlib_policy(),
        ..input(candidate_sets)
    }
}

fn evidence(pair_id: &str, kind: EvidenceKind, status: EvidenceStatus, obligation: SearchSemanticObligationKind) -> SemanticEvidence {
    SemanticEvidence {
        pair_id: pair_id.to_owned(),
        kind,
        status,
        obligation,
        unavailable_reason: None,
        summary: None,
    }
}

fn filter(include_private: bool, min_priority: ReviewPriority) -> ReviewFilter {
    ReviewFilter {
        include_generated: false,
        include_private,
        include_diagnostics: false,
        min_priority,
    }
}

#[test]
fn unverified_mathlib_static_match_is_not_visible_action() {
    let workspace = declaration("workspace:Tiny:Tiny.same", "workspace", "Tiny.same");
    let mathlib = declaration("mathlib:Mathlib:Mathlib.same", "mathlib", "Mathlib.same");
    let review = rank_candidates(&input_requiring_mathlib_evidence(vec![candidate_set(
        workspace,
        candidate(mathlib, "statement-fingerprint", 100 * UNIT),
    )]));

    let group = &review.groups[0];
    assert_eq!(group.review_priority, ReviewPriority::Noise);
    assert!(group.blockers.contains(&"unverified-proof-grade-evidence".to_owned()));
    assert_ne!(group.recommended_action, ReviewAction::AlreadyInMathlib);
}

#[test]
fn static_mathlib_index_is_actionable_but_not_proof_grade() {
    let workspace = declaration("workspace:Tiny:Tiny.same", "workspace", "Tiny.same");
    let mathlib = declaration("mathlib:Mathlib:Mathlib.same", "mathlib", "Mathlib.same");
    let review = rank_candidates(&input(vec![candidate_set(
        workspace,
        candidate(mathlib, "statement-fingerprint", 100 * UNIT),
    )]));

    let group = &review.groups[0];
    assert_eq!(group.recommended_action, ReviewAction::AlreadyInMathlib);
    assert_eq!(group.evidence_mode, ReviewEvidenceMode::Static);
}

#[test]
fn verified_mathlib_match_is_high_priority_already_in_mathlib() {
    let workspace = declaration("workspace:Tiny:Tiny.same", "workspace", "Tiny.same");
    let mathlib = declaration("mathlib:Mathlib:Mathlib.same", "mathlib", "Mathlib.same");
    let pair_id = workspace.declaration_id.clone() + "::" + &mathlib.declaration_id;
    let mut candidate = candidate(mathlib, "statement-fingerprint", 100 * UNIT);
    candidate.pair_id = pair_id.clone();
    let review = rank_candidates(&RankingInput {
        semantic_evidence: vec![evidence(
            "workspace:Tiny:Tiny.same::mathlib:Mathlib:Mathlib.same",
            EvidenceKind::ExactTheorem,
            EvidenceStatus::Verified,
            SearchSemanticObligationKind::ExactTheorem,
        )],
        comparison_policy: proof_grade_mathlib_policy(),
        ..input(vec![candidate_set(workspace, candidate)])
    });

    let group = &review.groups[0];
    assert_eq!(group.relation, ReviewRelation::ExactStatement);
    assert_eq!(group.review_priority, ReviewPriority::High);
    assert_eq!(group.recommended_action, ReviewAction::AlreadyInMathlib);
}

#[test]
fn non_theorem_statement_fingerprint_is_not_exact_without_probe() {
    let mut workspace = declaration("workspace:Tiny:Tiny.Shape", "workspace", "Tiny.Shape");
    workspace.kind = "inductive".to_owned();
    let mut mathlib = declaration("mathlib:Mathlib:Mathlib.OtherShape", "mathlib", "Mathlib.OtherShape");
    mathlib.kind = "inductive".to_owned();
    let review = rank_candidates(&input(vec![candidate_set(
        workspace,
        candidate(mathlib, "statement-fingerprint", 100 * UNIT),
    )]));

    let group = &review.groups[0];
    assert_ne!(group.relation, ReviewRelation::ExactStatement);
    assert_ne!(group.recommended_action, ReviewAction::AlreadyInMathlib);
}

#[test]
fn confirmed_specialization_overrides_general_near_match() {
    let left = declaration("workspace:Tiny:Tiny.general", "workspace", "Tiny.general");
    let right = declaration("workspace:Tiny:Tiny.specific", "workspace", "Tiny.specific");
    let pair_id = "workspace:Tiny:Tiny.general::workspace:Tiny:Tiny.specific";
    let mut ranked_candidate = candidate(right, "conclusion-fingerprint", 45 * UNIT);
    ranked_candidate.pair_id = pair_id.to_owned();
    let review = rank_candidates(&RankingInput {
        semantic_evidence: vec![evidence(
            pair_id,
            EvidenceKind::Specialization,
            EvidenceStatus::Verified,
            SearchSemanticObligationKind::Specialization,
        )],
        ..input(vec![candidate_set(left, ranked_candidate)])
    });

    assert_eq!(review.groups[0].recommended_action, ReviewAction::SpecializationOf);
    assert_eq!(review.groups[0].relation, ReviewRelation::Specialization);
}

#[test]
fn generated_and_broad_head_only_groups_are_hidden_by_default() {
    let mut left = declaration("workspace:Tiny:Tiny.generated", "workspace", "Tiny.generated");
    left.status_flags.push("generated".to_owned());
    left.low_signal_markers.push("broad_head:Eq".to_owned());
    let mut right = declaration("workspace:Tiny:Tiny.other", "workspace", "Tiny.other");
    right.low_signal_markers.push("broad_head:Eq".to_owned());
    let review = rank_candidates(&input(vec![candidate_set(
        left,
        candidate_with_display(right, "role-feature", Some("Eq"), 8 * UNIT),
    )]));

    assert!(review.groups[0].blockers.contains(&"generated-declaration".to_owned()));
    assert!(review.groups[0].blockers.contains(&"broad-head-only".to_owned()));
    assert!(review.visible_groups(filter(false, ReviewPriority::Low)).is_empty());
}

#[test]
fn rejected_or_unavailable_probe_groups_are_hidden_by_default() {
    for status in [EvidenceStatus::Rejected, EvidenceStatus::Unavailable] {
        let left = declaration("workspace:Tiny:Tiny.left", "workspace", "Tiny.left");
        let right = declaration("workspace:Tiny:Tiny.right", "workspace", "Tiny.right");
        let pair_id = "workspace:Tiny:Tiny.left::workspace:Tiny:Tiny.right";
        let mut ranked_candidate = candidate(right, "statement-fingerprint", 100 * UNIT);
        ranked_candidate.pair_id = pair_id.to_owned();
        let review = rank_candidates(&RankingInput {
            semantic_evidence: vec![evidence(
                pair_id,
                EvidenceKind::ExactTheorem,
                status,
                SearchSemanticObligationKind::ExactTheorem,
            )],
            ..input(vec![candidate_set(left, ranked_candidate)])
        });

        assert!(review.visible_groups(filter(false, ReviewPriority::Medium)).is_empty());
    }
}

#[test]
fn private_private_helper_groups_are_hidden_until_private_findings_are_requested() {
    let mut left = declaration("workspace:Tiny:Tiny.left_aux", "workspace", "Tiny.left_aux");
    left.visibility = "private".to_owned();
    let mut right = declaration("workspace:Tiny:Tiny.right_aux", "workspace", "Tiny.right_aux");
    right.visibility = "private".to_owned();
    let review = rank_candidates(&input(vec![candidate_set(
        left,
        candidate(right, "statement-fingerprint", 100 * UNIT),
    )]));

    assert_eq!(review.groups[0].review_priority, ReviewPriority::High);
    assert!(review.visible_groups(filter(false, ReviewPriority::Medium)).is_empty());
    assert_eq!(review.visible_groups(filter(true, ReviewPriority::Medium)).len(), 1);
}

#[test]
fn private_visibility_does_not_include_noise_groups() {
    let mut left = declaration("workspace:Tiny:Tiny.left_aux", "workspace", "Tiny.left_aux");
    left.visibility = "private".to_owned();
    left.low_signal_markers.push("broad_head:Eq".to_owned());
    let mut right = declaration("workspace:Tiny:Tiny.right_aux", "workspace", "Tiny.right_aux");
    right.visibility = "private".to_owned();
    right.low_signal_markers.push("broad_head:Eq".to_owned());
    let review = rank_candidates(&input(vec![candidate_set(
        left,
        candidate_with_display(right, "role-feature", Some("Eq"), 8 * UNIT),
    )]));
    let diagnostics_filter = ReviewFilter {
        include_generated: true,
        include_private: true,
        include_diagnostics: true,
        min_priority: ReviewPriority::Noise,
    };

    assert!(review.visible_groups(filter(true, ReviewPriority::Medium)).is_empty());
    assert_eq!(review.visible_groups(diagnostics_filter).len(), 1);
}

#[test]
fn exact_evidence_suppresses_weaker_same_pair_relations() {
    let review = rank_candidates(&input(vec![candidate_set(
        declaration("workspace:Tiny:Tiny.same", "workspace", "Tiny.same"),
        candidate_with_many(
            declaration("workspace:Tiny:Tiny.same2", "workspace", "Tiny.same2"),
            vec!["statement-fingerprint", "connective-fingerprint", "role-feature"],
        ),
    )]));

    assert_eq!(review.groups[0].relation, ReviewRelation::ExactStatement);
    assert!(!review.suppressed.is_empty());
}

#[test]
fn widening_the_filter_never_hides_a_group() {
    let left = declaration("workspace:Tiny:Tiny.left", "workspace", "Tiny.left");
    let right = declaration("workspace:Tiny:Tiny.right", "workspace", "Tiny.right");
    let review = rank_candidates(&input(vec![candidate_set(
        left,
        candidate(right, "statement-fingerprint", 100 * UNIT),
    )]));
    let narrow = review.visible_groups(filter(false, ReviewPriority::High)).len();
    let wide = review.visible_groups(ReviewFilter {
        include_generated: true,
        include_private: true,
        include_diagnostics: true,
        min_priority: ReviewPriority::Noise,
    })
    .len();
    assert!(narrow <= wide);
    assert_eq!(wide, review.groups.len());
}

#[test]
fn ranking_is_deterministic_for_the_same_input() {
    let build = || {
        input(vec![
            candidate_set(
                declaration("workspace:Tiny:Tiny.a", "workspace", "Tiny.a"),
                candidate(declaration("workspace:Tiny:Tiny.b", "workspace", "Tiny.b"), "statement-fingerprint", 100 * UNIT),
            ),
            candidate_set(
                declaration("workspace:Tiny:Tiny.c", "workspace", "Tiny.c"),
                candidate(declaration("mathlib:Mathlib:Mathlib.c", "mathlib", "Mathlib.c"), "connective-fingerprint", 65 * UNIT),
            ),
        ])
    };
    let first = rank_candidates(&build());
    let second = rank_candidates(&build());
    let ids = |r: &lean_dup::ranking::RankedReview| r.groups.iter().map(|g| g.id.clone()).collect::<Vec<_>>();
    assert_eq!(ids(&first), ids(&second));
    assert_eq!(first.groups.len(), 2);
}
