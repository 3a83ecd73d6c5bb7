use lean_dup::pair_features::{SearchEvidenceMode, SearchModuleRelation, SearchPairFeatures, SearchSemanticEvidenceState};
use lean_dup::scorer::{score_features, score_observation, SearchScoringVariant};
use lean_dup::semantic::semantic_reranking_summary;

fn features() -> SearchPairFeatures {
    SearchPairFeatures {
        retrieval_feature_families: vec![
            "statement_fingerprint".to_owned(),
            "connective_fingerprint".to_owned(),
            "role_conclusion_const".to_owned(),
        ],
        declaration_kinds: vec!["theorem".to_owned()],
        evidence_mode: SearchEvidenceMode::Static,
        structural_fingerprint_families: vec!["statement_fingerprint".to_owned()],
        role_overlap: Vec::new(),
        module_relation: SearchModuleRelation::SameModule {
            module: "Tiny".to_owned(),
        },
        semantic_reranking: semantic_reranking_summary(),
        semantic_evidence_state: SearchSemanticEvidenceState::NotRun,
        semantic_obligations: Vec::new(),
        cheap_blockers: Vec::new(),
    }
}

fn component(scores: &[(String, u64)], name: &str) -> Option<u64> {
    scores.iter().find(|(n, _)| n == name).map(|(_, v)| *v)
}

#[test]
fn ablations_disable_only_their_feature_families() {
    let features = features();

    let all = score_features(&features, SearchScoringVariant::AllFeatures);
    let no_role = score_features(&features, SearchScoringVariant::NoRoleFeatures);
    let no_connective = score_features(&features, SearchScoringVariant::NoConnectiveConclusionFeatures);

    assert!(component(&all.component_scores, "role_features").is_some());
    assert!(component(&no_role.component_scores, "role_features").is_none());
    assert!(component(&all.component_scores, "connective_conclusion").is_some());
    assert!(component(&no_connective.component_scores, "connective_conclusion").is_none());
    assert_eq!(
        component(&all.component_scores, "statement_fingerprint"),
        component(&no_role.component_scores, "statement_fingerprint")
    );
}

#[test]
fn semantic_only_without_semantic_evidence_is_deterministic_and_hidden() {
    let scored = score_observation(&features(), SearchScoringVariant::SemanticEvidenceOnlyRerank, true, true);

    assert_eq!(scored.scoring.total_score, 0);
    assert!(!scored.ranked);
    assert!(!scored.shown);
    assert!(scored.scoring.component_scores.is_empty());
}

#[test]
fn total_is_the_sum_of_components() {
    for variant in SearchScoringVariant::all() {
        let scoring = score_features(&features(), variant);
        let sum: u64 = scoring.component_scores.iter().map(|(_, v)| *v).sum();
        assert_eq!(scoring.total_score, sum);
        assert_eq!(scoring.variant, variant);
    }
}

#[test]
fn full_scorer_keeps_the_default_decisions() {
    let kept = score_observation(&features(), SearchScoringVariant::AllFeatures, true, false);
    assert!(kept.ranked);
    assert!(!kept.shown);
    assert_eq!(kept.survived_shown_filter, kept.shown);
}

#[test]
fn variant_labels_are_kebab_case() {
    assert_eq!(SearchScoringVariant::AllFeatures.label(), "all-features");
    assert_eq!(
        SearchScoringVariant::SemanticEvidenceOnlyRerank.label(),
        "semantic-evidence-only-rerank"
    );
}

#[test]
fn scorer_output_uses_stable_families_not_raw_payloads() {
    let rendered = format!("{:?}", score_features(&features(), SearchScoringVariant::AllFeatures));

    for forbidden in ["sqlite", "posting", "IndexQuery", "FeatureMatch", "raw statement", "secret-role-key"] {
        assert!(!rendered.contains(forbidden), "{} leaked in {}", forbidden, rendered);
    }
    assert!(rendered.contains("statement_fingerprint"));
    assert!(rendered.contains("role_features"));
}
