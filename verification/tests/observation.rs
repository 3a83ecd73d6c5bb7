use lean_dup::declaration::HydratedDeclaration;
use lean_dup::observation::{
    check_compact_variant, generation_policy_for_ranked, rerank_pairs, rescore_observation, symbolic_source_fact,
    visible_group_counts, SearchCandidateSourceFamily, SearchCandidateTopKStatus, SearchObservation,
    SearchObservedPair, SearchRetrievalObservation,
};
use lean_dup::pair_features::{SearchEvidenceMode, SearchModuleRelation, SearchPairFeatures, SearchSemanticEvidenceState};
use lean_dup::review_policy::summary;
use lean_dup::scorer::{score_features, SearchScoringSummary, SearchScoringVariant};
use lean_dup::semantic::semantic_reranking_summary;
use lean_dup::worker::{Fingerprints, SourcePoint, SourceSpan};

fn declaration(id: &str, origin: &str) -> HydratedDeclaration {
    HydratedDeclaration {
        handle: id.to_owned(),
        declaration_id: id.to_owned(),
        origin: origin.to_owned(),
        module: "Synthetic".to_owned(),
        qualified_name: id.to_owned(),
        display_name: id.to_owned(),
        kind: "theorem".to_owned(),
        visibility: "public".to_owned(),
        modifiers: Vec::new(),
        source_span: None,
        statement_text: String::new(),
        docstring_text: None,
        definition_body_summary: None,
        status_flags: Vec::new(),
        feature_version: "test".to_owned(),
        fingerprints: Fingerprints {
            statement: "same-statement".to_owned(),
            safe_binder_permutation: String::new(),
            connective_shape: String::new(),
            conclusion_shape: String::new(),
        },
        role_features: Vec::new(),
        binder_count: 0,
        low_signal_markers: Vec::new(),
    }
}

#[test]
fn compact_stage_observation_rejects_ablation_variants() {
    let error = check_compact_variant(SearchScoringVariant::NoRoleFeatures).unwrap_err();
    assert!(error.message.contains("use detailed observations"));
    assert!(error.message.ends_with("no-role-features"));
    assert!(check_compact_variant(SearchScoringVariant::AllFeatures).is_ok());
}

#[test]
fn symbolic_source_facts_record_selected_rank_and_saturation_without_private_keys() {
    let anchor = declaration("synthetic:generated:1", "workspace");
    let candidate = declaration("synthetic:generated:0", "workspace");
    let fact = symbolic_source_fact(
        &anchor,
        &candidate,
        &candidate.origin,
        Some(3),
        SearchCandidateTopKStatus::Selected,
        true,
        vec!["statement_fingerprint".to_owned()],
    );
    assert_eq!(fact.source_id, "symbolic-retrieval");
    assert_eq!(fact.source_family, SearchCandidateSourceFamily::Symbolic);
    assert_eq!(fact.top_k_status, SearchCandidateTopKStatus::Selected);
    assert_eq!(fact.generation_rank, Some(3));
    assert!(fact.top_k_saturated);
    assert_eq!(fact.pair_id, "synthetic:generated:0::synthetic:generated:1");
    assert!(!fact.pair_id.contains("same-statement"));
}

#[test]
fn generation_policy_follows_the_candidate_origin() {
    assert_eq!(generation_policy_for_ranked(&declaration("a", "workspace")), "local_duplicate_audit");
    assert_eq!(generation_policy_for_ranked(&declaration("a", "mathlib")), "mathlib_comparison");
    assert_eq!(generation_policy_for_ranked(&declaration("a", "external:x")), "static_external_comparison");
    let mut backed = declaration("a", "external:x");
    backed.source_span = Some(SourceSpan {
        file: "X.lean".to_owned(),
        start: SourcePoint { line: 1, column: 1 },
        end: SourcePoint { line: 1, column: 2 },
    });
    assert_eq!(generation_policy_for_ranked(&backed), "source_backed_external_comparison");
}

fn features() -> SearchPairFeatures {
    SearchPairFeatures {
        retrieval_feature_families: vec!["statement_fingerprint".to_owned(), "role_conclusion_const".to_owned()],
        declaration_kinds: vec!["theorem".to_owned()],
        evidence_mode: SearchEvidenceMode::Static,
        structural_fingerprint_families: vec!["statement_fingerprint".to_owned()],
        role_overlap: Vec::new(),
        module_relation: SearchModuleRelation::SameModule { module: "Tiny".to_owned() },
        semantic_reranking: semantic_reranking_summary(),
        semantic_evidence_state: SearchSemanticEvidenceState::NotRun,
        semantic_obligations: Vec::new(),
        cheap_blockers: Vec::new(),
    }
}

fn observed(left: &str, right: &str, score: u64, rank: Option<usize>, ranked: bool, shown: bool) -> SearchObservedPair {
    let features = features();
    let mut scoring = score_features(&features, SearchScoringVariant::AllFeatures);
    scoring.total_score = score;
    SearchObservedPair {
        left: left.to_owned(),
        right: right.to_owned(),
        left_declaration_id: format!("{}-id", left),
        right_declaration_id: format!("{}-id", right),
        generated: true,
        symbolic_generated: true,
        merged_generated: true,
        ranked,
        generation_policy: "symbolic_ranked".to_owned(),
        rank,
        shown,
        origin: "workspace".to_owned(),
        feature_families: vec!["statement_fingerprint".to_owned()],
        candidate_sources: Vec::new(),
        survived_shown_filter: shown,
        features,
        scoring,
    }
}

fn observation() -> SearchObservation {
    let pairs = vec![
        observed("A.one", "A.two", 40, Some(1), true, true),
        observed("B.one", "B.two", 30, Some(2), true, true),
        observed("C.one", "C.two", 0, None, false, false),
    ];
    let (visible_groups_found, visible_groups_total) = visible_group_counts(&pairs);
    SearchObservation {
        pairs,
        visible_groups_found,
        visible_groups_total,
        scoring: SearchScoringSummary::new(SearchScoringVariant::AllFeatures),
        review_policy: summary(),
        semantic_reranking: semantic_reranking_summary(),
        semantic_obligation_yield: Vec::new(),
        retrieval: SearchRetrievalObservation {
            candidate_count: 3,
            generated_candidate_count: 3,
            ranked_candidate_count: 2,
            symbolic_generated_candidate_count: 3,
            merged_generated_candidate_count: 3,
            hydrated_external_count: 0,
            pruned_feature_fanout_count: 0,
            heap_truncations: 0,
            candidate_count_by_generation_policy: Vec::new(),
            pruned_feature_fanouts: Vec::new(),
        },
    }
}

#[test]
fn rescoring_does_not_rerun_generation_or_expose_private_keys() {
    let observation = observation();

    let semantic_only = rescore_observation(observation.clone(), SearchScoringVariant::SemanticEvidenceOnlyRerank);

    assert_eq!(
        semantic_only.retrieval.generated_candidate_count,
        observation.retrieval.generated_candidate_count
    );
    assert_eq!(semantic_only.scoring.variant, SearchScoringVariant::SemanticEvidenceOnlyRerank);
    assert!(semantic_only.pairs.iter().all(|pair| !pair.shown));
    assert!(semantic_only.pairs.iter().all(|pair| pair.generated));
    assert_eq!(semantic_only.pairs.len(), 3);
    assert_eq!(semantic_only.visible_groups_found, 0);
}

#[test]
fn rescoring_under_the_same_variant_keeps_the_observation() {
    let observation = observation();
    let same = rescore_observation(observation.clone(), SearchScoringVariant::AllFeatures);
    assert_eq!(same.pairs.len(), observation.pairs.len());
    for (a, b) in same.pairs.iter().zip(observation.pairs.iter()) {
        assert_eq!(a.left, b.left);
        assert_eq!(a.rank, b.rank);
        assert_eq!(a.scoring.total_score, b.scoring.total_score);
    }
    assert_eq!(same.visible_groups_found, 2);
    assert_eq!(same.visible_groups_total, 2);
}

#[test]
fn rescoring_with_an_ablation_recomputes_scores_from_features() {
    let observation = observation();
    let no_role = rescore_observation(observation, SearchScoringVariant::NoRoleFeatures);
    let expected = score_features(&features(), SearchScoringVariant::NoRoleFeatures).total_score;
    assert!(no_role.pairs.iter().all(|pair| pair.scoring.total_score == expected));
    assert!(no_role.pairs.iter().all(|pair| pair.scoring.variant == SearchScoringVariant::NoRoleFeatures));
}

#[test]
fn rerank_orders_by_score_then_rank_then_names_and_renumbers() {
    let mut pairs = vec![
        observed("Z.low", "Z.other", 10, Some(3), true, false),
        observed("B.high", "B.other", 50, Some(2), true, true),
        observed("U.hidden", "U.other", 50, None, false, false),
        observed("A.high", "A.other", 50, Some(2), true, true),
    ];
    rerank_pairs(&mut pairs);
    let order: Vec<&str> = pairs.iter().map(|pair| pair.left.as_str()).collect();
    assert_eq!(order, vec!["A.high", "B.high", "U.hidden", "Z.low"]);
    let ranks: Vec<Option<usize>> = pairs.iter().map(|pair| pair.rank).collect();
    assert_eq!(ranks, vec![Some(1), Some(2), None, Some(3)]);
}
