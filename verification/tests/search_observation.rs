use lean_dup::declaration::HydratedDeclaration;
use lean_dup::observation::{
    SearchCandidateSourceFamily, SearchCandidateTopKStatus, SearchObservedPair, SearchStageObservedPair, SearchTrackedPair,
};
use lean_dup::retrieval::{
    CandidateExplanation, CandidateSet, FanoutPolicySummary, HeapTruncation, KeyContribution, RetrievalDiagnostics,
    RetrievedCandidate,
};
use lean_dup::scorer::SearchScoringVariant;
use lean_dup::search_observation::{
    followed_pairs_to_observe, generated_observed_pair, generated_stage_pair, observe_search, observe_search_stages,
    orient_pair, sort_observed_by_names, sort_stage_by_names, GeneratedPairEvidence, OrientedPair, RetrievalOutput,
};
use lean_dup::worker::Fingerprints;

fn declaration(id: &str, name: &str) -> HydratedDeclaration {
    HydratedDeclaration {
        handle: id.to_owned(),
        declaration_id: id.to_owned(),
        origin: "workspace".to_owned(),
        module: "Synthetic".to_owned(),
        qualified_name: name.to_owned(),
        display_name: name.to_owned(),
        kind: "theorem".to_owned(),
        visibility: "public".to_owned(),
        modifiers: Vec::new(),
        source_span: None,
        statement_text: "theorem t : True".to_owned(),
        docstring_text: None,
        definition_body_summary: None,
        status_flags: Vec::new(),
        feature_version: "test".to_owned(),
        fingerprints: Fingerprints {
            statement: "same-statement".to_owned(),
            safe_binder_permutation: String::new(),
            connective_shape: String::new(),
            conclusion_shape: String::new(),
        },
        role_features: Vec::new(),
        binder_count: 0,
        low_signal_markers: Vec::new(),
    }
}

fn contribution(kind: &str) -> KeyContribution {
    KeyContribution {
        kind: kind.to_owned(),
        role: None,
        display: None,
        key: "private-key-payload".to_owned(),
        score: 100_000_000,
    }
}

fn candidate(id: &str, name: &str, kinds: &[&str]) -> RetrievedCandidate {
    RetrievedCandidate {
        pair_id: format!("anchor::{}", id),
        declaration: declaration(id, name),
        score: 100_000_000,
        explanation: CandidateExplanation { contributions: kinds.iter().map(|kind| contribution(kind)).collect() },
    }
}

fn output() -> RetrievalOutput {
    RetrievalOutput {
        candidate_sets: vec![
            CandidateSet {
                anchor: declaration("a", "Synthetic.a"),
                candidates: vec![
                    candidate("b", "Synthetic.b", &["statement-fingerprint"]),
                    candidate("c", "Synthetic.c", &["connective-fingerprint"]),
                ],
            },
            CandidateSet { anchor: declaration("d", "Synthetic.d"), candidates: Vec::new() },
        ],
        diagnostics: RetrievalDiagnostics {
            fanout_policy: FanoutPolicySummary::current(),
            candidate_count: 2,
            generated_candidate_count: 3,
            ranked_candidate_count: 2,
            hydrated_external_count: 0,
            pruned_postings: Vec::new(),
            pruned_feature_fanouts: Vec::new(),
            heap_truncations: vec![HeapTruncation { anchor_declaration_id: "a".to_owned(), dropped_count: 1 }],
            candidate_count_by_generation_policy: Vec::new(),
            top_k_saturation_by_source_id: Vec::new(),
        },
    }
}

fn detailed_facts(pairs: &[SearchObservedPair]) -> Vec<(String, String, bool, bool, Option<usize>, bool, Vec<String>)> {
    pairs
        .iter()
        .map(|pair| {
            (
                pair.left.clone(),
                pair.right.clone(),
                pair.generated,
                pair.ranked,
                pair.rank,
                pair.shown,
                pair.feature_families.clone(),
            )
        })
        .collect()
}

fn compact_facts(pairs: &[SearchStageObservedPair]) -> Vec<(String, String, bool, bool, Option<usize>, bool, Vec<String>)> {
    pairs
        .iter()
        .map(|pair| {
            (
                pair.left.clone(),
                pair.right.clone(),
                pair.generated,
                pair.ranked,
                pair.rank,
                pair.shown,
                pair.feature_families.clone(),
            )
        })
        .collect()
}

#[test]
fn compact_stage_observation_preserves_eval_stage_facts() {
    let detailed = observe_search(output(), Vec::new(), SearchScoringVariant::AllFeatures);
    let compact = observe_search_stages(output(), Vec::new(), SearchScoringVariant::AllFeatures).unwrap();

    assert_eq!(compact.visible_groups_found, detailed.visible_groups_found);
    assert_eq!(compact.visible_groups_total, detailed.visible_groups_total);
    assert_eq!(compact.retrieval.generated_candidate_count, detailed.retrieval.generated_candidate_count);
    assert_eq!(
        compact.retrieval.merged_generated_candidate_count,
        detailed.retrieval.merged_generated_candidate_count
    );
    assert_eq!(compact_facts(&compact.pairs), detailed_facts(&detailed.pairs));
    for (c, d) in compact.pairs.iter().zip(detailed.pairs.iter()) {
        assert_eq!(c.candidate_sources.len(), 1);
        assert_eq!(c.candidate_sources[0].pair_id, d.candidate_sources[0].pair_id);
        assert_eq!(c.candidate_sources[0].generation_rank, d.candidate_sources[0].generation_rank);
    }
}

#[test]
fn ranked_candidates_carry_their_rank_and_saturation() {
    let observation = observe_search(output(), Vec::new(), SearchScoringVariant::AllFeatures);
    assert_eq!(observation.pairs.len(), 2);
    assert_eq!(observation.visible_groups_total, 2);
    assert_eq!(observation.pairs[0].right, "Synthetic.b");
    assert_eq!(observation.pairs[0].rank, Some(1));
    assert_eq!(observation.pairs[1].rank, Some(2));
    assert_eq!(observation.pairs[0].generation_policy, "local_duplicate_audit");
    let fact = &observation.pairs[1].candidate_sources[0];
    assert_eq!(fact.source_id, "symbolic-retrieval");
    assert_eq!(fact.generation_rank, Some(2));
    assert_eq!(fact.top_k_status, SearchCandidateTopKStatus::Selected);
    assert!(fact.top_k_saturated);
    assert_eq!(fact.pair_id, "a::c");
    assert_eq!(observation.retrieval.heap_truncations, 1);
    assert_eq!(observation.retrieval.merged_generated_candidate_count, 2);
}

#[test]
fn compact_observation_refuses_ablations() {
    let error = observe_search_stages(output(), Vec::new(), SearchScoringVariant::NoRoleFeatures).unwrap_err();
    assert!(error.message.contains("no-role-features"));
}

#[test]
fn generated_pairs_follow_the_ranked_pairs_without_a_rank() {
    let anchor = declaration("x", "Synthetic.x");
    let other = declaration("y", "Synthetic.y");
    let evidence = GeneratedPairEvidence {
        policy: "symbolic-generated".to_owned(),
        contributions: vec![contribution("statement-fingerprint")],
    };
    let pair = generated_observed_pair(&anchor, &other, evidence.clone(), SearchScoringVariant::AllFeatures);
    assert!(!pair.ranked);
    assert_eq!(pair.rank, None);
    assert_eq!(pair.generation_policy, "symbolic-generated");
    assert_eq!(pair.candidate_sources[0].top_k_status, SearchCandidateTopKStatus::GeneratedNotSelected);
    assert_eq!(pair.candidate_sources[0].generation_rank, None);
    let stage = generated_stage_pair(&anchor, &other, evidence);
    assert_eq!(stage.shown, pair.shown);
    assert!(!stage.ranked);

    let observation = observe_search(output(), vec![pair], SearchScoringVariant::AllFeatures);
    assert_eq!(observation.pairs.len(), 3);
    assert_eq!(observation.pairs[2].left, "Synthetic.x");
    assert_eq!(observation.retrieval.merged_generated_candidate_count, 3);
}

#[test]
fn followed_pairs_are_anchored_on_the_workspace_side() {
    assert_eq!(orient_pair(None, None, 0, 0), Some(OrientedPair { left_is_anchor: true, external_index: None }));
    assert_eq!(orient_pair(None, Some(1), 2, 2), Some(OrientedPair { left_is_anchor: true, external_index: Some(1) }));
    assert_eq!(orient_pair(Some(0), None, 1, 1), Some(OrientedPair { left_is_anchor: false, external_index: Some(0) }));
    assert_eq!(orient_pair(Some(0), Some(0), 1, 1), None);
    assert_eq!(orient_pair(None, Some(3), 2, 2), None);
    assert_eq!(orient_pair(Some(1), None, 2, 1), None);
}

fn followed(left: &str, right: &str) -> SearchTrackedPair {
    SearchTrackedPair { left: left.to_owned(), right: right.to_owned() }
}

#[test]
fn followed_pairs_skip_ranked_pairs_and_repeats() {
    let pairs = vec![
        followed("Synthetic.b", "Synthetic.a"),
        followed("Synthetic.x", "Synthetic.y"),
        followed("Synthetic.y", "Synthetic.x"),
        followed("Synthetic.a", "Synthetic.z"),
    ];
    assert_eq!(followed_pairs_to_observe(&output(), &pairs), vec![1, 3]);
}

#[test]
fn generated_followed_pairs_are_sorted_by_names() {
    let evidence = || GeneratedPairEvidence {
        policy: "symbolic-generated".to_owned(),
        contributions: vec![contribution("statement-fingerprint")],
    };
    let make = |l: &str, r: &str| {
        generated_observed_pair(&declaration(l, l), &declaration(r, r), evidence(), SearchScoringVariant::AllFeatures)
    };
    let sorted = sort_observed_by_names(vec![make("B", "A"), make("A", "C"), make("A", "B")]);
    let names: Vec<(String, String)> = sorted.iter().map(|p| (p.left.clone(), p.right.clone())).collect();
    assert_eq!(
        names,
        vec![("A".to_owned(), "B".to_owned()), ("A".to_owned(), "C".to_owned()), ("B".to_owned(), "A".to_owned())]
    );
    let stages = sort_stage_by_names(vec![
        generated_stage_pair(&declaration("Z", "Z"), &declaration("A", "A"), evidence()),
        generated_stage_pair(&declaration("M", "M"), &declaration("A", "A"), evidence()),
    ]);
    assert_eq!(stages[0].left, "M");
}

#[test]
fn tracked_pairs_record_generated_before_ranked_selection() {
    let output = output();
    let watched = vec![followed("Synthetic.generated_0", "Synthetic.generated_1")];
    let to_observe = followed_pairs_to_observe(&output, &watched);
    assert_eq!(to_observe, vec![0]);
    let evidence = GeneratedPairEvidence {
        policy: "local_duplicate_audit".to_owned(),
        contributions: vec![contribution("statement-fingerprint")],
    };
    let generated = generated_observed_pair(
        &declaration("g0", "Synthetic.generated_0"),
        &declaration("g1", "Synthetic.generated_1"),
        evidence,
        SearchScoringVariant::AllFeatures,
    );
    let observation = observe_search(output, sort_observed_by_names(vec![generated]), SearchScoringVariant::AllFeatures);

    let pair = observation
        .pairs
        .iter()
        .find(|pair| {
            (pair.left == "Synthetic.generated_0" && pair.right == "Synthetic.generated_1")
                || (pair.left == "Synthetic.generated_1" && pair.right == "Synthetic.generated_0")
        })
        .expect("tracked generated pair");
    assert!(pair.generated);
    assert!(!pair.ranked);
    assert_eq!(pair.rank, None);
    assert_eq!(pair.generation_policy, "local_duplicate_audit");
    assert!(pair.feature_families.contains(&"statement_fingerprint".to_owned()));
    assert_eq!(pair.candidate_sources.len(), 1);
    let source = &pair.candidate_sources[0];
    assert_eq!(source.source_id, "symbolic-retrieval");
    assert_eq!(source.source_family, SearchCandidateSourceFamily::Symbolic);
    assert_eq!(source.top_k_status, SearchCandidateTopKStatus::GeneratedNotSelected);
    assert_eq!(source.generation_rank, None);
    assert!(source.feature_families.contains(&"statement_fingerprint".to_owned()));
    assert!(observation.retrieval.generated_candidate_count > observation.retrieval.ranked_candidate_count);
}
