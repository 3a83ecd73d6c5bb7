use lean_dup::declaration::HydratedDeclaration;
use lean_dup::nearest::{add_query_hits, list_candidates, merge_candidates, NearestHit, ScoredCandidate, VectorCandidate};
use lean_dup::worker::Fingerprints;

fn declaration(name: &str) -> HydratedDeclaration {
    HydratedDeclaration {
        handle: name.to_owned(),
        declaration_id: name.to_owned(),
        origin: "workspace".to_owned(),
        module: "Synthetic".to_owned(),
        qualified_name: name.to_owned(),
        display_name: name.to_owned(),
        kind: "theorem".to_owned(),
        visibility: "public".to_owned(),
        modifiers: Vec::new(),
        source_span: None,
        statement_text: "theorem t : True".to_owned(),
        docstring_text: None,
        definition_body_summary: None,
        status_flags: Vec::new(),
        feature_version: "test".to_owned(),
        fingerprints: Fingerprints {
            statement: String::new(),
            safe_binder_permutation: String::new(),
            connective_shape: String::new(),
            conclusion_shape: String::new(),
        },
        role_features: Vec::new(),
        binder_count: 0,
        low_signal_markers: Vec::new(),
    }
}

fn hit(name: &str, score: f32) -> NearestHit {
    NearestHit { declaration_name: name.to_owned(), content_hash: format!("hash-{}", name), score_bits: score.to_bits() }
}

fn summary(candidates: &[VectorCandidate]) -> Vec<(String, String, usize, usize)> {
    candidates
        .iter()
        .map(|c| (c.anchor_name.clone(), c.declaration_name.clone(), c.rank, c.declaration_index))
        .collect()
}

#[test]
fn nearest_answers_skip_the_query_and_unknown_names_and_stop_at_top_k() {
    let corpus = vec![declaration("A"), declaration("B"), declaration("C"), declaration("D")];
    let mut candidates = Vec::new();
    let hits = vec![hit("A", 1.0), hit("Z", 0.9), hit("B", 0.8), hit("C", 0.7), hit("D", 0.6)];
    add_query_hits(&mut candidates, &"A".to_owned(), &"hash-A".to_owned(), &hits, &corpus, 2);
    assert_eq!(
        summary(&candidates),
        vec![("A".to_owned(), "B".to_owned(), 1, 1), ("A".to_owned(), "C".to_owned(), 2, 2)]
    );
    assert_eq!(f32::from_bits(candidates[0].score_bits), 0.8);
    assert_eq!(candidates[1].declaration_content_hash, "hash-C");
    assert_eq!(candidates[0].anchor_content_hash, "hash-A");
}

#[test]
fn a_pair_found_from_either_side_is_kept_once_and_listed_in_order() {
    let corpus = vec![declaration("A"), declaration("B"), declaration("C")];
    let mut candidates = Vec::new();
    add_query_hits(&mut candidates, &"B".to_owned(), &"hash-B".to_owned(), &vec![hit("C", 0.9), hit("A", 0.8)], &corpus, 5);
    add_query_hits(&mut candidates, &"A".to_owned(), &"hash-A".to_owned(), &vec![hit("B", 0.8), hit("C", 0.5)], &corpus, 5);
    let listed = list_candidates(candidates);
    assert_eq!(
        summary(&listed),
        vec![
            ("A".to_owned(), "C".to_owned(), 2, 2),
            ("B".to_owned(), "C".to_owned(), 1, 2),
            ("B".to_owned(), "A".to_owned(), 2, 0),
        ]
    );
}

#[test]
fn the_last_corpus_declaration_of_a_name_is_the_one_paired() {
    let corpus = vec![declaration("B"), declaration("A"), declaration("B")];
    let mut candidates = Vec::new();
    add_query_hits(&mut candidates, &"A".to_owned(), &"hash-A".to_owned(), &vec![hit("B", 0.8)], &corpus, 5);
    assert_eq!(candidates[0].declaration_index, 2);
}

#[test]
fn a_zero_top_k_yields_no_candidates() {
    let corpus = vec![declaration("A"), declaration("B")];
    let mut candidates = Vec::new();
    add_query_hits(&mut candidates, &"A".to_owned(), &"hash-A".to_owned(), &vec![hit("B", 0.8)], &corpus, 0);
    assert!(candidates.is_empty());
}

fn scored(anchor: &str, name: &str, rank: usize, score_key: i64) -> ScoredCandidate {
    ScoredCandidate {
        candidate: VectorCandidate {
            anchor_name: anchor.to_owned(),
            anchor_content_hash: format!("hash-{}", anchor),
            declaration_index: 0,
            declaration_name: name.to_owned(),
            declaration_content_hash: format!("hash-{}", name),
            score_bits: 0,
            rank,
        },
        score_key,
    }
}

#[test]
fn merged_candidates_keep_one_per_pair_by_rank_then_score() {
    let merged = merge_candidates(vec![
        scored("B", "A", 2, 10),
        scored("C", "D", 1, 5),
        scored("A", "B", 2, 30),
        scored("A", "B", 3, 99),
        scored("D", "C", 1, 5),
    ]);
    let facts: Vec<(String, String, usize, i64)> = merged
        .iter()
        .map(|c| (c.candidate.anchor_name.clone(), c.candidate.declaration_name.clone(), c.candidate.rank, c.score_key))
        .collect();
    assert_eq!(
        facts,
        vec![("A".to_owned(), "B".to_owned(), 2, 30), ("C".to_owned(), "D".to_owned(), 1, 5)]
    );
}
