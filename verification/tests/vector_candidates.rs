use lean_dup::declaration::HydratedDeclaration;
use lean_dup::vector_candidates::{
    eligible_declarations, fallback_model_fingerprint, pair_key, plan_vector_candidates, record_model_cache_status,
    search_corpus_status, EmbeddingCacheStatus,
    stable_vector_error, SearchVectorAcquisitionPolicy, SearchVectorCandidateRequest, SearchVectorCandidateStatus,
    SearchVectorCandidateSummary, SearchVectorCorpusStatus, SearchVectorEligibilityPolicy, SearchVectorInputFormat,
};
use lean_dup::vector_documents::{document_text, DocumentPolicy};
use lean_dup::vector_index::{VectorCorpusStatus, VectorIndexError};
use lean_dup::worker::Fingerprints;

fn declaration(name: &str, kind: &str, visibility: &str) -> HydratedDeclaration {
    HydratedDeclaration {
        handle: name.to_owned(),
        declaration_id: "workspace:".to_owned() + name,
        origin: "workspace".to_owned(),
        module: name.split('.').next().unwrap_or("Fixture").to_owned(),
        qualified_name: name.to_owned(),
        display_name: name.rsplit('.').next().unwrap_or(name).to_owned(),
        kind: kind.to_owned(),
        visibility: visibility.to_owned(),
        modifiers: Vec::new(),
        source_span: None,
        statement_text: "example statement".to_owned(),
        docstring_text: None,
        definition_body_summary: None,
        status_flags: Vec::new(),
        feature_version: "test".to_owned(),
        fingerprints: Fingerprints {
            statement: name.to_owned() + ":statement",
            safe_binder_permutation: String::new(),
            connective_shape: String::new(),
            conclusion_shape: String::new(),
        },
        role_features: Vec::new(),
        binder_count: 0,
        low_signal_markers: Vec::new(),
    }
}

fn with_flag(mut d: HydratedDeclaration, flag: &str) -> HydratedDeclaration {
    d.status_flags.push(flag.to_owned());
    d
}

fn with_low_signal(mut d: HydratedDeclaration, marker: &str) -> HydratedDeclaration {
    d.low_signal_markers.push(marker.to_owned());
    d
}

fn with_statement(mut d: HydratedDeclaration, statement: &str) -> HydratedDeclaration {
    d.statement_text = statement.to_owned();
    d
}

fn request(corpus_cache_root: &str, eligibility_policy: SearchVectorEligibilityPolicy) -> SearchVectorCandidateRequest {
    SearchVectorCandidateRequest {
        profile_id: "unsupported-profile".to_owned(),
        revision: None,
        input_format: SearchVectorInputFormat::AsymmetricQueryDocument,
        acquisition_policy: SearchVectorAcquisitionPolicy::CacheOnly,
        model_cache_root: None,
        text_vector_cache_root: None,
        corpus_cache_root: corpus_cache_root.to_owned(),
        document_policy: DocumentPolicy::NameAndStatement,
        eligibility_policy,
    }
}

fn entries(pairs: &[(&str, usize)]) -> Vec<(String, usize)> {
    pairs.iter().map(|(k, v)| (k.to_string(), *v)).collect()
}

#[test]
fn actionable_public_statement_policy_records_stable_skip_reasons() {
    let rows = vec![
        with_flag(declaration("Generated.item", "theorem", "public"), "generated"),
        declaration("Private.item", "theorem", "private"),
        declaration("Synthetic.item", "theorem", "public"),
        with_low_signal(declaration("LowSignal.item", "theorem", "public"), "broad_head:Eq"),
        with_statement(declaration("Missing.item", "theorem", "public"), ""),
        declaration("Instance.item", "instance", "public"),
        declaration("Struct.item", "structure", "public"),
        declaration("Useful.item", "theorem", "public"),
    ];

    let eligible = eligible_declarations(rows, SearchVectorEligibilityPolicy::ActionablePublicStatement);

    assert_eq!(eligible.summary.policy_id, "actionable-public-statement");
    assert_eq!(eligible.summary.total, 8);
    assert_eq!(eligible.summary.eligible, 1);
    assert_eq!(
        eligible.summary.skipped_by_reason,
        entries(&[
            ("generated", 1),
            ("low-signal", 1),
            ("missing-statement", 1),
            ("not-actionable", 1),
            ("private", 1),
            ("synthetic", 1),
            ("unsupported-kind", 1),
        ])
    );
    assert_eq!(eligible.declarations[0].qualified_name, "Useful.item");
}

#[test]
fn broad_policy_includes_normally_excluded_declarations_with_text() {
    let rows = vec![
        with_flag(declaration("Generated.item", "theorem", "public"), "generated"),
        declaration("Private.item", "theorem", "private"),
        declaration("Synthetic.item", "theorem", "public"),
        with_low_signal(declaration("LowSignal.item", "theorem", "public"), "broad_head:Eq"),
        with_statement(declaration("Missing.item", "theorem", "public"), ""),
    ];

    let eligible = eligible_declarations(rows, SearchVectorEligibilityPolicy::Broad);

    assert_eq!(eligible.summary.policy_id, "broad");
    assert_eq!(eligible.summary.total, 5);
    assert_eq!(eligible.summary.eligible, 4);
    assert_eq!(eligible.summary.skipped_by_reason, entries(&[("missing-statement", 1)]));
}

#[test]
fn vector_generation_reports_no_eligible_query_without_model_work() {
    let rows = vec![declaration("Synthetic.item", "theorem", "public")];

    let plan = plan_vector_candidates(
        &request("/tmp/corpus", SearchVectorEligibilityPolicy::ActionablePublicStatement),
        rows,
        Vec::new(),
    );

    assert_eq!(plan.summary.status, SearchVectorCandidateStatus::Skipped);
    assert_eq!(plan.summary.reason.as_deref(), Some("no-eligible-vector-queries"));
    assert_eq!(plan.summary.query_eligibility.eligible, 0);
    assert_eq!(plan.summary.corpus_eligibility.eligible, 0);
    assert!(plan.summary.top_k_saturated);
    assert!(plan.queries.is_empty());
}

#[test]
fn vector_summary_records_top_k_saturation_from_eligible_corpus_size() {
    let small = (0..2)
        .map(|index| declaration(&("Useful.small_".to_owned() + &index.to_string()), "theorem", "public"))
        .collect::<Vec<_>>();
    let large = (0..40)
        .map(|index| declaration(&("Useful.large_".to_owned() + &index.to_string()), "theorem", "public"))
        .collect::<Vec<_>>();

    let small_plan = plan_vector_candidates(&request("/tmp/small", SearchVectorEligibilityPolicy::Broad), small, Vec::new());
    let large_plan = plan_vector_candidates(&request("/tmp/large", SearchVectorEligibilityPolicy::Broad), large, Vec::new());

    assert_eq!(small_plan.summary.top_k, 32);
    assert_eq!(small_plan.summary.eligible_corpus_size, 2);
    assert!(small_plan.summary.top_k_saturated);
    assert_eq!(large_plan.summary.top_k, 32);
    assert_eq!(large_plan.summary.eligible_corpus_size, 40);
    assert!(!large_plan.summary.top_k_saturated);
}

#[test]
fn realistic_validation_fixture_records_non_saturated_eligibility_contract() {
    let mut rows = (0..72)
        .map(|index| {
            let name = "VectorFixture.useful_".to_owned() + &format!("{:02}", index);
            declaration(&name, "theorem", "public")
        })
        .collect::<Vec<_>>();
    rows.extend([
        with_flag(declaration("VectorFixture.generated", "theorem", "public"), "generated"),
        declaration("VectorFixture.private_item", "theorem", "private"),
        declaration("Synthetic.fixture_noise", "theorem", "public"),
        with_low_signal(declaration("VectorFixture.low_signal", "theorem", "public"), "broad_head:Eq"),
        with_statement(declaration("VectorFixture.missing_statement", "theorem", "public"), ""),
        declaration("VectorFixture.instance_noise", "instance", "public"),
        declaration("VectorFixture.structure_noise", "structure", "public"),
    ]);

    let plan = plan_vector_candidates(
        &request("/tmp/realistic", SearchVectorEligibilityPolicy::ActionablePublicStatement),
        rows,
        Vec::new(),
    );

    assert_eq!(plan.summary.query_eligibility.total, 79);
    assert_eq!(plan.summary.query_eligibility.eligible, 72);
    assert_eq!(plan.summary.corpus_eligibility.eligible, 72);
    assert_eq!(plan.summary.top_k, 32);
    assert_eq!(plan.summary.eligible_corpus_size, 72);
    assert!(!plan.summary.top_k_saturated);
    assert_eq!(
        plan.summary.query_eligibility.skipped_by_reason,
        entries(&[
            ("generated", 1),
            ("low-signal", 1),
            ("missing-statement", 1),
            ("not-actionable", 1),
            ("private", 1),
            ("synthetic", 1),
            ("unsupported-kind", 1),
        ])
    );
    assert_eq!(plan.summary.reason, None);
}

#[test]
fn empty_input_is_skipped_before_eligibility_matters() {
    let plan = plan_vector_candidates(&request("/tmp/e", SearchVectorEligibilityPolicy::Broad), Vec::new(), Vec::new());
    assert_eq!(plan.summary.reason.as_deref(), Some("empty-vector-input"));
    let corpus_only_noise = plan_vector_candidates(
        &request("/tmp/e", SearchVectorEligibilityPolicy::ActionablePublicStatement),
        vec![declaration("Useful.q", "theorem", "public")],
        vec![declaration("Other.x", "theorem", "private")],
    );
    assert_eq!(corpus_only_noise.summary.reason.as_deref(), Some("no-eligible-vector-corpus"));
    assert!(corpus_only_noise.corpus.unwrap().is_empty());
}

#[test]
fn pair_keys_and_fingerprints() {
    assert_eq!(pair_key("b", "a"), ("a".to_owned(), "b".to_owned()));
    assert_eq!(pair_key("a", "b"), pair_key("b", "a"));
    // An empty revision adds nothing after the separator.
    assert_eq!(fallback_model_fingerprint("m", None), fallback_model_fingerprint("m", Some("")));
    assert_ne!(fallback_model_fingerprint("m", None), fallback_model_fingerprint("m", Some("r")));
    assert_eq!(fallback_model_fingerprint("m", None).len(), 64);
}

#[test]
fn defaults_and_error_labels() {
    let summary = SearchVectorCandidateSummary::default();
    assert_eq!(summary.status, SearchVectorCandidateStatus::Disabled);
    assert_eq!(summary.input_format_id, "asymmetric-query-document");
    assert_eq!(summary.input_format_version, "lean-dup.embedding-input-format.v1");
    assert_eq!(SearchVectorInputFormat::SymmetricDocument.id(), "symmetric-document");
    assert_eq!(SearchVectorEligibilityPolicy::default().id(), "actionable-public-statement");
    assert_eq!(search_corpus_status(VectorCorpusStatus::Stale), SearchVectorCorpusStatus::Stale);
    let stale = VectorIndexError::CorpusUnavailable {
        status: VectorCorpusStatus::Stale,
        reason: "x".to_owned(),
    };
    assert_eq!(stable_vector_error(&stale), "vector-corpus-stale");
    assert_eq!(
        stable_vector_error(&VectorIndexError::Io { reason: "e".to_owned() }),
        "vector-corpus-io-failed"
    );
}

#[test]
fn planned_documents_follow_the_requested_policy() {
    let rows = vec![declaration("Synthetic.a", "theorem", "public"), declaration("Synthetic.b", "theorem", "public")];
    let mut req = request("/tmp/docs", SearchVectorEligibilityPolicy::Broad);
    req.document_policy = DocumentPolicy::NameAndStatement;
    let plan = plan_vector_candidates(&req, rows, Vec::new());
    assert_eq!(plan.query_documents.documents.len(), 2);
    for (doc, decl) in plan.query_documents.documents.iter().zip(plan.queries.iter()) {
        assert_eq!(doc.declaration_name, decl.qualified_name);
        assert_eq!(doc.text, document_text(DocumentPolicy::NameAndStatement, decl));
    }
    assert_eq!(plan.corpus_documents.documents.len(), 2);
}

#[test]
fn an_unprepared_model_stops_the_run_with_its_reason() {
    let plan = plan_vector_candidates(
        &request("/tmp/m", SearchVectorEligibilityPolicy::Broad),
        vec![declaration("Synthetic.a", "theorem", "public"), declaration("Synthetic.b", "theorem", "public")],
        Vec::new(),
    );
    let mut summary = plan.summary;
    assert!(record_model_cache_status(&mut summary, EmbeddingCacheStatus::Prepared));
    assert_eq!(summary.reason, None);
    assert!(!record_model_cache_status(&mut summary, EmbeddingCacheStatus::Unusable));
    assert_eq!(summary.reason.as_deref(), Some("vector-model-unusable"));
    assert_eq!(summary.status, SearchVectorCandidateStatus::Skipped);
}
