use lean_dup::declaration::HydratedDeclaration;
use lean_dup::vector::{validate_request, VectorValidationBounds, VectorValidationRequest, VectorValidationStatus};
use lean_dup::vector_documents::{
    build, check, content_hash_for, document_text, fallback_model_fingerprint, input_format, source_corpus_fingerprint,
    DocumentPolicy, EmbeddingInputFormat,
};
use lean_dup::vector_eligibility::{filter, EligibilityPolicy};
use lean_dup::vector_workload::{
    budget_violation, comparison_count, cost_summary, gate_reason, gate_status, outcome_status, stable_pair_id,
    suite_k_values, suite_kind, top_k_saturation, SuiteKind, VectorCandidateStatus, VectorCandidateSummary,
    VectorScorerVariant,
};
use lean_dup::vector_index::VectorCorpusStatus;
use lean_dup::worker::Fingerprints;

fn declaration(name: &str, kind: &str, visibility: &str) -> HydratedDeclaration {
    HydratedDeclaration {
        handle: name.to_owned(),
        declaration_id: "workspace:".to_owned() + name,
        origin: "workspace".to_owned(),
        module: name.split('.').next().unwrap_or("Fixture").to_owned(),
        qualified_name: name.to_owned(),
        display_name: name.rsplit('.').next().unwrap_or(name).to_owned(),
        kind: kind.to_owned(),
        visibility: visibility.to_owned(),
        modifiers: Vec::new(),
        source_span: None,
        statement_text: "example  statement\n text".to_owned(),
        docstring_text: None,
        definition_body_summary: None,
        status_flags: Vec::new(),
        feature_version: "test".to_owned(),
        fingerprints: Fingerprints {
            statement: name.to_owned() + ":statement",
            safe_binder_permutation: String::new(),
            connective_shape: String::new(),
            conclusion_shape: String::new(),
        },
        role_features: Vec::new(),
        binder_count: 0,
        low_signal_markers: Vec::new(),
    }
}

fn request() -> VectorValidationRequest {
    VectorValidationRequest::new("vector-fixture".to_owned(), "/tmp/corpus".to_owned())
}

#[test]
fn eligibility_records_reasons_in_label_order() {
    let mut generated = declaration("Generated.item", "theorem", "public");
    generated.status_flags.push("generated".to_owned());
    let mut low = declaration("LowSignal.item", "theorem", "public");
    low.low_signal_markers.push("low-signal".to_owned());
    let mut blank = declaration("Missing.item", "theorem", "public");
    blank.statement_text = "  \n".to_owned();
    let mut flagged = declaration("Flagged.item", "theorem", "public");
    flagged.status_flags.push("non-actionable".to_owned());
    let rows = vec![
        generated,
        declaration("Private.item", "theorem", "private"),
        declaration("Synthetic.item", "theorem", "public"),
        low,
        blank,
        declaration("Struct.item", "inductive", "public"),
        flagged,
        declaration("Useful.item", "theorem", "public"),
    ];
    let eligible = filter(rows, EligibilityPolicy::ActionablePublicStatement);
    assert_eq!(eligible.summary.policy_id, "actionable-public-statement");
    assert_eq!(eligible.summary.total, 8);
    assert_eq!(eligible.summary.eligible, 1);
    assert_eq!(
        eligible.summary.skipped_by_reason,
        vec![
            ("generated".to_owned(), 1),
            ("low-signal".to_owned(), 1),
            ("missing-statement".to_owned(), 1),
            ("non-actionable".to_owned(), 1),
            ("private".to_owned(), 1),
            ("synthetic".to_owned(), 1),
            ("unsupported-kind".to_owned(), 1),
        ]
    );
    assert_eq!(eligible.declarations[0].qualified_name, "Useful.item");
}

#[test]
fn broad_eligibility_keeps_unusual_kinds() {
    let rows = vec![
        declaration("Struct.item", "inductive", "public"),
        declaration("Private.item", "theorem", "private"),
    ];
    let eligible = filter(rows, EligibilityPolicy::Broad);
    assert_eq!(eligible.summary.eligible, 1);
    assert_eq!(eligible.summary.skipped_by_reason, vec![("private".to_owned(), 1)]);
    assert!(EligibilityPolicy::from_id("nope").is_err());
    assert_eq!(EligibilityPolicy::from_id("broad").unwrap(), EligibilityPolicy::Broad);
}

#[test]
fn document_texts_follow_the_policy() {
    let mut d = declaration("A.b", "theorem", "public");
    d.docstring_text = Some("  a   doc ".to_owned());
    d.definition_body_summary = Some("".to_owned());
    assert_eq!(document_text(DocumentPolicy::Statement, &d), "example statement text");
    assert_eq!(
        document_text(DocumentPolicy::NameAndStatement, &d),
        "name: A.b\nstatement: example statement text"
    );
    assert_eq!(
        document_text(DocumentPolicy::DefinitionAware, &d),
        "name: A.b\nstatement: example statement text"
    );
    assert_eq!(
        document_text(DocumentPolicy::DocstringAugmented, &d),
        "name: A.b\nstatement: example statement text\ndocstring: a doc"
    );
    assert_eq!(DocumentPolicy::from_id("definition-aware").unwrap(), DocumentPolicy::DefinitionAware);
    assert!(DocumentPolicy::from_id("other").is_err());
    let policy = DocumentPolicy::DocstringAugmented.embedding_policy();
    assert!(policy.includes_docstring && policy.includes_definition_body_summary && policy.includes_declaration_name);
}

#[test]
fn content_hash_digests_version_policy_name_kind_and_text() {
    let d = declaration("A.b", "theorem", "public");
    let hash = content_hash_for(DocumentPolicy::Statement, &d, "t");
    assert_eq!(hash.len(), 64);
    assert!(hash.chars().all(|c| c.is_ascii_hexdigit() && !c.is_ascii_uppercase()));
    assert_ne!(hash, content_hash_for(DocumentPolicy::NameAndStatement, &d, "t"));
    assert_eq!(hash, content_hash_for(DocumentPolicy::Statement, &d, "t"));
}

#[test]
fn documents_count_available_content() {
    let mut with_doc = declaration("A.b", "theorem", "public");
    with_doc.docstring_text = Some("doc".to_owned());
    let mut empty = declaration("A.c", "theorem", "public");
    empty.statement_text = " ".to_owned();
    let docs = build(DocumentPolicy::NameAndStatement, &vec![with_doc, empty]);
    assert_eq!(docs.documents.len(), 2);
    assert_eq!(docs.availability.total, 2);
    assert_eq!(docs.availability.with_statement, 1);
    assert_eq!(docs.availability.with_docstring, 1);
    assert_eq!(docs.availability.with_definition_body_summary, 0);
    assert_eq!(docs.documents[1].text, "name: A.c\nstatement: ");
    let fingerprint = source_corpus_fingerprint(&docs);
    assert_eq!(fingerprint.len(), 64);
    assert_ne!(fallback_model_fingerprint("m", None), fallback_model_fingerprint("m", Some("r")));
    assert_eq!(fallback_model_fingerprint("m", None), fallback_model_fingerprint("m", Some("default")));
}

#[test]
fn leak_check_names_the_first_forbidden_pattern() {
    assert!(check("{\"ok\": 1}").is_ok());
    let err = check("{\"path\": \"/Users/me\", \"x\": \"sqlite\"}").unwrap_err();
    assert_eq!(err.message, "artifact contains forbidden pattern `/Users/`");
    assert!(check("query: text").is_err());
}

#[test]
fn input_formats_are_named() {
    assert_eq!(input_format("symmetric-document").unwrap(), EmbeddingInputFormat::SymmetricDocument);
    assert_eq!(
        input_format("x").unwrap_err().message,
        "unsupported input format: x"
    );
}

#[test]
fn budget_violations_are_checked_in_order() {
    let r = request().with_bounds(VectorValidationBounds {
        max_declarations: 1,
        max_queries: 1,
        max_runtime_ms: u128::MAX,
        max_rss_bytes: u64::MAX,
    });
    let reason = budget_violation(&r, 3, 5, 0, None).unwrap();
    assert!(reason.contains("query-count-budget-exceeded"));
    assert_eq!(reason, "query-count-budget-exceeded: 3 > 1");
    assert_eq!(
        budget_violation(&r, 1, 5, 0, None).unwrap(),
        "declaration-count-budget-exceeded: 5 > 1"
    );
    assert_eq!(budget_violation(&r, 1, 1, 0, Some(7)), None);
    let tight = request().with_bounds(VectorValidationBounds {
        max_declarations: 10,
        max_queries: 10,
        max_runtime_ms: 5,
        max_rss_bytes: 100,
    });
    assert_eq!(
        budget_violation(&tight, 1, 1, 6, None).unwrap(),
        "runtime-budget-exceeded-before-vector-generation"
    );
    assert_eq!(
        budget_violation(&tight, 1, 1, 0, Some(101)).unwrap(),
        "rss-budget-exceeded-before-vector-generation"
    );
}

#[test]
fn budget_skip_summary_records_counts() {
    let r = request();
    let summary = VectorCandidateSummary::skipped_for_budget(&r, 3, 40, "query-count-budget-exceeded: 3 > 1".to_owned());
    assert_eq!(summary.status, VectorCandidateStatus::Skipped);
    assert_eq!(summary.top_k, 32);
    assert_eq!(summary.eligible_corpus_size, 40);
    assert!(!summary.top_k_saturated);
    assert_eq!(outcome_status(summary.status), VectorValidationStatus::Skipped);
    assert_eq!(outcome_status(VectorCandidateStatus::Generated), VectorValidationStatus::Passed);
    let cost = cost_summary(&summary, None, None);
    assert_eq!(cost.rss_status, "unavailable");
    assert_eq!(cost.query_count, 3);
    let saturation = top_k_saturation(&summary);
    assert_eq!((saturation.found, saturation.total), (0, 3));
}

#[test]
fn reused_corpus_has_no_cold_build_time() {
    let mut summary = VectorCandidateSummary::default();
    summary.corpus_status = Some(VectorCorpusStatus::Reused);
    summary.corpus_build_ms = 50;
    summary.corpus_open_ms = u128::MAX;
    summary.query_ms = 3;
    let cost = cost_summary(&summary, Some(10), Some("a.json".to_owned()));
    assert_eq!(cost.cold_build_ms, 0);
    assert_eq!(cost.warm_open_query_ms, u128::MAX);
    assert_eq!(cost.rss_status, "available");
}

#[test]
fn k_values_always_include_ten_sorted_once() {
    assert_eq!(suite_k_values(&vec![5, 1, 5]), vec![1, 5, 10]);
    assert_eq!(suite_k_values(&vec![10, 1]), vec![1, 10]);
    assert_eq!(suite_k_values(&Vec::new()), vec![10]);
}

#[test]
fn suites_and_gates() {
    assert_eq!(suite_kind("default").unwrap(), SuiteKind::Default);
    assert_eq!(suite_kind("production-gate").unwrap(), SuiteKind::ProductionGate);
    assert_eq!(
        suite_kind("weird").unwrap_err().message,
        "unsupported vector validation suite: weird"
    );
    let children = |xs: &[&str]| xs.iter().map(|s| s.to_string()).collect::<Vec<_>>();
    assert_eq!(gate_status(&children(&["ok", "skipped", "failed"])), VectorValidationStatus::Failed);
    assert_eq!(gate_status(&children(&["ok", "skipped"])), VectorValidationStatus::Skipped);
    assert_eq!(gate_status(&children(&["ok", "ok"])), VectorValidationStatus::Passed);
    assert_eq!(gate_reason(VectorValidationStatus::Passed), None);
    assert_eq!(
        gate_reason(VectorValidationStatus::Skipped).unwrap(),
        "one or more child workloads did not complete"
    );
    assert_eq!(comparison_count(4, 0), 4);
    assert_eq!(comparison_count(4, 9), 9);
}

#[test]
fn pair_ids_are_order_independent() {
    assert_eq!(stable_pair_id("b", "a"), "a::b");
    assert_eq!(stable_pair_id("a", "b"), "a::b");
    let ids = VectorScorerVariant::all().iter().map(|v| v.id()).collect::<Vec<_>>();
    assert_eq!(ids, vec!["symbolic-only", "vector-evidence-only", "symbolic-plus-vector"]);
}

#[test]
fn requests_are_validated() {
    assert!(validate_request(&request()).is_ok());
    let blank = VectorValidationRequest::new(" ".to_owned(), "/c".to_owned());
    assert_eq!(validate_request(&blank).unwrap_err().message, "suite id is empty");
    let zero = request().with_bounds(VectorValidationBounds {
        max_declarations: 0,
        max_queries: 1,
        max_runtime_ms: 1,
        max_rss_bytes: 1,
    });
    assert_eq!(
        validate_request(&zero).unwrap_err().message,
        "validation bounds must allow at least one declaration and one query"
    );
}

#[test]
fn builder_calls_keep_the_suite() {
    let r = VectorValidationRequest::new("vector-fixture".to_owned(), "/cache".to_owned())
        .with_workspace(Some("/w".to_owned()))
        .with_mathlib_workspace(Some("/m".to_owned()))
        .with_manual_module(Some("Mod".to_owned()))
        .with_profile("profile".to_owned(), Some("rev".to_owned()))
        .with_acquisition_policy(lean_dup::vector::VectorAcquisitionPolicy::CacheOnly)
        .with_input_format("format".to_owned())
        .with_document_policy("name-and-statement".to_owned())
        .with_eligibility_policy("broad".to_owned())
        .with_model_cache_root(Some("/models".to_owned()))
        .with_text_vector_cache_root(None)
        .with_artifact_root(Some("/artifacts".to_owned()))
        .with_k_values(vec![5, 20])
        .with_bounds(VectorValidationBounds::default_bounds());
    assert_eq!(r.suite(), "vector-fixture");
}
