use lean_dup::vector_index::{
    build_output, current_status, open_verdict, rebuilt_manifest, validate_declaration_count,
    validate_declaration_fields, validate_provenance, validate_query_limit, validate_vector_length, Manifest, PreparedVectorCorpus,
    VectorCorpus, VectorCorpusProvenance, VectorCorpusStatus, VectorDeclarationFields, VectorIndexError,
    VECTOR_INDEX_SCHEMA_VERSION,
};

fn provenance() -> VectorCorpusProvenance {
    VectorCorpusProvenance {
        source_corpus_fingerprint: "fixture-source".to_owned(),
        embedding_model_profile_id: "bge-small-en-v1.5".to_owned(),
        embedding_model_fingerprint: "fixture-model".to_owned(),
        embedding_input_format_id: "asymmetric-query-document".to_owned(),
        embedding_input_format_version: "lean-dup.embedding-input-format.v1".to_owned(),
        document_policy_id: "name-and-statement".to_owned(),
        document_policy_version: "lean-dup.embedding-document.v1".to_owned(),
        vector_dimension: 2,
        normalization: "l2".to_owned(),
    }
}

fn reason(e: VectorIndexError) -> String {
    match e {
        VectorIndexError::InvalidRequest { reason } => reason,
        other => panic!("unexpected {:?}", other),
    }
}

#[test]
fn corpus_build_open_reopen_and_query_are_deterministic() {
    // First preparation: nothing stored yet, so the corpus is built.
    let missing: Result<Manifest, VectorIndexError> = Err(VectorIndexError::Io { reason: "absent".to_owned() });
    let previous = current_status(&missing, &provenance());
    assert_eq!(previous, VectorCorpusStatus::Missing);
    let manifest = rebuilt_manifest(provenance(), 3, Some(2));
    let built = build_output(previous, manifest.clone(), 3, 5);
    assert_eq!(built.summary.status, VectorCorpusStatus::Built);
    assert_eq!(built.counters.stored_declarations, 3);
    let opened = open_verdict(Ok(manifest.clone()), &provenance()).expect("open corpus");
    assert_eq!(opened.status, VectorCorpusStatus::Reused);
    assert_eq!(opened.declaration_count, 3);
    let prepared = PreparedVectorCorpus::new(VectorCorpus::new("/tmp/c".to_owned(), opened), &built, 1);
    assert_eq!(prepared.summary().status, VectorCorpusStatus::Reused);
    assert_eq!(prepared.prepare_counters().previous_status, VectorCorpusStatus::Missing);
    assert_eq!(prepared.summary().declaration_count, 3);

    // Second preparation with the same provenance reuses what is stored.
    let again = current_status(&Ok(manifest.clone()), &provenance());
    assert_eq!(again, VectorCorpusStatus::Reused);
    let reused = build_output(again, manifest, 3, 1);
    assert_eq!(reused.summary.status, VectorCorpusStatus::Reused);
    assert_eq!(reused.counters.stored_declarations, 0);
    assert_eq!(reused.counters.input_declarations, 3);
}

#[test]
fn stale_provenance_is_reported_before_reuse() {
    let stored = rebuilt_manifest(provenance(), 3, Some(2));
    let mut stale = provenance();
    stale.embedding_model_fingerprint = "different-model".to_owned();
    assert_eq!(current_status(&Ok(stored.clone()), &stale), VectorCorpusStatus::Stale);
    match open_verdict(Ok(stored), &stale) {
        Err(VectorIndexError::CorpusUnavailable { status, reason }) => {
            assert_eq!(status, VectorCorpusStatus::Stale);
            assert_eq!(reason, "persisted vector corpus provenance does not match request");
        }
        other => panic!("unexpected {:?}", other),
    }
}

#[test]
fn invalid_vectors_and_limits_are_rejected() {
    assert_eq!(reason(validate_query_limit(0).unwrap_err()), "query limit must be nonzero");
    assert!(validate_query_limit(2).is_ok());
    assert_eq!(
        reason(validate_declaration_count(0).unwrap_err()),
        "vector corpus requires at least one declaration"
    );
}

#[test]
fn provenance_and_declaration_fields_must_not_be_blank() {
    assert!(validate_provenance(&provenance()).is_ok());
    let mut zero = provenance();
    zero.vector_dimension = 0;
    assert_eq!(reason(validate_provenance(&zero).unwrap_err()), "vector dimension must be nonzero");
    let mut blank = provenance();
    blank.document_policy_id = "  ".to_owned();
    blank.normalization = String::new();
    assert_eq!(reason(validate_provenance(&blank).unwrap_err()), "document policy id must be nonempty");
    let fields = VectorDeclarationFields {
        declaration_id: "a".to_owned(),
        declaration_name: "Fixture.alpha".to_owned(),
        module_name: "".to_owned(),
        declaration_kind: "theorem".to_owned(),
        content_hash: "hash-a".to_owned(),
    };
    assert_eq!(reason(validate_declaration_fields(&fields).unwrap_err()), "module name must be nonempty");
}

#[test]
fn unreadable_or_foreign_manifests() {
    let bad: Result<Manifest, VectorIndexError> = Err(VectorIndexError::Manifest { reason: "bad json".to_owned() });
    assert_eq!(current_status(&bad, &provenance()), VectorCorpusStatus::Unusable);
    assert!(matches!(open_verdict(bad, &provenance()), Err(VectorIndexError::Manifest { .. })));
    let missing: Result<Manifest, VectorIndexError> = Err(VectorIndexError::Io { reason: "absent".to_owned() });
    match open_verdict(missing, &provenance()) {
        Err(VectorIndexError::CorpusUnavailable { status, reason }) => {
            assert_eq!(status, VectorCorpusStatus::Missing);
            assert_eq!(reason, "persisted vector corpus is missing");
        }
        other => panic!("unexpected {:?}", other),
    }
    let mut old = rebuilt_manifest(provenance(), 1, None);
    assert_eq!(old.schema_version, VECTOR_INDEX_SCHEMA_VERSION);
    assert_eq!(old.vector_dimension, 0);
    old.schema_version = "lean-dup.vector-index.v0".to_owned();
    assert_eq!(current_status(&Ok(old), &provenance()), VectorCorpusStatus::Stale);
}

#[test]
fn vectors_must_have_the_corpus_dimension() {
    assert!(validate_vector_length(384, 384).is_ok());
    assert_eq!(
        reason(validate_vector_length(384, 2).unwrap_err()),
        "vector dimension mismatch: expected 384, got 2"
    );
}
