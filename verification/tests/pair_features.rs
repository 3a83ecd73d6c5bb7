use lean_dup::declaration::HydratedDeclaration;
use lean_dup::pair_features::{pair_features, SearchEvidenceMode, SearchModuleRelation, SearchSemanticEvidenceState};
use lean_dup::retrieval::KeyContribution;
use lean_dup::worker::{Fingerprints, RoleFeature, SourcePoint, SourceSpan};

fn declaration(name: &str, module: &str, kind: &str, origin: &str) -> HydratedDeclaration {
    HydratedDeclaration {
        handle: name.to_owned(),
        declaration_id: origin.to_owned() + ":" + name,
        origin: origin.to_owned(),
        module: module.to_owned(),
        qualified_name: name.to_owned(),
        display_name: name.rsplit('.').next().unwrap_or(name).to_owned(),
        kind: kind.to_owned(),
        visibility: "public".to_owned(),
        modifiers: Vec::new(),
        source_span: None,
        statement_text: String::new(),
        docstring_text: None,
        definition_body_summary: None,
        status_flags: Vec::new(),
        feature_version: "test".to_owned(),
        fingerprints: Fingerprints {
            statement: String::new(),
            safe_binder_permutation: String::new(),
            connective_shape: String::new(),
            conclusion_shape: String::new(),
        },
        role_features: Vec::new(),
        binder_count: 0,
        low_signal_markers: Vec::new(),
    }
}

fn with_role(mut d: HydratedDeclaration, role: &str, key: &str) -> HydratedDeclaration {
    d.role_features.push(RoleFeature {
        role: role.to_owned(),
        key: key.to_owned(),
        display: None,
    });
    d
}

fn source_backed(mut d: HydratedDeclaration) -> HydratedDeclaration {
    d.source_span = Some(SourceSpan {
        file: d.module.clone() + ".lean",
        start: SourcePoint { line: 1, column: 1 },
        end: SourcePoint { line: 2, column: 1 },
    });
    d
}

fn contribution(kind: &str, role: Option<&str>) -> KeyContribution {
    KeyContribution {
        kind: kind.to_owned(),
        role: role.map(str::to_owned),
        display: None,
        key: "k".to_owned(),
        score: 1_000_000,
    }
}

#[test]
fn pair_features_emit_stable_sorted_facts() {
    let left = with_role(declaration("A.left", "A", "theorem", "workspace"), "conclusion_const", "opaque-a");
    let right = with_role(declaration("A.right", "A", "theorem", "workspace"), "conclusion_const", "opaque-a");
    let features = pair_features(
        &left,
        &right,
        &vec![
            contribution("role-feature", Some("conclusion_const")),
            contribution("statement-fingerprint", None),
        ],
    );

    assert_eq!(
        features.retrieval_feature_families,
        vec!["role_conclusion_const".to_owned(), "statement_fingerprint".to_owned()]
    );
    assert_eq!(features.role_overlap[0].family, "role_conclusion_const");
    assert_eq!(features.role_overlap[0].count, 1);
    assert_eq!(features.evidence_mode, SearchEvidenceMode::Local);
    assert!(matches!(
        &features.module_relation,
        SearchModuleRelation::SameModule { module } if module == "A"
    ));
    assert_eq!(features.semantic_evidence_state, SearchSemanticEvidenceState::NotRun);
}

#[test]
fn pair_features_distinguish_source_backed_from_static() {
    let left = source_backed(declaration("A.left", "A", "theorem", "workspace"));
    let backed = source_backed(declaration("B.right", "B", "theorem", "external:fixture"));
    let static_only = declaration("C.right", "C", "theorem", "external:static");

    assert_eq!(pair_features(&left, &backed, &Vec::new()).evidence_mode, SearchEvidenceMode::SourceBacked);
    assert_eq!(pair_features(&left, &static_only, &Vec::new()).evidence_mode, SearchEvidenceMode::Static);
}

#[test]
fn no_contributions_give_the_unknown_family() {
    let left = declaration("A.left", "A", "theorem", "workspace");
    let right = declaration("B.right", "B", "theorem", "workspace");
    let features = pair_features(&left, &right, &Vec::new());
    assert_eq!(features.retrieval_feature_families, vec!["unknown".to_owned()]);
    assert!(matches!(
        &features.module_relation,
        SearchModuleRelation::DifferentModules { left_module, right_module } if left_module == "A" && right_module == "B"
    ));
}

#[test]
fn serialized_features_do_not_contain_raw_keys_or_source_payloads() {
    let mut left = declaration("A.left", "A", "theorem", "workspace");
    left.statement_text = "raw statement text must not serialize".to_owned();
    left.fingerprints.statement = "secret-statement-key".to_owned();
    let left = source_backed(with_role(left, "conclusion_const", "secret-role-key"));
    let mut right = declaration("B.right", "B", "theorem", "external:fixture");
    right.statement_text = "raw statement text must not serialize".to_owned();
    right.fingerprints.statement = "secret-statement-key".to_owned();
    let right = source_backed(with_role(right, "conclusion_const", "secret-role-key"));
    let features = pair_features(
        &left,
        &right,
        &vec![KeyContribution {
            kind: "statement-fingerprint".to_owned(),
            role: None,
            display: Some("secret-display".to_owned()),
            key: "secret-contribution-key".to_owned(),
            score: 1_000_000,
        }],
    );

    let rendered = format!("{:?}", features);
    for forbidden in [
        "secret-statement-key",
        "secret-role-key",
        "secret-display",
        "secret-contribution-key",
        "statement_text",
        "/Users/",
    ] {
        assert!(!rendered.contains(forbidden), "leaked {}: {}", forbidden, rendered);
    }
}
