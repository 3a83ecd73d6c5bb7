use lean_dup::declaration::HydratedDeclaration;
use lean_dup::retrieval::KeyContribution;
use lean_dup::review_policy::{summary, symbolic_observation_visible, visibility_blockers, REVIEW_POLICY_VERSION};
use lean_dup::worker::{Fingerprints, RoleFeature};

fn declaration(name: &str, kind: &str) -> HydratedDeclaration {
    HydratedDeclaration {
        handle: name.to_owned(),
        declaration_id: "workspace:Tiny:".to_owned() + name,
        origin: "workspace".to_owned(),
        module: "Tiny".to_owned(),
        qualified_name: name.to_owned(),
        display_name: name.rsplit('.').next().unwrap_or(name).to_owned(),
        kind: kind.to_owned(),
        visibility: "public".to_owned(),
        modifiers: Vec::new(),
        source_span: None,
        statement_text: String::new(),
        docstring_text: None,
        definition_body_summary: None,
        status_flags: Vec::new(),
        feature_version: "test".to_owned(),
        fingerprints: Fingerprints {
            statement: String::new(),
            safe_binder_permutation: String::new(),
            connective_shape: String::new(),
            conclusion_shape: String::new(),
        },
        role_features: vec![RoleFeature {
            role: "conclusion_const".to_owned(),
            key: "Nat".to_owned(),
            display: Some("Nat".to_owned()),
        }],
        binder_count: 0,
        low_signal_markers: Vec::new(),
    }
}

fn contribution(kind: &str) -> KeyContribution {
    KeyContribution {
        kind: kind.to_owned(),
        role: None,
        display: None,
        key: "test".to_owned(),
        score: 100_000_000,
    }
}

#[test]
fn default_symbolic_visibility_keeps_public_theorem_statement_pairs() {
    let left = declaration("Tiny.left", "theorem");
    let right = declaration("Tiny.right", "theorem");
    let contributions = vec![contribution("statement-fingerprint")];

    assert!(symbolic_observation_visible(&left, &right, &contributions));
}

#[test]
fn default_symbolic_visibility_hides_diagnostic_static_pairs() {
    let mut low_signal = declaration("Tiny.low", "theorem");
    low_signal.low_signal_markers.push("broad_head:Eq".to_owned());
    let mut private = declaration("Tiny.private", "theorem");
    private.visibility = "private".to_owned();
    let definition = declaration("Tiny.defn", "def");
    let public_theorem = declaration("Tiny.public", "theorem");
    let statement = vec![contribution("statement-fingerprint")];

    assert!(!symbolic_observation_visible(&low_signal, &public_theorem, &statement));
    assert!(!symbolic_observation_visible(&private, &public_theorem, &statement));
    assert!(!symbolic_observation_visible(&definition, &public_theorem, &statement));

    let blockers = visibility_blockers(&definition, &public_theorem, &statement);
    assert!(blockers.contains(&"non-theorem-static-only".to_owned()));
}

#[test]
fn blockers_come_out_sorted_and_once() {
    let mut generated = declaration("Tiny.gen", "def");
    generated.status_flags.push("generated".to_owned());
    generated.visibility = "private".to_owned();
    let other = declaration("Tiny.other", "def");
    let blockers = visibility_blockers(&generated, &other, &vec![contribution("statement-fingerprint")]);
    let mut sorted = blockers.clone();
    sorted.sort();
    sorted.dedup();
    assert_eq!(blockers, sorted);
    assert!(!blockers.is_empty());
}

#[test]
fn policy_summary_names_the_version() {
    assert_eq!(summary().version, REVIEW_POLICY_VERSION);
}
