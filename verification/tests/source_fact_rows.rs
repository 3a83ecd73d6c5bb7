use lean_dup::audit::ReviewProfile;
use lean_dup::declaration::HydratedDeclaration;
use lean_dup::retrieval::{CandidateExplanation, CandidateSet, RetrievedCandidate};
use lean_dup::source_fact_rows::source_fact_declarations;
use lean_dup::worker::Fingerprints;

fn declaration(id: &str, origin: &str, module: &str) -> HydratedDeclaration {
    HydratedDeclaration {
        handle: id.to_owned(),
        declaration_id: id.to_owned(),
        origin: origin.to_owned(),
        module: module.to_owned(),
        qualified_name: id.to_owned(),
        display_name: id.to_owned(),
        kind: "theorem".to_owned(),
        visibility: "public".to_owned(),
        modifiers: vec!["protected".to_owned()],
        source_span: None,
        statement_text: "theorem t : True".to_owned(),
        docstring_text: None,
        definition_body_summary: None,
        status_flags: Vec::new(),
        feature_version: "test".to_owned(),
        fingerprints: Fingerprints {
            statement: String::new(),
            safe_binder_permutation: String::new(),
            connective_shape: String::new(),
            conclusion_shape: String::new(),
        },
        role_features: Vec::new(),
        binder_count: 0,
        low_signal_markers: Vec::new(),
    }
}

fn candidate(d: HydratedDeclaration) -> RetrievedCandidate {
    RetrievedCandidate {
        pair_id: d.declaration_id.clone(),
        declaration: d,
        score: 1,
        explanation: CandidateExplanation { contributions: Vec::new() },
    }
}

fn rows() -> Vec<HydratedDeclaration> {
    vec![declaration("b", "workspace", "Old"), declaration("a", "workspace", "Rows"), declaration("b", "workspace", "Rows")]
}

fn sets() -> Vec<CandidateSet> {
    vec![
        CandidateSet {
            anchor: declaration("b", "workspace", "Anchor"),
            candidates: vec![
                candidate(declaration("m", "mathlib", "Mathlib")),
                candidate(declaration("c", "workspace", "Cand")),
            ],
        },
        CandidateSet {
            anchor: declaration("z", "workspace", "Anchor"),
            candidates: vec![candidate(declaration("b", "workspace", "Later"))],
        },
    ]
}

fn ids_and_modules(ds: &[HydratedDeclaration]) -> Vec<(String, String)> {
    ds.iter().map(|d| (d.declaration_id.clone(), d.module.clone())).collect()
}

#[test]
fn outside_the_mathlib_profile_every_workspace_row_gets_facts() {
    let r = source_fact_declarations(&rows(), &sets(), true, ReviewProfile::Internal, false);
    assert_eq!(ids_and_modules(&r), ids_and_modules(&rows()));
    let r = source_fact_declarations(&rows(), &sets(), true, ReviewProfile::Mathlib, true);
    assert_eq!(r.len(), 3);
    let r = source_fact_declarations(&rows(), &sets(), false, ReviewProfile::Mathlib, false);
    assert_eq!(r.len(), 3);
}

#[test]
fn the_mathlib_profile_gathers_facts_for_what_candidates_touch() {
    let r = source_fact_declarations(&rows(), &sets(), true, ReviewProfile::Mathlib, false);
    assert_eq!(
        ids_and_modules(&r),
        vec![("b".to_owned(), "Later".to_owned()), ("c".to_owned(), "Cand".to_owned())]
    );
    assert_eq!(r[0].modifiers, vec!["protected".to_owned()]);
}
