use lean_dup::declaration::HydratedDeclaration;
use lean_dup::source_refs::{collect_source_facts, source_files, ImportStatus, LoadedSource, SourceFactInput};
use lean_dup::worker::{Fingerprints, SourcePoint, SourceSpan};

fn declaration(id: &str, name: &str, path: &str, start: u64, end: u64) -> HydratedDeclaration {
    HydratedDeclaration {
        handle: "h".to_owned(),
        declaration_id: id.to_owned(),
        origin: "workspace".to_owned(),
        module: "Tiny".to_owned(),
        qualified_name: name.to_owned(),
        display_name: name.rsplit('.').next().unwrap().to_owned(),
        kind: "theorem".to_owned(),
        visibility: "public".to_owned(),
        modifiers: Vec::new(),
        source_span: Some(SourceSpan {
            file: path.to_owned(),
            start: SourcePoint { line: start, column: 1 },
            end: SourcePoint { line: end, column: 20 },
        }),
        statement_text: "theorem target : True".to_owned(),
        docstring_text: None,
        definition_body_summary: None,
        status_flags: Vec::new(),
        feature_version: "features.roles.v1".to_owned(),
        fingerprints: Fingerprints {
            statement: "statement".to_owned(),
            safe_binder_permutation: "permutation".to_owned(),
            connective_shape: "connective".to_owned(),
            conclusion_shape: "conclusion".to_owned(),
        },
        role_features: Vec::new(),
        binder_count: 0,
        low_signal_markers: Vec::new(),
    }
}

fn sources_for(input: &SourceFactInput, text: &str) -> Vec<LoadedSource> {
    source_files(&input.declarations)
        .into_iter()
        .map(|path| LoadedSource {
            path,
            text: Ok(text.to_owned()),
        })
        .collect()
}

#[test]
fn token_scan_ignores_substrings_and_comments() {
    let text = "
import Target.Module
namespace Tiny
theorem target : True := by trivial
theorem target_suffix : True := by trivial
-- target
/- target -/
theorem caller : True := target
end Tiny
";
    let declaration = declaration("workspace:Tiny:Tiny.target", "Tiny.target", "/ws/Tiny.lean", 4, 4);
    let input = SourceFactInput::new(vec![declaration.clone()]);
    let facts = collect_source_facts(&input, &sources_for(&input, text));
    let fact = facts.declaration(&declaration.declaration_id).unwrap();

    assert_eq!(fact.references.len(), 1);
    assert_eq!(fact.references[0].line, 8);
    assert_eq!(
        facts.import_status_for(&declaration.declaration_id, "Target.Module"),
        ImportStatus::Direct
    );
}

#[test]
fn reference_scope_skips_callers_without_losing_imports_or_fingerprints() {
    let text = "
import Target.Module
namespace Tiny
theorem target : True := by trivial
theorem caller : True := target
end Tiny
";
    let declaration = declaration("workspace:Tiny:Tiny.target", "Tiny.target", "/ws/Tiny.lean", 4, 4);
    let input = SourceFactInput::new(vec![declaration.clone()]).without_references();
    let facts = collect_source_facts(&input, &sources_for(&input, text));
    let fact = facts.declaration(&declaration.declaration_id).unwrap();

    assert!(fact.source_fingerprint.is_some());
    assert!(fact.references.is_empty());
    assert_eq!(
        facts.import_status_for(&declaration.declaration_id, "Target.Module"),
        ImportStatus::Direct
    );
}

#[test]
fn unreadable_source_is_a_diagnostic_not_an_error() {
    let declaration = declaration("workspace:Tiny:Tiny.target", "Tiny.target", "/ws/Tiny.lean", 4, 4);
    let input = SourceFactInput::new(vec![declaration.clone()]);
    let sources = vec![LoadedSource {
        path: "/ws/Tiny.lean".to_owned(),
        text: Err("could not read /ws/Tiny.lean".to_owned()),
    }];
    let facts = collect_source_facts(&input, &sources);
    assert_eq!(facts.diagnostics, vec!["could not read /ws/Tiny.lean".to_owned()]);
    assert_eq!(
        facts.import_status_for(&declaration.declaration_id, "Target.Module"),
        ImportStatus::Unknown
    );
    assert_eq!(facts.caller_count(&declaration.declaration_id), 0);
}

#[test]
fn missing_import_is_reported_as_missing() {
    let text = "import Other.Module\ntheorem target : True := trivial\n";
    let declaration = declaration("workspace:Tiny:Tiny.target", "Tiny.target", "/ws/Tiny.lean", 2, 2);
    let input = SourceFactInput::new(vec![declaration.clone()]);
    let facts = collect_source_facts(&input, &sources_for(&input, text));
    assert_eq!(
        facts.import_status_for(&declaration.declaration_id, "Target.Module"),
        ImportStatus::Missing
    );
}
