use lean_dup::declaration::HydratedDeclaration;
use lean_dup::ranking::{
    ConfidenceTier, RankedGroup, RankedReview, RankingDiagnostics, ReviewAction, ReviewEvidenceMode, ReviewFilter,
    ReviewMember, ReviewPriority, ReviewRelation,
};
use lean_dup::replacement_hints::{attach_replacement_hints, reference_declarations_for_hints, ReplacementHintProfile};
use lean_dup::source_refs::{collect_source_facts, source_files, ImportStatus, LoadedSource, SourceFactInput, SourceFacts};
use lean_dup::worker::{Fingerprints, SourcePoint, SourceSpan};

fn declaration_with_span(id: &str, name: &str, visibility: &str, path: &str, start: u64, end: u64) -> HydratedDeclaration {
    HydratedDeclaration {
        handle: id.to_owned(),
        declaration_id: id.to_owned(),
        origin: "workspace".to_owned(),
        module: "Tiny".to_owned(),
        qualified_name: name.to_owned(),
        display_name: name.rsplit('.').next().unwrap().to_owned(),
        kind: "theorem".to_owned(),
        visibility: visibility.to_owned(),
        modifiers: Vec::new(),
        source_span: Some(SourceSpan {
            file: path.to_owned(),
            start: SourcePoint { line: start, column: 1 },
            end: SourcePoint { line: end, column: 35 },
        }),
        statement_text: "theorem local : True".to_owned(),
        docstring_text: None,
        definition_body_summary: None,
        status_flags: Vec::new(),
        feature_version: "features.roles.v1".to_owned(),
        fingerprints: Fingerprints {
            statement: "statement".to_owned(),
            safe_binder_permutation: "permutation".to_owned(),
            connective_shape: "connective".to_owned(),
            conclusion_shape: "conclusion".to_owned(),
        },
        role_features: Vec::new(),
        binder_count: 0,
        low_signal_markers: Vec::new(),
    }
}

fn member(d: &HydratedDeclaration) -> ReviewMember {
    ReviewMember {
        declaration_id: d.declaration_id.clone(),
        origin: d.origin.clone(),
        module: d.module.clone(),
        qualified_name: d.qualified_name.clone(),
        display_name: d.display_name.clone(),
        kind: d.kind.clone(),
        visibility: d.visibility.clone(),
        source_span: d.source_span.clone(),
        status_flags: Vec::new(),
    }
}

fn facts_for(declarations: Vec<HydratedDeclaration>, text: &str) -> SourceFacts {
    let input = SourceFactInput::new(declarations);
    let sources = source_files(&input.declarations)
        .into_iter()
        .map(|path| LoadedSource {
            path,
            text: Ok(text.to_owned()),
        })
        .collect::<Vec<_>>();
    collect_source_facts(&input, &sources)
}

fn group(members: Vec<ReviewMember>, action: ReviewAction, target: (&str, &str)) -> RankedGroup {
    RankedGroup {
        id: "review-1".to_owned(),
        pair_id: "p1".to_owned(),
        relation: ReviewRelation::ExactStatement,
        members,
        evidence: Vec::new(),
        signals: vec!["statement-fingerprint".to_owned()],
        blockers: Vec::new(),
        confidence: ConfidenceTier::High,
        review_priority: ReviewPriority::High,
        recommended_action: action,
        target_decl: Some(target.0.to_owned()),
        target_module: Some(target.1.to_owned()),
        evidence_mode: ReviewEvidenceMode::Static,
        probe_summary: None,
        semantic_obligations: Vec::new(),
        local_caller_count: 1,
        replacement_hint: None,
    }
}

fn no_diagnostics() -> RankingDiagnostics {
    RankingDiagnostics {
        candidate_pairs: 0,
        emitted_groups: 0,
        suppressed_groups: 0,
    }
}

#[test]
fn hints_show_import_and_caller_impact_without_deletion_guidance() {
    let text = "
namespace Tiny
theorem local : True := by trivial
theorem caller : True := local
end Tiny
";
    let declaration = declaration_with_span("workspace:Tiny:Tiny.local", "Tiny.local", "public", "/ws/Tiny.lean", 4, 4);
    let facts = facts_for(vec![declaration.clone()], text);
    let review = RankedReview {
        groups: vec![group(
            vec![member(&declaration)],
            ReviewAction::LocalAlias,
            ("Mathlib.local", "Mathlib"),
        )],
        suppressed: Vec::new(),
        diagnostics: no_diagnostics(),
    };

    let review = attach_replacement_hints(review, &facts, ReplacementHintProfile::default_profile());
    let hint = review.groups[0].replacement_hint.as_ref().unwrap();

    assert_eq!(hint.import_status, ImportStatus::Missing);
    assert_eq!(hint.caller_count, 1);
    assert_eq!(hint.displayed_callers.len(), 1);
    assert!(hint.notes.iter().all(|note| !note.contains("delete")));
}

#[test]
fn private_helper_used_only_by_public_wrapper_gets_inline_action() {
    let text = "
namespace Tiny
private theorem helper : True := by trivial
theorem public : True := helper
end Tiny
";
    let private = declaration_with_span(
        "workspace:Tiny:_private.Tiny.0.Tiny.helper",
        "_private.Tiny.0.Tiny.helper",
        "private",
        "/ws/Tiny.lean",
        3,
        3,
    );
    let public = declaration_with_span("workspace:Tiny:Tiny.public", "Tiny.public", "public", "/ws/Tiny.lean", 4, 4);
    let facts = facts_for(vec![private.clone(), public.clone()], text);
    let mut g = group(
        vec![member(&public), member(&private)],
        ReviewAction::ReplaceLocalUses,
        ("Tiny.public", "Tiny"),
    );
    g.signals = vec![
        "statement-fingerprint".to_owned(),
        "probe:verified:exact-theorem".to_owned(),
    ];
    g.blockers = vec!["non-public-declaration".to_owned()];
    g.evidence_mode = ReviewEvidenceMode::ProofGrade;
    g.probe_summary = Some("Lean verified semantic evidence".to_owned());
    let review = RankedReview {
        groups: vec![g],
        suppressed: Vec::new(),
        diagnostics: no_diagnostics(),
    };

    let review = attach_replacement_hints(review, &facts, ReplacementHintProfile::default_profile());
    let group = &review.groups[0];
    assert_eq!(group.recommended_action, ReviewAction::InlinePrivateHelper);
    let hint = group.replacement_hint.as_ref().unwrap();
    assert_eq!(hint.caller_count, 1);
    assert!(hint
        .notes
        .iter()
        .any(|note| note.contains("inline the helper body into the wrapper")));
}

#[test]
fn hint_references_cover_local_members_of_visible_groups() {
    let declaration = declaration_with_span("workspace:Tiny:Tiny.local", "Tiny.local", "public", "/ws/Tiny.lean", 4, 4);
    let review = RankedReview {
        groups: vec![group(
            vec![member(&declaration)],
            ReviewAction::LocalAlias,
            ("Mathlib.local", "Mathlib"),
        )],
        suppressed: Vec::new(),
        diagnostics: no_diagnostics(),
    };
    let ids = reference_declarations_for_hints(
        &review,
        ReviewFilter {
            include_generated: true,
            include_private: true,
            include_diagnostics: true,
            min_priority: ReviewPriority::Noise,
        },
    );
    assert_eq!(ids, vec!["workspace:Tiny:Tiny.local".to_owned()]);
}
