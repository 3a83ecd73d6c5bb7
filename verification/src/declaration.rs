//! Indexed declarations as search sees them, and the comparison-evidence
//! policy that says how much each index origin can be trusted.
use vstd::prelude::*;

use crate::text::str_eq;
use crate::sets::clone_strings;
use crate::worker::{clone_opt_string, clone_span, Fingerprints, RoleFeature, SourceSpan};

verus! {

/// One declaration hydrated from an index: its worker row joined with its
/// feature row. `handle` is the index-local handle.
#[derive(Debug, Clone)]
pub struct HydratedDeclaration {
    pub handle: String,
    pub declaration_id: String,
    pub origin: String,
    pub module: String,
    pub qualified_name: String,
    pub display_name: String,
    pub kind: String,
    pub visibility: String,
    pub modifiers: Vec<String>,
    pub source_span: Option<SourceSpan>,
    pub statement_text: String,
    pub docstring_text: Option<String>,
    pub definition_body_summary: Option<String>,
    pub status_flags: Vec<String>,
    pub feature_version: String,
    pub fingerprints: Fingerprints,
    pub role_features: Vec<RoleFeature>,
    pub binder_count: u64,
    pub low_signal_markers: Vec<String>,
}

/// How comparison evidence from one index origin may be used.
#[derive(Debug, Clone, Copy, PartialEq, Eq, Structural)]
pub enum ComparisonEvidenceMode {
    /// Static fingerprint matches are actionable on their own.
    Static,
    /// The index is source-backed but its declarations cannot be imported.
    SourceBackedNotImportable,
    /// Findings need Lean-verified (proof-grade) semantic evidence.
    ProofGrade,
}

/// One origin's evidence mode.
#[derive(Debug, Clone)]
pub struct OriginEvidenceMode {
    pub origin: String,
    pub mode: ComparisonEvidenceMode,
}

/// Evidence modes by index origin; origins not listed are static.
#[derive(Debug, Clone)]
pub struct ComparisonEvidencePolicy {
    pub origins: Vec<OriginEvidenceMode>,
}

/// The mode of the first entry naming `origin`, static when none does.
pub open spec fn policy_mode(entries: Seq<OriginEvidenceMode>, origin: Seq<char>) -> ComparisonEvidenceMode
    decreases entries.len(),
{
    if entries.len() == 0 {
        ComparisonEvidenceMode::Static
    } else if entries[0].origin@ == origin {
        entries[0].mode
    } else {
        policy_mode(entries.drop_first(), origin)
    }
}

impl ComparisonEvidencePolicy {
    /// The policy with every origin static.
    pub fn new() -> (r: ComparisonEvidencePolicy)
        ensures
            r.origins@.len() == 0,
    {
        ComparisonEvidencePolicy { origins: Vec::new() }
    }

    /// The policy giving `origin` the mode `mode` and every other origin the
    /// static mode.
    pub fn for_origin(origin: &str, mode: ComparisonEvidenceMode) -> (r: ComparisonEvidencePolicy)
        ensures
            forall|o: Seq<char>|
                policy_mode(r.origins@, o) == if o == origin@ {
                    mode
                } else {
                    ComparisonEvidenceMode::Static
                },
    {
        let mut origins = Vec::new();
        origins.push(OriginEvidenceMode { origin: origin.to_owned(), mode });
        let r = ComparisonEvidencePolicy { origins };
        assert forall|o: Seq<char>|
            policy_mode(r.origins@, o) == if o == origin@ {
                mode
            } else {
                ComparisonEvidenceMode::Static
            } by {
            reveal_with_fuel(policy_mode, 2);
            assert(r.origins@.drop_first().len() == 0);
        }
        r
    }

    /// The evidence mode for declarations of `origin`.
    pub fn evidence_mode(&self, origin: &str) -> (r: ComparisonEvidenceMode)
        ensures
            r == policy_mode(self.origins@, origin@),
    {
        let mut i: usize = 0;
        assert(self.origins@.skip(0) =~= self.origins@);
        while i < self.origins.len()
            invariant
                i <= self.origins@.len(),
                policy_mode(self.origins@, origin@) == policy_mode(
                    self.origins@.skip(i as int),
                    origin@,
                ),
            decreases self.origins@.len() - i,
        {
            assert(self.origins@.skip(i as int).drop_first() =~= self.origins@.skip(i + 1));
            if str_eq(self.origins[i].origin.as_str(), origin) {
                return self.origins[i].mode;
            }
            i = i + 1;
        }
        ComparisonEvidenceMode::Static
    }

    /// Whether findings against `origin` need proof-grade semantic evidence.
    pub fn requires_semantic_evidence(&self, origin: &str) -> (r: bool)
        ensures
            r == (policy_mode(self.origins@, origin@) == ComparisonEvidenceMode::ProofGrade),
    {
        self.evidence_mode(origin) == ComparisonEvidenceMode::ProofGrade
    }
}


/// `a` holds the same declaration as `b`: every field equal, the lists
/// element by element.
pub open spec fn same_declaration(a: HydratedDeclaration, b: HydratedDeclaration) -> bool {
    &&& a.handle == b.handle
    &&& a.declaration_id == b.declaration_id
    &&& a.origin == b.origin
    &&& a.module == b.module
    &&& a.qualified_name == b.qualified_name
    &&& a.display_name == b.display_name
    &&& a.kind == b.kind
    &&& a.visibility == b.visibility
    &&& a.modifiers@ == b.modifiers@
    &&& a.source_span == b.source_span
    &&& a.statement_text == b.statement_text
    &&& a.docstring_text == b.docstring_text
    &&& a.definition_body_summary == b.definition_body_summary
    &&& a.status_flags@ == b.status_flags@
    &&& a.feature_version == b.feature_version
    &&& a.fingerprints == b.fingerprints
    &&& a.role_features@ == b.role_features@
    &&& a.binder_count == b.binder_count
    &&& a.low_signal_markers@ == b.low_signal_markers@
}

fn copy_role(f: &RoleFeature) -> (r: RoleFeature)
    ensures
        r == *f,
{
    RoleFeature { role: f.role.clone(), key: f.key.clone(), display: clone_opt_string(&f.display) }
}

fn copy_roles(v: &Vec<RoleFeature>) -> (r: Vec<RoleFeature>)
    ensures
        r@ == v@,
{
    let mut r: Vec<RoleFeature> = Vec::new();
    let mut i: usize = 0;
    while i < v.len()
        invariant
            i <= v@.len(),
            r@ == v@.take(i as int),
        decreases v@.len() - i,
    {
        r.push(copy_role(&v[i]));
        assert(v@.take(i + 1) =~= v@.take(i as int).push(v@[i as int]));
        i = i + 1;
    }
    assert(v@.take(i as int) =~= v@);
    r
}

impl HydratedDeclaration {
    /// A copy of the declaration.
    pub fn copy(&self) -> (r: HydratedDeclaration)
        ensures
            same_declaration(r, *self),
    {
        HydratedDeclaration {
            handle: self.handle.clone(),
            declaration_id: self.declaration_id.clone(),
            origin: self.origin.clone(),
            module: self.module.clone(),
            qualified_name: self.qualified_name.clone(),
            display_name: self.display_name.clone(),
            kind: self.kind.clone(),
            visibility: self.visibility.clone(),
            modifiers: clone_strings(&self.modifiers),
            source_span: clone_span(&self.source_span),
            statement_text: self.statement_text.clone(),
            docstring_text: clone_opt_string(&self.docstring_text),
            definition_body_summary: clone_opt_string(&self.definition_body_summary),
            status_flags: clone_strings(&self.status_flags),
            feature_version: self.feature_version.clone(),
            fingerprints: Fingerprints {
                statement: self.fingerprints.statement.clone(),
                safe_binder_permutation: self.fingerprints.safe_binder_permutation.clone(),
                connective_shape: self.fingerprints.connective_shape.clone(),
                conclusion_shape: self.fingerprints.conclusion_shape.clone(),
            },
            role_features: copy_roles(&self.role_features),
            binder_count: self.binder_count,
            low_signal_markers: clone_strings(&self.low_signal_markers),
        }
    }
}

} // verus!
