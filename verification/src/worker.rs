//! Lean worker capability data: typed rows, batches, version facts and
//! errors exchanged with the worker, and the capability policy checks made
//! on them.
use vstd::prelude::*;

use crate::sets::{contains_str, views};
use crate::text::{concat, join, owned, str_eq};

verus! {

/// Cost classes used by performance counters.
#[derive(Debug, Clone, Copy)]
pub enum CostClass {
    LeanSemantic,
}

/// Records a performance count; counting is disabled in this build.
pub fn record_count(class: CostClass, name: &str, count: u64) {
}

/// 1-based source position reported by Lean.
#[derive(Debug, Clone, Copy, PartialEq, Eq, Structural)]
pub struct SourcePoint {
    pub line: u64,
    pub column: u64,
}

/// 1-based source span reported by Lean.
#[derive(Debug)]
pub struct SourceSpan {
    pub file: String,
    pub start: SourcePoint,
    pub end: SourcePoint,
}

impl Clone for SourceSpan {
    fn clone(&self) -> (r: Self)
        ensures
            r == *self,
    {
        SourceSpan { file: self.file.clone(), start: self.start, end: self.end }
    }
}

/// A clone of an optional span.
pub fn clone_span(s: &Option<SourceSpan>) -> (r: Option<SourceSpan>)
    ensures
        r == *s,
{
    match s {
        Some(span) => Some(span.clone()),
        None => None,
    }
}

/// A clone of an optional string.
pub fn clone_opt_string(s: &Option<String>) -> (r: Option<String>)
    ensures
        r == *s,
{
    match s {
        Some(x) => Some(x.clone()),
        None => None,
    }
}

/// Opaque semantic fingerprints for one declaration statement.
#[derive(Debug, Clone)]
pub struct Fingerprints {
    pub statement: String,
    pub safe_binder_permutation: String,
    pub connective_shape: String,
    pub conclusion_shape: String,
}

/// One role-aware semantic feature key.
#[derive(Debug, Clone)]
pub struct RoleFeature {
    pub role: String,
    pub key: String,
    pub display: Option<String>,
}

/// One Lean declaration accepted by extraction filters.
#[derive(Debug, Clone)]
pub struct DeclarationRow {
    pub declaration_id: String,
    pub origin: String,
    pub module: String,
    pub qualified_name: String,
    pub display_name: String,
    pub kind: String,
    pub visibility: String,
    pub modifiers: Vec<String>,
    pub source_span: Option<SourceSpan>,
    pub statement_text: String,
    pub docstring_text: Option<String>,
    pub definition_body_summary: Option<String>,
    pub status_flags: Vec<String>,
}

/// One Lean-owned feature row for retrieval and ranking.
#[derive(Debug, Clone)]
pub struct FeatureRow {
    pub declaration_id: String,
    pub feature_version: String,
    pub fingerprints: Fingerprints,
    pub role_features: Vec<RoleFeature>,
    pub binder_count: u64,
    pub low_signal_markers: Vec<String>,
}

/// Result of one bounded semantic probe pair.
#[derive(Debug, Clone)]
pub struct ProbeResult {
    pub pair_id: String,
    pub left_declaration_id: String,
    pub right_declaration_id: String,
    pub status: String,
    pub same_statement: bool,
    pub same_up_to_safe_reordering: bool,
    pub connective_equivalent: bool,
    pub specializes_left_to_right: bool,
    pub specializes_right_to_left: bool,
    pub mutual_implication_shape: bool,
    pub same_reducible_definition: bool,
    pub message: Option<String>,
}

/// Progress event emitted by the worker during a committed call.
#[derive(Debug, Clone)]
pub struct WorkerEvent {
    pub phase: String,
    pub current: Option<u64>,
    pub total: Option<u64>,
    pub module: Option<String>,
    pub declaration: Option<String>,
    pub elapsed_ms: Option<u64>,
    pub message: String,
}

/// Structured diagnostic emitted by the worker; `details` holds the
/// diagnostic's JSON payload as text.
#[derive(Debug, Clone)]
pub struct WorkerDiagnostic {
    pub code: String,
    pub message: String,
    pub fatal: bool,
    pub details: Option<String>,
}

/// One module requested from a worker capability.
#[derive(Debug, Clone)]
pub struct ModuleDescriptor {
    pub module: String,
    pub origin: String,
    pub source_root: Option<String>,
}

/// Input for declaration extraction.
#[derive(Debug, Clone)]
pub struct ExtractBatch {
    pub workspace_root: String,
    pub modules: Vec<ModuleDescriptor>,
    pub include_private: bool,
    pub include_generated: bool,
}

/// Input for semantic feature extraction.
#[derive(Debug, Clone)]
pub struct FeaturesBatch {
    pub workspace_root: String,
    pub modules: Vec<ModuleDescriptor>,
    pub declaration_ids: Option<Vec<String>>,
    pub include_private: bool,
    pub include_generated: bool,
}

/// Input for semantic pair probes.
#[derive(Debug, Clone)]
pub struct ProbeBatch {
    pub workspace_root: String,
    pub modules: Vec<ModuleDescriptor>,
    pub include_private: bool,
    pub include_generated: bool,
    pub pairs: Vec<ProbePair>,
    pub max_pairs: Option<u64>,
}

/// One candidate pair to check with Lean-owned semantic probes.
#[derive(Debug, Clone)]
pub struct ProbePair {
    pub pair_id: String,
    pub left_declaration_id: String,
    pub right_declaration_id: String,
}

/// Input for import-once declaration and feature indexing.
#[derive(Debug, Clone)]
pub struct IndexBatch {
    pub workspace_root: String,
    pub modules: Vec<ModuleDescriptor>,
    pub include_private: bool,
    pub include_generated: bool,
    pub declaration_chunk_size: usize,
    pub declaration_parallelism: usize,
}

/// One streamed item of an import-once index command.
#[derive(Debug, Clone)]
pub enum IndexStreamItem {
    Declaration(DeclarationRow),
    Feature(FeatureRow),
    Event(WorkerEvent),
    Diagnostic(WorkerDiagnostic),
}

/// Worker result rows plus events and diagnostics from a committed call.
#[derive(Debug, Clone)]
pub struct WorkerCall<T> {
    pub rows: Vec<T>,
    pub events: Vec<WorkerEvent>,
    pub diagnostics: Vec<WorkerDiagnostic>,
}

/// Version and compatibility facts reported by the Lean worker.
#[derive(Debug, Clone)]
pub struct WorkerVersion {
    pub protocol_version: String,
    pub worker_version: String,
    pub lean_version: Option<String>,
    pub extract_version: String,
    pub features_version: String,
    pub probe_version: String,
    pub supported_commands: Vec<String>,
    pub supported_capabilities: Vec<String>,
}

/// Worker substrate facts that affect cached results.
#[derive(Debug, Clone)]
pub struct WorkerSubstrateFacts {
    pub protocol_version: u16,
    pub worker_version: String,
}

/// Worker identity: semantic version facts plus substrate facts.
#[derive(Debug, Clone)]
pub struct WorkerIdentity {
    pub semantic: WorkerVersion,
    pub substrate: WorkerSubstrateFacts,
}

/// Failures of a worker call.
#[derive(Debug, Clone)]
pub enum WorkerError {
    Protocol { message: String },
    WorkerDiagnostic { diagnostics: Vec<WorkerDiagnostic> },
    Timeout { timeout_ms: u64 },
    Cancelled,
    NonZeroExit { status: i32, stderr: String },
    EofBeforeComplete { diagnostics: Vec<WorkerDiagnostic> },
    InvalidJsonLine { line: usize, message: String },
    Io { message: String, detail: String },
    BuildFailed { status: i32, diagnostic: String },
}

/// The required capabilities that `supported` lacks, in the order required.
pub open spec fn missing_capabilities(required: Seq<Seq<char>>, supported: Seq<Seq<char>>) -> Seq<
    Seq<char>,
> {
    required.filter(|c: Seq<char>| !supported.contains(c))
}

impl WorkerVersion {
    /// Checks that the worker advertises every required capability; the
    /// error lists the missing ones, in the order required.
    pub fn require_capabilities(&self, required: &Vec<String>) -> (r: Result<(), WorkerError>)
        ensures
            r is Ok <==> missing_capabilities(views(required@), views(self.supported_capabilities@))
                .len() == 0,
            r matches Err(e) ==> (e matches WorkerError::Protocol { message } && message@
                == "worker is missing required capabilities: "@ + join(
                missing_capabilities(views(required@), views(self.supported_capabilities@)),
                ", "@,
            )),
    {
        let ghost sup = views(self.supported_capabilities@);
        let ghost req = views(required@);
        let mut missing: Vec<String> = Vec::new();
        let mut i: usize = 0;
        while i < required.len()
            invariant
                i <= required@.len(),
                sup == views(self.supported_capabilities@),
                req == views(required@),
                views(missing@) == missing_capabilities(req.take(i as int), sup),
            decreases required@.len() - i,
        {
            proof {
                assert(req.take(i + 1) =~= req.take(i as int).push(req[i as int]));
                req.take(i as int).lemma_filter_push(req[i as int], |c: Seq<char>| !sup.contains(c));
            }
            if !contains_str(&self.supported_capabilities, required[i].as_str()) {
                missing.push(required[i].clone());
                assert(views(missing@) =~= missing_capabilities(req.take(i as int), sup).push(
                    req[i as int],
                ));
            }
            i = i + 1;
        }
        assert(req.take(required@.len() as int) =~= req);
        if missing.len() == 0 {
            Ok(())
        } else {
            let list = crate::text::join_strings(&missing, ", ");
            assert(missing@.map_values(|p: String| p@) =~= views(missing@));
            Err(WorkerError::Protocol { message: concat("worker is missing required capabilities: ", list.as_str()) })
        }
    }
}

/// Whether every descriptor shares the first one's origin and source root,
/// so the request can state them once for all modules.
pub open spec fn uniform_modules(modules: Seq<ModuleDescriptor>) -> bool {
    modules.len() > 0 && forall|i: int|
        #![trigger modules[i]]
        0 <= i < modules.len() ==> modules[i].origin@ == modules[0].origin@
            && opt_string_view(modules[i].source_root) == opt_string_view(modules[0].source_root)
}

pub open spec fn opt_string_view(o: Option<String>) -> Option<Seq<char>> {
    crate::text::opt_view(o)
}

/// Decides whether a module request can hoist the shared origin and source
/// root (uniform, nonempty descriptors) or must list each descriptor whole.
pub fn modules_are_uniform(modules: &Vec<ModuleDescriptor>) -> (r: bool)
    ensures
        r == uniform_modules(modules@),
{
    if modules.len() == 0 {
        return false;
    }
    let first = &modules[0];
    let mut i: usize = 0;
    while i < modules.len()
        invariant
            i <= modules@.len(),
            modules@.len() > 0,
            *first == modules@[0],
            forall|k: int|
                #![trigger modules@[k]]
                0 <= k < i ==> modules@[k].origin@ == modules@[0].origin@
                    && opt_string_view(modules@[k].source_root) == opt_string_view(
                    modules@[0].source_root,
                ),
        decreases modules@.len() - i,
    {
        let m = &modules[i];
        if !str_eq(m.origin.as_str(), first.origin.as_str()) {
            return false;
        }
        let same_root = match (&m.source_root, &first.source_root) {
            (Some(a), Some(b)) => str_eq(a.as_str(), b.as_str()),
            (None, None) => true,
            _ => false,
        };
        if !same_root {
            return false;
        }
        assert(opt_string_view(modules@[i as int].source_root) == opt_string_view(
            modules@[0].source_root,
        ));
        assert(modules@[i as int].origin@ == modules@[0].origin@);
        i = i + 1;
    }
    true
}

/// One diagnostic as `code[ fatal]: message`.
pub open spec fn diagnostic_line(d: WorkerDiagnostic) -> Seq<char> {
    d.code@ + (if d.fatal {
        " fatal"@
    } else {
        ""@
    }) + ": "@ + d.message@
}

/// The diagnostics of an error message, joined by `; `, or a fixed note when
/// there are none.
pub open spec fn diagnostics_text(ds: Seq<WorkerDiagnostic>) -> Seq<char> {
    if ds.len() == 0 {
        "no structured diagnostic payload"@
    } else {
        join(ds.map_values(|d: WorkerDiagnostic| diagnostic_line(d)), "; "@)
    }
}

/// Renders worker diagnostics for error messages.
pub fn format_worker_diagnostics(diagnostics: &Vec<WorkerDiagnostic>) -> (r: String)
    ensures
        r@ == diagnostics_text(diagnostics@),
{
    if diagnostics.len() == 0 {
        return owned("no structured diagnostic payload");
    }
    let mut lines: Vec<String> = Vec::new();
    let mut i: usize = 0;
    while i < diagnostics.len()
        invariant
            i <= diagnostics@.len(),
            lines@.map_values(|p: String| p@) == diagnostics@.take(i as int).map_values(
                |d: WorkerDiagnostic| diagnostic_line(d),
            ),
        decreases diagnostics@.len() - i,
    {
        let d = &diagnostics[i];
        let fatal = if d.fatal {
            " fatal"
        } else {
            ""
        };
        let mut line = concat(d.code.as_str(), fatal);
        line.append(": ");
        line.append(d.message.as_str());
        assert(line@ == diagnostic_line(diagnostics@[i as int]));
        let ghost before = lines@;
        lines.push(line);
        assert(diagnostics@.take(i + 1) =~= diagnostics@.take(i as int).push(diagnostics@[i as int]));
        assert(lines@ =~= before.push(line));
        assert(lines@.map_values(|p: String| p@) =~= before.map_values(|p: String| p@).push(line@));
        assert(diagnostics@.take(i + 1).map_values(|d: WorkerDiagnostic| diagnostic_line(d))
            =~= diagnostics@.take(i as int).map_values(|d: WorkerDiagnostic| diagnostic_line(d)).push(
            diagnostic_line(diagnostics@[i as int]),
        ));
        assert(lines@.map_values(|p: String| p@) =~= diagnostics@.take(i + 1).map_values(
            |d: WorkerDiagnostic| diagnostic_line(d),
        ));
        i = i + 1;
    }
    assert(diagnostics@.take(diagnostics@.len() as int) =~= diagnostics@);
    crate::text::join_strings(&lines, "; ")
}

} // verus!
