//! Decisions of the vector-validation workload: which suite runs, when a run
//! stops for its budget, the facts recorded about candidate generation, and
//! the status a run and a gate of runs report.
use vstd::prelude::*;

use crate::text::{concat, lex_le, owned, push_decimal, decimal, starts_with, str_eq, str_lt, has_prefix};
use crate::vector::{
    InvalidVectorRequest, VectorAcquisitionPolicy, VectorValidationRequest, VectorValidationStatus,
};
use crate::vector_documents::{
    ContentAvailability, DOCUMENT_POLICY_VERSION, DocumentPolicy, SemanticDocuments, document_policy_id,
    no_content, text_digest,
};
use crate::vector_eligibility::EligibilitySummary;
use crate::vector_index::VectorCorpusStatus;

verus! {

/// Version tag of the workload's candidate policy.
pub const VECTOR_CANDIDATE_POLICY_VERSION: &'static str = "lean-dup.vector-candidate.v2";

/// Nearest neighbours asked for per query declaration.
pub const VECTOR_CANDIDATE_TOP_K: usize = 32;

/// Version of the embedding input-format rules.
pub const EMBEDDING_INPUT_FORMAT_VERSION: &'static str = "lean-dup.embedding-input-format.v1";

/// Status of candidate generation in one run.
#[derive(Debug, Clone, Copy, PartialEq, Eq, Structural)]
pub enum VectorCandidateStatus {
    Skipped,
    Failed,
    /// Candidates were generated (serialised as `ok`).
    Generated,
}

/// Facts recorded about candidate generation in one run.
#[derive(Debug, Clone)]
pub struct VectorCandidateSummary {
    pub version: &'static str,
    pub status: VectorCandidateStatus,
    pub reason: Option<String>,
    pub model_id: String,
    pub model_profile_id: String,
    pub input_format_id: String,
    pub input_format_version: String,
    pub acquisition_policy: VectorAcquisitionPolicy,
    pub document_policy_id: String,
    pub document_policy_version: String,
    pub corpus_status: Option<VectorCorpusStatus>,
    pub query_declaration_count: usize,
    pub corpus_declaration_count: usize,
    pub query_eligibility: EligibilitySummary,
    pub corpus_eligibility: EligibilitySummary,
    pub query_document_content: ContentAvailability,
    pub corpus_document_content: ContentAvailability,
    pub top_k: usize,
    pub eligible_corpus_size: usize,
    pub top_k_saturated: bool,
    pub vector_generated_candidate_count: usize,
    pub model_prepare_ms: u128,
    pub corpus_build_ms: u128,
    pub corpus_open_ms: u128,
    pub query_ms: u128,
    pub embedding_ms: u128,
    pub total_ms: u128,
    pub model_cache_bytes: Option<u64>,
    pub text_vector_cache_bytes: Option<u64>,
    pub vector_corpus_bytes: Option<u64>,
}

/// The recorded facts of a run before candidate generation: nothing
/// measured, the default policies, nothing counted.
pub open spec fn unstarted(r: VectorCandidateSummary) -> bool {
    &&& r.version@ == VECTOR_CANDIDATE_POLICY_VERSION@
    &&& r.model_id@.len() == 0
    &&& r.input_format_version@ == EMBEDDING_INPUT_FORMAT_VERSION@
    &&& r.document_policy_version@ == DOCUMENT_POLICY_VERSION@
    &&& r.corpus_status is None
    &&& r.query_eligibility.total == 0 && r.query_eligibility.eligible == 0
    &&& r.query_eligibility.skipped_by_reason@.len() == 0
    &&& r.corpus_eligibility.total == 0 && r.corpus_eligibility.eligible == 0
    &&& r.corpus_eligibility.skipped_by_reason@.len() == 0
    &&& no_content(r.query_document_content)
    &&& no_content(r.corpus_document_content)
    &&& r.top_k == VECTOR_CANDIDATE_TOP_K
    &&& r.vector_generated_candidate_count == 0
    &&& r.model_prepare_ms == 0 && r.corpus_build_ms == 0 && r.corpus_open_ms == 0
    &&& r.query_ms == 0 && r.embedding_ms == 0 && r.total_ms == 0
    &&& r.model_cache_bytes is None && r.text_vector_cache_bytes is None
    &&& r.vector_corpus_bytes is None
}

impl Default for VectorCandidateSummary {
    /// The facts of a run that generated nothing.
    fn default() -> (r: VectorCandidateSummary)
        ensures
            unstarted(r),
            r.status == VectorCandidateStatus::Skipped,
            r.reason is None,
            r.model_profile_id@.len() == 0,
            r.input_format_id@ == "asymmetric-query-document"@,
            r.acquisition_policy == VectorAcquisitionPolicy::CacheOnly,
            r.document_policy_id@ == "name-and-statement"@,
            r.query_declaration_count == 0 && r.corpus_declaration_count == 0,
            r.eligible_corpus_size == 0,
            !r.top_k_saturated,
    {
        VectorCandidateSummary {
            version: VECTOR_CANDIDATE_POLICY_VERSION,
            status: VectorCandidateStatus::Skipped,
            reason: None,
            model_id: String::new(),
            model_profile_id: String::new(),
            input_format_id: owned("asymmetric-query-document"),
            input_format_version: owned(EMBEDDING_INPUT_FORMAT_VERSION),
            acquisition_policy: VectorAcquisitionPolicy::CacheOnly,
            document_policy_id: owned("name-and-statement"),
            document_policy_version: owned(DOCUMENT_POLICY_VERSION),
            corpus_status: None,
            query_declaration_count: 0,
            corpus_declaration_count: 0,
            query_eligibility: EligibilitySummary::default(),
            corpus_eligibility: EligibilitySummary::default(),
            query_document_content: ContentAvailability::default(),
            corpus_document_content: ContentAvailability::default(),
            top_k: VECTOR_CANDIDATE_TOP_K,
            eligible_corpus_size: 0,
            top_k_saturated: false,
            vector_generated_candidate_count: 0,
            model_prepare_ms: 0,
            corpus_build_ms: 0,
            corpus_open_ms: 0,
            query_ms: 0,
            embedding_ms: 0,
            total_ms: 0,
            model_cache_bytes: None,
            text_vector_cache_bytes: None,
            vector_corpus_bytes: None,
        }
    }
}

impl VectorCandidateSummary {
    /// The facts of a run stopped for its budget before candidate
    /// generation, with `query_count` queries and `corpus_count` corpus
    /// declarations.
    pub fn skipped_for_budget(
        request: &VectorValidationRequest,
        query_count: usize,
        corpus_count: usize,
        reason: String,
    ) -> (r: VectorCandidateSummary)
        ensures
            unstarted(r),
            r.status == VectorCandidateStatus::Skipped,
            r.reason == Some(reason),
            r.model_profile_id@ == request.profile_id@,
            r.input_format_id@ == request.input_format_id@,
            r.acquisition_policy == request.acquisition_policy,
            r.document_policy_id@ == request.document_policy_id@,
            r.query_declaration_count == query_count,
            r.corpus_declaration_count == corpus_count,
            r.top_k_saturated == (VECTOR_CANDIDATE_TOP_K >= corpus_count),
            r.eligible_corpus_size == corpus_count,
    {
        let base = VectorCandidateSummary::default();
        VectorCandidateSummary {
            status: VectorCandidateStatus::Skipped,
            reason: Some(reason),
            model_profile_id: request.profile_id.clone(),
            input_format_id: request.input_format_id.clone(),
            acquisition_policy: request.acquisition_policy,
            document_policy_id: request.document_policy_id.clone(),
            query_declaration_count: query_count,
            corpus_declaration_count: corpus_count,
            top_k_saturated: VECTOR_CANDIDATE_TOP_K >= corpus_count,
            eligible_corpus_size: corpus_count,
            ..base
        }
    }
}

/// The facts a run starts from once eligibility and documents are known;
/// the status is `Failed` until a later step says otherwise.
pub fn empty_summary(
    request: &VectorValidationRequest,
    policy: DocumentPolicy,
    query_eligibility: EligibilitySummary,
    corpus_eligibility: EligibilitySummary,
    query_documents: &SemanticDocuments,
    corpus_documents: &SemanticDocuments,
) -> (r: VectorCandidateSummary)
    ensures
        r.version@ == VECTOR_CANDIDATE_POLICY_VERSION@,
        r.status == VectorCandidateStatus::Failed,
        r.reason is None,
        r.model_id@.len() == 0,
        r.model_profile_id@ == request.profile_id@,
        r.input_format_id@ == request.input_format_id@,
        r.input_format_version@ == EMBEDDING_INPUT_FORMAT_VERSION@,
        r.acquisition_policy == request.acquisition_policy,
        r.document_policy_id@ == document_policy_id(policy),
        r.document_policy_version@ == DOCUMENT_POLICY_VERSION@,
        r.corpus_status is None,
        r.query_declaration_count == query_documents.documents@.len(),
        r.corpus_declaration_count == corpus_documents.documents@.len(),
        r.query_eligibility == query_eligibility,
        r.corpus_eligibility == corpus_eligibility,
        r.query_document_content == query_documents.availability,
        r.corpus_document_content == corpus_documents.availability,
        r.top_k == VECTOR_CANDIDATE_TOP_K,
        r.eligible_corpus_size == corpus_documents.documents@.len(),
        r.top_k_saturated == (VECTOR_CANDIDATE_TOP_K >= corpus_documents.documents@.len()),
        r.vector_generated_candidate_count == 0,
        r.model_prepare_ms == 0 && r.corpus_build_ms == 0 && r.corpus_open_ms == 0,
        r.query_ms == 0 && r.embedding_ms == 0 && r.total_ms == 0,
        r.model_cache_bytes is None && r.text_vector_cache_bytes is None,
        r.vector_corpus_bytes is None,
{
    VectorCandidateSummary {
        version: VECTOR_CANDIDATE_POLICY_VERSION,
        status: VectorCandidateStatus::Failed,
        reason: None,
        model_id: String::new(),
        model_profile_id: request.profile_id.clone(),
        input_format_id: request.input_format_id.clone(),
        input_format_version: owned(EMBEDDING_INPUT_FORMAT_VERSION),
        acquisition_policy: request.acquisition_policy,
        document_policy_id: owned(policy.id()),
        document_policy_version: owned(DOCUMENT_POLICY_VERSION),
        corpus_status: None,
        query_declaration_count: query_documents.documents.len(),
        corpus_declaration_count: corpus_documents.documents.len(),
        query_eligibility,
        corpus_eligibility,
        query_document_content: query_documents.availability,
        corpus_document_content: corpus_documents.availability,
        top_k: VECTOR_CANDIDATE_TOP_K,
        eligible_corpus_size: corpus_documents.documents.len(),
        top_k_saturated: VECTOR_CANDIDATE_TOP_K >= corpus_documents.documents.len(),
        vector_generated_candidate_count: 0,
        model_prepare_ms: 0,
        corpus_build_ms: 0,
        corpus_open_ms: 0,
        query_ms: 0,
        embedding_ms: 0,
        total_ms: 0,
        model_cache_bytes: None,
        text_vector_cache_bytes: None,
        vector_corpus_bytes: None,
    }
}

/// Why generation stops before model work: no eligible query, then no
/// eligible corpus declaration.
pub fn document_skip_reason(query_documents: usize, corpus_documents: usize) -> (r: Option<&'static str>)
    ensures
        query_documents == 0 ==> (r matches Some(s) && s@ == "no-eligible-vector-queries"@),
        query_documents != 0 && corpus_documents == 0 ==> (r matches Some(s) && s@
            == "no-eligible-vector-corpus"@),
        query_documents != 0 && corpus_documents != 0 ==> r is None,
{
    if query_documents == 0 {
        Some("no-eligible-vector-queries")
    } else if corpus_documents == 0 {
        Some("no-eligible-vector-corpus")
    } else {
        None
    }
}

/// The serialised label of a candidate status.
pub open spec fn candidate_status_label(s: VectorCandidateStatus) -> Seq<char> {
    match s {
        VectorCandidateStatus::Skipped => "skipped"@,
        VectorCandidateStatus::Failed => "failed"@,
        VectorCandidateStatus::Generated => "ok"@,
    }
}

/// The serialised label of a candidate status.
pub fn status_label(s: VectorCandidateStatus) -> (r: &'static str)
    ensures
        r@ == candidate_status_label(s),
{
    match s {
        VectorCandidateStatus::Skipped => "skipped",
        VectorCandidateStatus::Failed => "failed",
        VectorCandidateStatus::Generated => "ok",
    }
}

/// The serialised label of a validation status.
pub open spec fn validation_status_label(s: VectorValidationStatus) -> Seq<char> {
    match s {
        VectorValidationStatus::Skipped => "skipped"@,
        VectorValidationStatus::Failed => "failed"@,
        VectorValidationStatus::Passed => "ok"@,
    }
}

/// The serialised label of a validation status.
pub fn status_name(s: VectorValidationStatus) -> (r: &'static str)
    ensures
        r@ == validation_status_label(s),
{
    match s {
        VectorValidationStatus::Skipped => "skipped",
        VectorValidationStatus::Failed => "failed",
        VectorValidationStatus::Passed => "ok",
    }
}

/// A run passes exactly when candidates were generated; otherwise it was
/// skipped.
pub fn outcome_status(s: VectorCandidateStatus) -> (r: VectorValidationStatus)
    ensures
        r == (if s == VectorCandidateStatus::Generated {
            VectorValidationStatus::Passed
        } else {
            VectorValidationStatus::Skipped
        }),
{
    if s == VectorCandidateStatus::Generated {
        VectorValidationStatus::Passed
    } else {
        VectorValidationStatus::Skipped
    }
}

/// Why a run stops before vector generation, checked in order: too many
/// queries, too many corpus declarations, the runtime budget spent, the
/// memory budget exceeded.
pub open spec fn budget_reason(
    request: VectorValidationRequest,
    query_count: nat,
    corpus_count: nat,
    elapsed_ms: nat,
    peak_rss_bytes: Option<u64>,
) -> Option<Seq<char>> {
    if query_count > request.bounds.max_queries {
        Some(
            "query-count-budget-exceeded: "@ + decimal(query_count) + " > "@ + decimal(
                request.bounds.max_queries as nat,
            ),
        )
    } else if corpus_count > request.bounds.max_declarations {
        Some(
            "declaration-count-budget-exceeded: "@ + decimal(corpus_count) + " > "@ + decimal(
                request.bounds.max_declarations as nat,
            ),
        )
    } else if elapsed_ms > request.bounds.max_runtime_ms {
        Some("runtime-budget-exceeded-before-vector-generation"@)
    } else if peak_rss_bytes matches Some(rss) && rss > request.bounds.max_rss_bytes {
        Some("rss-budget-exceeded-before-vector-generation"@)
    } else {
        None
    }
}

/// `prefix`, then `a`, ` > ` and `b` in decimal.
fn exceeded(prefix: &str, a: usize, b: usize) -> (r: String)
    ensures
        r@ == prefix@ + decimal(a as nat) + " > "@ + decimal(b as nat),
{
    let mut s = owned(prefix);
    push_decimal(&mut s, a as u64);
    s.append(" > ");
    push_decimal(&mut s, b as u64);
    s
}

/// The reason a run stops for its budget, from the query and corpus counts,
/// the time spent so far and the peak memory (when known).
pub fn budget_violation(
    request: &VectorValidationRequest,
    query_count: usize,
    corpus_count: usize,
    elapsed_ms: u128,
    peak_rss_bytes: Option<u64>,
) -> (r: Option<String>)
    ensures
        opt_text(r) == budget_reason(
            *request,
            query_count as nat,
            corpus_count as nat,
            elapsed_ms as nat,
            peak_rss_bytes,
        ),
{
    if query_count > request.bounds.max_queries {
        return Some(exceeded("query-count-budget-exceeded: ", query_count, request.bounds.max_queries));
    }
    if corpus_count > request.bounds.max_declarations {
        return Some(
            exceeded(
                "declaration-count-budget-exceeded: ",
                corpus_count,
                request.bounds.max_declarations,
            ),
        );
    }
    if elapsed_ms > request.bounds.max_runtime_ms {
        return Some(owned("runtime-budget-exceeded-before-vector-generation"));
    }
    match peak_rss_bytes {
        Some(rss) => {
            if rss > request.bounds.max_rss_bytes {
                return Some(owned("rss-budget-exceeded-before-vector-generation"));
            }
        },
        None => {},
    }
    None
}

/// The view of an optional string.
pub open spec fn opt_text(o: Option<String>) -> Option<Seq<char>> {
    match o {
        Some(s) => Some(s@),
        None => None,
    }
}

/// The corpus size of a suite: its comparison declarations, or its own
/// declarations when it compares against itself.
pub fn comparison_count(workspace_count: usize, comparison_declarations: usize) -> (r: usize)
    ensures
        r == (if comparison_declarations == 0 {
            workspace_count
        } else {
            comparison_declarations
        }),
{
    if comparison_declarations == 0 {
        workspace_count
    } else {
        comparison_declarations
    }
}

/// Whether a sequence is strictly increasing.
pub open spec fn increasing(s: Seq<usize>) -> bool {
    forall|i: int, j: int| 0 <= i < j < s.len() ==> s[i] < s[j]
}

/// Inserts `x` into the strictly increasing `v`.
fn insert_increasing(v: &mut Vec<usize>, x: usize)
    requires
        increasing(old(v)@),
    ensures
        increasing(final(v)@),
        final(v)@.to_set() == old(v)@.to_set().insert(x),
{
    let ghost before = v@;
    let mut p: usize = 0;
    while p < v.len() && v[p] < x
        invariant
            p <= v@.len(),
            v@ == before,
            increasing(v@),
            forall|i: int| 0 <= i < p ==> v@[i] < x,
        decreases v@.len() - p,
    {
        p = p + 1;
    }
    if p < v.len() && v[p] == x {
        assert(v@.to_set() =~= before.to_set().insert(x)) by {
            assert(before.contains(x));
        }
        return;
    }
    v.insert(p, x);
    proof {
        assert(v@ =~= before.take(p as int).push(x) + before.skip(p as int));
        assert forall|i: int, j: int| 0 <= i < j < v@.len() implies v@[i] < v@[j] by {
            if i < p && j > p {
                assert(v@[j] == before[j - 1]);
            }
            if i == p && j > p {
                assert(v@[j] == before[j - 1]);
                assert(before[p as int] >= x);
                if j - 1 > p {
                    assert(before[p as int] < before[j - 1]);
                }
            }
            if i > p {
                assert(v@[i] == before[i - 1]);
                assert(v@[j] == before[j - 1]);
            }
        }
        assert forall|y: usize| v@.contains(y) <==> before.to_set().insert(x).contains(y) by {
            if v@.contains(y) {
                let k = choose|k: int| 0 <= k < v@.len() && v@[k] == y;
                if k < p {
                    assert(before[k] == y);
                } else if k > p {
                    assert(before[k - 1] == y);
                }
            }
            if before.contains(y) {
                let k = choose|k: int| 0 <= k < before.len() && before[k] == y;
                if k < p {
                    assert(v@[k] == y);
                } else {
                    assert(v@[k + 1] == y);
                }
            }
            if y == x {
                assert(v@[p as int] == x);
            }
        }
        assert(v@.to_set() =~= before.to_set().insert(x));
    }
}

/// The cutoffs a run is scored at: the requested ones and 10, increasing,
/// each once.
pub fn suite_k_values(k_values: &Vec<usize>) -> (r: Vec<usize>)
    ensures
        increasing(r@),
        r@.to_set() == k_values@.to_set().insert(10),
{
    let mut r: Vec<usize> = Vec::new();
    let mut i: usize = 0;
    assert(r@.to_set() =~= k_values@.take(0).to_set());
    while i < k_values.len()
        invariant
            i <= k_values@.len(),
            increasing(r@),
            r@.to_set() == k_values@.take(i as int).to_set(),
        decreases k_values@.len() - i,
    {
        insert_increasing(&mut r, k_values[i]);
        proof {
            assert(k_values@.take(i + 1) =~= k_values@.take(i as int).push(k_values@[i as int]));
            k_values@.take(i as int).lemma_push_to_set_commute(k_values@[i as int]);
        }
        i = i + 1;
    }
    assert(k_values@.take(i as int) =~= k_values@);
    insert_increasing(&mut r, 10);
    r
}

/// The resource facts of a run.
#[derive(Debug, Clone)]
pub struct VectorValidationCostSummary {
    pub peak_rss_bytes: Option<u64>,
    pub rss_status: String,
    pub model_cache_bytes: Option<u64>,
    pub text_vector_cache_bytes: Option<u64>,
    pub vector_corpus_bytes: Option<u64>,
    pub eligible_corpus_size: usize,
    pub query_count: usize,
    pub top_k: usize,
    pub top_k_saturated: bool,
    pub cold_build_ms: u128,
    pub warm_open_query_ms: u128,
    pub artifact_path: Option<String>,
}

impl VectorValidationCostSummary {
    /// The cost facts of a run that measured nothing.
    pub fn empty() -> (r: VectorValidationCostSummary)
        ensures
            r.peak_rss_bytes is None && r.rss_status@.len() == 0 && r.model_cache_bytes is None
                && r.text_vector_cache_bytes is None && r.vector_corpus_bytes is None,
            r.eligible_corpus_size == 0 && r.query_count == 0 && r.top_k == 0 && !r.top_k_saturated,
            r.cold_build_ms == 0 && r.warm_open_query_ms == 0 && r.artifact_path is None,
    {
        VectorValidationCostSummary {
            peak_rss_bytes: None,
            rss_status: String::new(),
            model_cache_bytes: None,
            text_vector_cache_bytes: None,
            vector_corpus_bytes: None,
            eligible_corpus_size: 0,
            query_count: 0,
            top_k: 0,
            top_k_saturated: false,
            cold_build_ms: 0,
            warm_open_query_ms: 0,
            artifact_path: None,
        }
    }
}

/// The cost facts of a run: the cache sizes and corpus counts from the
/// candidate summary, no cold-build time for a reused corpus, and the warm
/// time as open plus query time (saturating).
pub fn cost_summary(
    summary: &VectorCandidateSummary,
    peak_rss_bytes: Option<u64>,
    artifact_path: Option<String>,
) -> (r: VectorValidationCostSummary)
    ensures
        r.peak_rss_bytes == peak_rss_bytes,
        r.rss_status@ == (if peak_rss_bytes is Some {
            "available"@
        } else {
            "unavailable"@
        }),
        r.model_cache_bytes == summary.model_cache_bytes,
        r.text_vector_cache_bytes == summary.text_vector_cache_bytes,
        r.vector_corpus_bytes == summary.vector_corpus_bytes,
        r.eligible_corpus_size == summary.eligible_corpus_size,
        r.query_count == summary.query_declaration_count,
        r.top_k == summary.top_k,
        r.top_k_saturated == summary.top_k_saturated,
        r.cold_build_ms == (if summary.corpus_status == Some(VectorCorpusStatus::Reused) {
            0
        } else {
            summary.corpus_build_ms
        }),
        r.warm_open_query_ms == (if summary.corpus_open_ms + summary.query_ms > u128::MAX {
            u128::MAX as int
        } else {
            summary.corpus_open_ms + summary.query_ms
        }),
        r.artifact_path == artifact_path,
{
    let reused = match summary.corpus_status {
        Some(VectorCorpusStatus::Reused) => true,
        _ => false,
    };
    VectorValidationCostSummary {
        peak_rss_bytes,
        rss_status: match peak_rss_bytes {
            Some(_) => owned("available"),
            None => owned("unavailable"),
        },
        model_cache_bytes: summary.model_cache_bytes,
        text_vector_cache_bytes: summary.text_vector_cache_bytes,
        vector_corpus_bytes: summary.vector_corpus_bytes,
        eligible_corpus_size: summary.eligible_corpus_size,
        query_count: summary.query_declaration_count,
        top_k: summary.top_k,
        top_k_saturated: summary.top_k_saturated,
        cold_build_ms: if reused {
            0
        } else {
            summary.corpus_build_ms
        },
        warm_open_query_ms: summary.corpus_open_ms.saturating_add(summary.query_ms),
        artifact_path,
    }
}

/// The suites a workload can run.
#[derive(Debug, Clone, Copy, PartialEq, Eq, Structural)]
pub enum SuiteKind {
    /// The built-in fixture declarations.
    VectorFixture,
    Default,
    HardNegatives,
    ManualInternal,
    ManualMathlib,
    /// Every other suite in turn, gated together.
    ProductionGate,
}

/// The suite a name selects.
pub open spec fn suite_of(name: Seq<char>) -> Option<SuiteKind> {
    if name == "vector-fixture"@ {
        Some(SuiteKind::VectorFixture)
    } else if name == "default"@ {
        Some(SuiteKind::Default)
    } else if name == "hard-negatives"@ {
        Some(SuiteKind::HardNegatives)
    } else if name == "manual-internal"@ {
        Some(SuiteKind::ManualInternal)
    } else if name == "manual-mathlib"@ {
        Some(SuiteKind::ManualMathlib)
    } else if name == "production-gate"@ {
        Some(SuiteKind::ProductionGate)
    } else {
        None
    }
}

/// The suite named `name`; an unknown name is refused.
pub fn suite_kind(name: &str) -> (r: Result<SuiteKind, InvalidVectorRequest>)
    ensures
        match r {
            Ok(k) => suite_of(name@) == Some(k),
            Err(e) => suite_of(name@) is None && e.message@
                == "unsupported vector validation suite: "@ + name@,
        },
{
    if str_eq(name, "vector-fixture") {
        Ok(SuiteKind::VectorFixture)
    } else if str_eq(name, "default") {
        Ok(SuiteKind::Default)
    } else if str_eq(name, "hard-negatives") {
        Ok(SuiteKind::HardNegatives)
    } else if str_eq(name, "manual-internal") {
        Ok(SuiteKind::ManualInternal)
    } else if str_eq(name, "manual-mathlib") {
        Ok(SuiteKind::ManualMathlib)
    } else if str_eq(name, "production-gate") {
        Ok(SuiteKind::ProductionGate)
    } else {
        Err(InvalidVectorRequest { message: concat("unsupported vector validation suite: ", name) })
    }
}

/// The suites a production gate runs, in order.
pub fn gate_suites() -> (r: Vec<&'static str>)
    ensures
        r@.len() == 4,
        r@[0]@ == "default"@,
        r@[1]@ == "hard-negatives"@,
        r@[2]@ == "manual-internal"@,
        r@[3]@ == "manual-mathlib"@,
{
    vec!["default", "hard-negatives", "manual-internal", "manual-mathlib"]
}

/// Whether a failing child of a production gate counts as skipped: true for
/// the suites that need a workspace of their own.
pub fn child_failure_is_skip(suite: &str) -> (r: bool)
    ensures
        r == has_prefix(suite@, "manual-"@),
{
    starts_with(suite, "manual-")
}

proof fn lemma_push_contains<A>(s: Seq<A>, x: A, y: A)
    ensures
        s.push(x).contains(y) == (s.contains(y) || x == y),
{
    if s.contains(y) {
        let k = choose|k: int| 0 <= k < s.len() && s[k] == y;
        assert(s.push(x)[k] == y);
    }
    if x == y {
        assert(s.push(x)[s.len() as int] == y);
    }
    if s.push(x).contains(y) {
        let k = choose|k: int| 0 <= k < s.push(x).len() && s.push(x)[k] == y;
        if k < s.len() {
            assert(s[k] == y);
        }
    }
}

/// The status of a gate from its children's status labels: failed if one
/// failed, else skipped if one was skipped, else passed.
pub open spec fn gate_status_of(children: Seq<Seq<char>>) -> VectorValidationStatus {
    if children.contains("failed"@) {
        VectorValidationStatus::Failed
    } else if children.contains("skipped"@) {
        VectorValidationStatus::Skipped
    } else {
        VectorValidationStatus::Passed
    }
}

/// The status of a gate from its children's status labels.
pub fn gate_status(children: &Vec<String>) -> (r: VectorValidationStatus)
    ensures
        r == gate_status_of(children@.map_values(|s: String| s@)),
{
    let ghost labels = children@.map_values(|s: String| s@);
    let mut failed = false;
    let mut skipped = false;
    let mut i: usize = 0;
    while i < children.len()
        invariant
            i <= children@.len(),
            labels == children@.map_values(|s: String| s@),
            failed == labels.take(i as int).contains("failed"@),
            skipped == labels.take(i as int).contains("skipped"@),
        decreases children@.len() - i,
    {
        let is_failed = str_eq(children[i].as_str(), "failed");
        let is_skipped = str_eq(children[i].as_str(), "skipped");
        proof {
            assert(labels.take(i + 1) =~= labels.take(i as int).push(labels[i as int]));
            assert(labels[i as int] == children@[i as int]@);
            lemma_push_contains(labels.take(i as int), labels[i as int], "failed"@);
            lemma_push_contains(labels.take(i as int), labels[i as int], "skipped"@);
        }
        failed = failed || is_failed;
        skipped = skipped || is_skipped;
        i = i + 1;
    }
    assert(labels.take(i as int) =~= labels);
    if failed {
        VectorValidationStatus::Failed
    } else if skipped {
        VectorValidationStatus::Skipped
    } else {
        VectorValidationStatus::Passed
    }
}

/// The reason a gate records: none when it passed.
pub fn gate_reason(status: VectorValidationStatus) -> (r: Option<String>)
    ensures
        status == VectorValidationStatus::Passed ==> r is None,
        status != VectorValidationStatus::Passed ==> (r matches Some(s) && s@
            == "one or more child workloads did not complete"@),
{
    if status == VectorValidationStatus::Passed {
        None
    } else {
        Some(owned("one or more child workloads did not complete"))
    }
}

/// The scorer variants a run compares.
#[derive(Debug, Clone, Copy, PartialEq, Eq, Structural)]
pub enum VectorScorerVariant {
    SymbolicOnly,
    VectorEvidenceOnly,
    SymbolicPlusVector,
}

/// The id of a scorer variant.
pub open spec fn scorer_variant_id(v: VectorScorerVariant) -> Seq<char> {
    match v {
        VectorScorerVariant::SymbolicOnly => "symbolic-only"@,
        VectorScorerVariant::VectorEvidenceOnly => "vector-evidence-only"@,
        VectorScorerVariant::SymbolicPlusVector => "symbolic-plus-vector"@,
    }
}

impl VectorScorerVariant {
    /// Every variant, in report order.
    pub fn all() -> (r: Vec<VectorScorerVariant>)
        ensures
            r@ == seq![
                VectorScorerVariant::SymbolicOnly,
                VectorScorerVariant::VectorEvidenceOnly,
                VectorScorerVariant::SymbolicPlusVector,
            ],
    {
        let r = vec![
            VectorScorerVariant::SymbolicOnly,
            VectorScorerVariant::VectorEvidenceOnly,
            VectorScorerVariant::SymbolicPlusVector,
        ];
        assert(r@ =~= seq![
            VectorScorerVariant::SymbolicOnly,
            VectorScorerVariant::VectorEvidenceOnly,
            VectorScorerVariant::SymbolicPlusVector,
        ]);
        r
    }

    /// The stable id of this variant.
    pub fn id(self) -> (r: &'static str)
        ensures
            r@ == scorer_variant_id(self),
    {
        match self {
            VectorScorerVariant::SymbolicOnly => "symbolic-only",
            VectorScorerVariant::VectorEvidenceOnly => "vector-evidence-only",
            VectorScorerVariant::SymbolicPlusVector => "symbolic-plus-vector",
        }
    }
}

/// A found-out-of-total count.
#[derive(Debug, Clone, Copy, PartialEq, Eq, Structural)]
pub struct CountMetric {
    pub found: usize,
    pub total: usize,
}

/// How many queries hit a top-k that covered the whole corpus: all of them
/// when it did, none otherwise.
pub fn top_k_saturation(summary: &VectorCandidateSummary) -> (r: CountMetric)
    ensures
        r.total == summary.query_declaration_count,
        r.found == (if summary.top_k_saturated {
            summary.query_declaration_count
        } else {
            0
        }),
{
    CountMetric {
        found: if summary.top_k_saturated {
            summary.query_declaration_count
        } else {
            0
        },
        total: summary.query_declaration_count,
    }
}

/// The id of a declaration pair, its names in string order joined by `::`.
pub open spec fn stable_pair_id_of(left: Seq<char>, right: Seq<char>) -> Seq<char> {
    if lex_le(left, right) {
        left + "::"@ + right
    } else {
        right + "::"@ + left
    }
}

/// The order-independent id of a declaration pair.
pub fn stable_pair_id(left: &str, right: &str) -> (r: String)
    ensures
        r@ == stable_pair_id_of(left@, right@),
{
    if str_eq(left, right) || str_lt(left, right) {
        let mut s = concat(left, "::");
        s.append(right);
        s
    } else {
        let mut s = concat(right, "::");
        s.append(left);
        s
    }
}

/// The stand-in content hash of a declaration known only by name.
pub fn declaration_hash(name: &str) -> (r: String)
    ensures
        r@ == text_digest(name@),
{
    crate::digest::sha256_hex(name)
}

} // verus!
