//! The audit's view of a ranked review: review profiles and the filters they
//! select, why a group is hidden, the queue and profile counts, and the
//! plain projections of groups, hints and baseline diffs that reports print.
use vstd::prelude::*;

use crate::baseline::{bg_view, BaselineChange, BaselineDiff, BaselineGroup};
use crate::ranking::{
    action_label, confidence_label, evidence_mode_label, evidence_summary, filter_includes, priority_label,
    priority_rank, relation_label, RankedGroup, RankedReview, RankingDiagnostics, ReviewEvidence, ReviewFilter,
    ReviewMember, ReviewPriority,
};
use crate::replacement_hints::ReplacementHint;
use crate::retrieval::{NamedCount, RetrievalDiagnostics};
use crate::semantic::{
    SEMANTIC_RERANKING_VERSION, SearchSemanticObligationFact, SearchSemanticObligationYield,
    SearchSemanticRerankingSummary, semantic_reranking_summary, sorted_yield, yields_sorted,
};
use crate::sets::{clone_strings, contains_str, views};
use crate::source_refs::ImportStatus;
use crate::worker::{clone_opt_string, clone_span, SourceSpan};

verus! {

/// Review profiles of the audit queue.
#[derive(Debug, Clone, Copy, PartialEq, Eq, Structural)]
pub enum ReviewProfile {
    /// Duplicates of Mathlib, medium priority and up.
    Mathlib,
    /// Duplicates inside the workspace, medium priority and up.
    Internal,
    /// API design findings, low priority and up.
    ApiDesign,
    /// Everything, noise included.
    Noise,
}

/// How far semantic probes go.
#[derive(Debug, Clone, Copy, PartialEq, Eq, Structural)]
pub enum ProbePolicy {
    Actionable,
    Broad,
}

/// Probe status counts for one planning dimension.
#[derive(Debug, Clone, Copy, PartialEq, Eq, Structural)]
pub struct ProbeStatusBreakdown {
    pub planned: usize,
    pub cached: usize,
    pub worker: usize,
    pub verified: usize,
    pub rejected: usize,
    pub unavailable: usize,
    pub skipped_by_policy: usize,
    pub skipped_by_budget: usize,
    pub timeout: usize,
}

/// An audit run as requested: the workspace, what to compare against, what
/// to show, and the semantic probe settings.
#[derive(Debug, Clone)]
pub struct AuditRequest {
    pub workspace: String,
    pub module_root: Option<String>,
    pub include_private: bool,
    pub compare_indexes: Vec<String>,
    pub compare_mathlib: bool,
    pub mathlib_workspace: Option<String>,
    pub include_generated: bool,
    pub show_noise: bool,
    pub review_profile: ReviewProfile,
    pub save_baseline: Option<String>,
    pub semantic_probes: bool,
    pub probe_budget: usize,
    pub probe_policy: ProbePolicy,
    pub probe_chunk_size: usize,
}

/// A baseline comparison with where it was computed.
#[derive(Debug)]
pub struct DiffOutput {
    pub requested_workspace: String,
    pub lake_root: String,
    pub selected_roots: Vec<String>,
    pub source_count: usize,
    pub cache_root: String,
    pub cache_fingerprint: String,
    pub diff: SearchBaselineDiff,
}

/// What the semantic probe planner and worker recorded in one audit.
#[derive(Debug, Clone)]
pub struct ProbeDiagnostics {
    pub enabled: bool,
    pub policy: String,
    pub budget: usize,
    pub per_declaration_cap: usize,
    pub chunk_size: usize,
    pub candidates_considered: usize,
    pub planned_pairs: usize,
    pub skipped_by_policy: usize,
    pub skipped_by_budget: usize,
    pub cheap_summary_rejects: usize,
    pub planned_exact_theorem: usize,
    pub planned_permuted_theorem: usize,
    pub planned_replacement: usize,
    pub planned_reducible_definition: usize,
    pub planned_specialization: usize,
    pub planned_local_duplicate: usize,
    pub cached_hits: usize,
    pub worker_pairs: usize,
    pub worker_batches: usize,
    pub recovered_failures: usize,
    pub unavailable_results: usize,
    pub unavailable_unsupported: usize,
    pub unavailable_missing: usize,
    pub unavailable_timeout: usize,
    pub unavailable_internal: usize,
    pub unavailable_by_reason: Vec<NamedCount>,
    pub unavailable_by_obligation: Vec<NamedCount>,
    pub unavailable_by_module: Vec<NamedCount>,
    pub unavailable_by_origin: Vec<NamedCount>,
    pub verified_results: usize,
    pub obligation_yield: Vec<SearchSemanticObligationYield>,
}

/// The semantic-probe section of an audit report.
#[derive(Debug, Clone)]
pub struct AuditProbeSummary {
    pub semantic_reranking: SearchSemanticRerankingSummary,
    pub enabled: bool,
    pub policy: String,
    pub budget: usize,
    pub per_declaration_cap: usize,
    pub chunk_size: usize,
    pub candidates_considered: usize,
    pub planned_pairs: usize,
    pub skipped_by_policy: usize,
    pub skipped_by_budget: usize,
    pub cheap_summary_rejects: usize,
    pub planned_exact_theorem: usize,
    pub planned_permuted_theorem: usize,
    pub planned_replacement: usize,
    pub planned_reducible_definition: usize,
    pub planned_specialization: usize,
    pub planned_local_duplicate: usize,
    pub cached_hits: usize,
    pub worker_pairs: usize,
    pub worker_batches: usize,
    pub recovered_failures: usize,
    pub unavailable_results: usize,
    pub unavailable_unsupported: usize,
    pub unavailable_missing: usize,
    pub unavailable_timeout: usize,
    pub unavailable_internal: usize,
    pub unavailable_by_reason: Vec<NamedCount>,
    pub unavailable_by_obligation: Vec<NamedCount>,
    pub unavailable_by_module: Vec<NamedCount>,
    pub unavailable_by_origin: Vec<NamedCount>,
    pub verified_results: usize,
    pub obligation_yield: Vec<SearchSemanticObligationYield>,
}

/// The probe section of a report: the current reranking policy, every
/// counter as recorded, and the obligation yields ordered by kind.
pub fn audit_probe_summary(d: ProbeDiagnostics) -> (r: AuditProbeSummary)
    ensures
        r.semantic_reranking.version@ == SEMANTIC_RERANKING_VERSION@,
        r.enabled == d.enabled && r.policy == d.policy && r.budget == d.budget,
        r.per_declaration_cap == d.per_declaration_cap && r.chunk_size == d.chunk_size,
        r.candidates_considered == d.candidates_considered && r.planned_pairs == d.planned_pairs,
        r.skipped_by_policy == d.skipped_by_policy && r.skipped_by_budget == d.skipped_by_budget,
        r.cheap_summary_rejects == d.cheap_summary_rejects,
        r.planned_exact_theorem == d.planned_exact_theorem,
        r.planned_permuted_theorem == d.planned_permuted_theorem,
        r.planned_replacement == d.planned_replacement,
        r.planned_reducible_definition == d.planned_reducible_definition,
        r.planned_specialization == d.planned_specialization,
        r.planned_local_duplicate == d.planned_local_duplicate,
        r.cached_hits == d.cached_hits && r.worker_pairs == d.worker_pairs,
        r.worker_batches == d.worker_batches && r.recovered_failures == d.recovered_failures,
        r.unavailable_results == d.unavailable_results,
        r.unavailable_unsupported == d.unavailable_unsupported,
        r.unavailable_missing == d.unavailable_missing,
        r.unavailable_timeout == d.unavailable_timeout,
        r.unavailable_internal == d.unavailable_internal,
        r.unavailable_by_reason == d.unavailable_by_reason,
        r.unavailable_by_obligation == d.unavailable_by_obligation,
        r.unavailable_by_module == d.unavailable_by_module,
        r.unavailable_by_origin == d.unavailable_by_origin,
        r.verified_results == d.verified_results,
        yields_sorted(r.obligation_yield@),
        r.obligation_yield@.to_multiset() == d.obligation_yield@.to_multiset(),
{
    let obligation_yield = sorted_yield(d.obligation_yield);
    AuditProbeSummary {
        semantic_reranking: semantic_reranking_summary(),
        enabled: d.enabled,
        policy: d.policy,
        budget: d.budget,
        per_declaration_cap: d.per_declaration_cap,
        chunk_size: d.chunk_size,
        candidates_considered: d.candidates_considered,
        planned_pairs: d.planned_pairs,
        skipped_by_policy: d.skipped_by_policy,
        skipped_by_budget: d.skipped_by_budget,
        cheap_summary_rejects: d.cheap_summary_rejects,
        planned_exact_theorem: d.planned_exact_theorem,
        planned_permuted_theorem: d.planned_permuted_theorem,
        planned_replacement: d.planned_replacement,
        planned_reducible_definition: d.planned_reducible_definition,
        planned_specialization: d.planned_specialization,
        planned_local_duplicate: d.planned_local_duplicate,
        cached_hits: d.cached_hits,
        worker_pairs: d.worker_pairs,
        worker_batches: d.worker_batches,
        recovered_failures: d.recovered_failures,
        unavailable_results: d.unavailable_results,
        unavailable_unsupported: d.unavailable_unsupported,
        unavailable_missing: d.unavailable_missing,
        unavailable_timeout: d.unavailable_timeout,
        unavailable_internal: d.unavailable_internal,
        unavailable_by_reason: d.unavailable_by_reason,
        unavailable_by_obligation: d.unavailable_by_obligation,
        unavailable_by_module: d.unavailable_by_module,
        unavailable_by_origin: d.unavailable_by_origin,
        verified_results: d.verified_results,
        obligation_yield,
    }
}

/// The filter a profile selects, widened by the user's generated and noise
/// switches. The noise profile shows everything; the others hide private,
/// generated and diagnostic findings unless switched on.
pub open spec fn review_filter_spec(profile: ReviewProfile, include_generated: bool, show_noise: bool) -> ReviewFilter {
    let noise = profile == ReviewProfile::Noise;
    ReviewFilter {
        include_generated: include_generated || noise,
        include_private: noise,
        include_diagnostics: show_noise || noise,
        min_priority: match profile {
            ReviewProfile::Mathlib => ReviewPriority::Medium,
            ReviewProfile::Internal => ReviewPriority::Medium,
            ReviewProfile::ApiDesign => ReviewPriority::Low,
            ReviewProfile::Noise => ReviewPriority::Noise,
        },
    }
}

/// The filter a profile selects.
pub fn review_filter(profile: ReviewProfile, include_generated: bool, show_noise: bool) -> (r: ReviewFilter)
    ensures
        r == review_filter_spec(profile, include_generated, show_noise),
{
    let noise = profile == ReviewProfile::Noise;
    let min_priority = match profile {
        ReviewProfile::Mathlib => ReviewPriority::Medium,
        ReviewProfile::Internal => ReviewPriority::Medium,
        ReviewProfile::ApiDesign => ReviewPriority::Low,
        ReviewProfile::Noise => ReviewPriority::Noise,
    };
    ReviewFilter {
        include_generated: include_generated || noise,
        include_private: noise,
        include_diagnostics: show_noise || noise,
        min_priority,
    }
}

/// Why a group is hidden from the audit queue.
#[derive(Debug, Clone, Copy, PartialEq, Eq, Structural)]
pub enum AuditHiddenReason {
    Generated,
    UnverifiedProofGrade,
    UnavailableProbe,
    NoiseOrProfile,
    OtherBlocker,
}

/// The group carries this blocker.
pub open spec fn has_blocker_spec(g: RankedGroup, b: Seq<char>) -> bool {
    views(g.blockers@).contains(b)
}

/// Why the filter hides the group (none when it shows it), most specific
/// reason first.
pub open spec fn hidden_reason_spec(g: RankedGroup, f: ReviewFilter) -> Option<AuditHiddenReason> {
    if filter_includes(f, g) {
        None
    } else if !f.include_generated && has_blocker_spec(g, "generated-declaration"@) {
        Some(AuditHiddenReason::Generated)
    } else if has_blocker_spec(g, "unverified-proof-grade-evidence"@) {
        Some(AuditHiddenReason::UnverifiedProofGrade)
    } else if has_blocker_spec(g, "lean-probe-unavailable"@) {
        Some(AuditHiddenReason::UnavailableProbe)
    } else if g.review_priority == ReviewPriority::Noise || priority_rank(g.review_priority) > priority_rank(
        f.min_priority,
    ) || !f.include_diagnostics {
        Some(AuditHiddenReason::NoiseOrProfile)
    } else {
        Some(AuditHiddenReason::OtherBlocker)
    }
}

fn priority_rank_u8(p: ReviewPriority) -> (r: u8)
    ensures
        r == priority_rank(p),
{
    match p {
        ReviewPriority::High => 0,
        ReviewPriority::Medium => 1,
        ReviewPriority::Low => 2,
        ReviewPriority::Noise => 3,
    }
}

/// Why the filter hides the group, if it does.
pub fn audit_hidden_reason(g: &RankedGroup, f: ReviewFilter) -> (r: Option<AuditHiddenReason>)
    ensures
        r == hidden_reason_spec(*g, f),
{
    if f.includes(g) {
        return None;
    }
    if !f.include_generated && contains_str(&g.blockers, "generated-declaration") {
        return Some(AuditHiddenReason::Generated);
    }
    if contains_str(&g.blockers, "unverified-proof-grade-evidence") {
        return Some(AuditHiddenReason::UnverifiedProofGrade);
    }
    if contains_str(&g.blockers, "lean-probe-unavailable") {
        return Some(AuditHiddenReason::UnavailableProbe);
    }
    if g.review_priority == ReviewPriority::Noise || priority_rank_u8(g.review_priority) > priority_rank_u8(
        f.min_priority,
    ) || !f.include_diagnostics {
        return Some(AuditHiddenReason::NoiseOrProfile);
    }
    Some(AuditHiddenReason::OtherBlocker)
}

/// The sentence that explains a hidden reason.
pub open spec fn hidden_sentence(r: AuditHiddenReason) -> Seq<char> {
    match r {
        AuditHiddenReason::Generated => "hidden because generated declarations are excluded"@,
        AuditHiddenReason::UnverifiedProofGrade => "hidden because proof-grade comparison evidence was required but not verified"@,
        AuditHiddenReason::UnavailableProbe => "hidden because the required Lean semantic probe is unavailable"@,
        AuditHiddenReason::NoiseOrProfile => "hidden by the active review profile or noise filter"@,
        AuditHiddenReason::OtherBlocker => "hidden by blockers or output filters"@,
    }
}

/// The sentence that explains a hidden reason.
pub fn hidden_reason_sentence(r: AuditHiddenReason) -> (s: String)
    ensures
        s@ == hidden_sentence(r),
{
    match r {
        AuditHiddenReason::Generated => "hidden because generated declarations are excluded".to_owned(),
        AuditHiddenReason::UnverifiedProofGrade => "hidden because proof-grade comparison evidence was required but not verified".to_owned(),
        AuditHiddenReason::UnavailableProbe => "hidden because the required Lean semantic probe is unavailable".to_owned(),
        AuditHiddenReason::NoiseOrProfile => "hidden by the active review profile or noise filter".to_owned(),
        AuditHiddenReason::OtherBlocker => "hidden by blockers or output filters".to_owned(),
    }
}

/// Whether a group is shown, and why (not).
#[derive(Debug, Clone)]
pub struct AuditVisibility {
    pub visible: bool,
    pub reason: String,
    pub hidden_reason: Option<AuditHiddenReason>,
}

/// The visibility record of a group under a filter.
pub open spec fn visibility_ok(v: AuditVisibility, g: RankedGroup, f: ReviewFilter) -> bool {
    if filter_includes(f, g) {
        v.visible && v.reason@ == "included by the active review profile and output filters"@ && v.hidden_reason is None
    } else {
        let r = match hidden_reason_spec(g, f) {
            Some(x) => x,
            None => AuditHiddenReason::OtherBlocker,
        };
        !v.visible && v.reason@ == hidden_sentence(r) && v.hidden_reason == Some(r)
    }
}

/// Whether the filter shows the group, with the reason.
pub fn audit_visibility(g: &RankedGroup, f: ReviewFilter) -> (v: AuditVisibility)
    ensures
        visibility_ok(v, *g, f),
{
    if f.includes(g) {
        return AuditVisibility {
            visible: true,
            reason: "included by the active review profile and output filters".to_owned(),
            hidden_reason: None,
        };
    }
    let r = match audit_hidden_reason(g, f) {
        Some(x) => x,
        None => AuditHiddenReason::OtherBlocker,
    };
    AuditVisibility { visible: false, reason: hidden_reason_sentence(r), hidden_reason: Some(r) }
}

/// Hidden groups by reason.
#[derive(Debug, Clone, Copy, PartialEq, Eq, Structural)]
pub struct AuditHiddenGroupCounts {
    pub total: usize,
    pub noise_or_profile: usize,
    pub generated: usize,
    pub unverified_proof_grade: usize,
    pub unavailable_probe: usize,
    pub other_blockers: usize,
}

/// Visible, total and hidden group counts of a queue.
#[derive(Debug, Clone, Copy, PartialEq, Eq, Structural)]
pub struct AuditQueueSummary {
    pub visible: usize,
    pub total: usize,
    pub hidden: AuditHiddenGroupCounts,
}

/// Groups of `gs` the filter shows.
pub open spec fn count_visible(gs: Seq<RankedGroup>, f: ReviewFilter) -> int
    decreases gs.len(),
{
    if gs.len() == 0 {
        0
    } else {
        count_visible(gs.drop_last(), f) + if filter_includes(f, gs.last()) {
            1int
        } else {
            0int
        }
    }
}

/// Groups of `gs` the filter hides for this reason.
pub open spec fn count_hidden(gs: Seq<RankedGroup>, f: ReviewFilter, r: AuditHiddenReason) -> int
    decreases gs.len(),
{
    if gs.len() == 0 {
        0
    } else {
        count_hidden(gs.drop_last(), f, r) + if hidden_reason_spec(gs.last(), f) == Some(r) {
            1int
        } else {
            0int
        }
    }
}

/// Groups of `gs` the filter hides.
pub open spec fn count_all_hidden(gs: Seq<RankedGroup>, f: ReviewFilter) -> int
    decreases gs.len(),
{
    if gs.len() == 0 {
        0
    } else {
        count_all_hidden(gs.drop_last(), f) + if !filter_includes(f, gs.last()) {
            1int
        } else {
            0int
        }
    }
}

/// The queue summary of a review under a filter.
pub fn audit_queue_summary(review: &RankedReview, f: ReviewFilter) -> (r: AuditQueueSummary)
    ensures
        r.total == review.groups@.len(),
        r.visible == count_visible(review.groups@, f),
        r.hidden.total == count_all_hidden(review.groups@, f),
        r.hidden.generated == count_hidden(review.groups@, f, AuditHiddenReason::Generated),
        r.hidden.unverified_proof_grade == count_hidden(review.groups@, f, AuditHiddenReason::UnverifiedProofGrade),
        r.hidden.unavailable_probe == count_hidden(review.groups@, f, AuditHiddenReason::UnavailableProbe),
        r.hidden.noise_or_profile == count_hidden(review.groups@, f, AuditHiddenReason::NoiseOrProfile),
        r.hidden.other_blockers == count_hidden(review.groups@, f, AuditHiddenReason::OtherBlocker),
{
    let gs = &review.groups;
    let mut visible: usize = 0;
    let mut hidden = AuditHiddenGroupCounts {
        total: 0,
        noise_or_profile: 0,
        generated: 0,
        unverified_proof_grade: 0,
        unavailable_probe: 0,
        other_blockers: 0,
    };
    let mut i: usize = 0;
    while i < gs.len()
        invariant
            i <= gs@.len(),
            visible == count_visible(gs@.take(i as int), f),
            hidden.total == count_all_hidden(gs@.take(i as int), f),
            hidden.generated == count_hidden(gs@.take(i as int), f, AuditHiddenReason::Generated),
            hidden.unverified_proof_grade == count_hidden(gs@.take(i as int), f, AuditHiddenReason::UnverifiedProofGrade),
            hidden.unavailable_probe == count_hidden(gs@.take(i as int), f, AuditHiddenReason::UnavailableProbe),
            hidden.noise_or_profile == count_hidden(gs@.take(i as int), f, AuditHiddenReason::NoiseOrProfile),
            hidden.other_blockers == count_hidden(gs@.take(i as int), f, AuditHiddenReason::OtherBlocker),
            visible + hidden.total == i,
            hidden.generated + hidden.unverified_proof_grade + hidden.unavailable_probe + hidden.noise_or_profile
                + hidden.other_blockers == hidden.total,
        decreases gs@.len() - i,
    {
        let g = &gs[i];
        proof {
            assert(gs@.take(i + 1).drop_last() =~= gs@.take(i as int));
            assert(gs@.take(i + 1).last() == *g);
        }
        if f.includes(g) {
            visible = visible + 1;
        } else {
            hidden.total = hidden.total + 1;
            match audit_hidden_reason(g, f) {
                Some(AuditHiddenReason::Generated) => {
                    hidden.generated = hidden.generated + 1;
                },
                Some(AuditHiddenReason::UnverifiedProofGrade) => {
                    hidden.unverified_proof_grade = hidden.unverified_proof_grade + 1;
                },
                Some(AuditHiddenReason::UnavailableProbe) => {
                    hidden.unavailable_probe = hidden.unavailable_probe + 1;
                },
                Some(AuditHiddenReason::NoiseOrProfile) => {
                    hidden.noise_or_profile = hidden.noise_or_profile + 1;
                },
                _ => {
                    hidden.other_blockers = hidden.other_blockers + 1;
                },
            }
        }
        i = i + 1;
    }
    proof {
        assert(gs@.take(gs@.len() as int) =~= gs@);
    }
    AuditQueueSummary { visible, total: gs.len(), hidden }
}

/// In a queue summary the visible and hidden groups make up the whole queue,
/// and the hidden groups split exactly into their reasons.
pub proof fn lemma_queue_summary_adds_up(gs: Seq<RankedGroup>, f: ReviewFilter)
    ensures
        count_visible(gs, f) + count_all_hidden(gs, f) == gs.len(),
        count_hidden(gs, f, AuditHiddenReason::Generated) + count_hidden(gs, f, AuditHiddenReason::UnverifiedProofGrade)
            + count_hidden(gs, f, AuditHiddenReason::UnavailableProbe) + count_hidden(
            gs,
            f,
            AuditHiddenReason::NoiseOrProfile,
        ) + count_hidden(gs, f, AuditHiddenReason::OtherBlocker) == count_all_hidden(gs, f),
    decreases gs.len(),
{
    if gs.len() > 0 {
        lemma_queue_summary_adds_up(gs.drop_last(), f);
    }
}

/// Visible groups per review profile, with the default switches.
#[derive(Debug, Clone, Copy, PartialEq, Eq, Structural)]
pub struct AuditProfileCounts {
    pub mathlib: usize,
    pub internal: usize,
    pub api_design: usize,
    pub noise: usize,
}

fn count_shown(review: &RankedReview, f: ReviewFilter) -> (n: usize)
    ensures
        n == count_visible(review.groups@, f),
{
    let s = audit_queue_summary(review, f);
    s.visible
}

/// How many groups each profile shows.
pub fn audit_profile_counts(review: &RankedReview) -> (r: AuditProfileCounts)
    ensures
        r.mathlib == count_visible(review.groups@, review_filter_spec(ReviewProfile::Mathlib, false, false)),
        r.internal == count_visible(review.groups@, review_filter_spec(ReviewProfile::Internal, false, false)),
        r.api_design == count_visible(review.groups@, review_filter_spec(ReviewProfile::ApiDesign, false, false)),
        r.noise == count_visible(review.groups@, review_filter_spec(ReviewProfile::Noise, false, false)),
{
    AuditProfileCounts {
        mathlib: count_shown(review, review_filter(ReviewProfile::Mathlib, false, false)),
        internal: count_shown(review, review_filter(ReviewProfile::Internal, false, false)),
        api_design: count_shown(review, review_filter(ReviewProfile::ApiDesign, false, false)),
        noise: count_shown(review, review_filter(ReviewProfile::Noise, false, false)),
    }
}

/// Stable retrieval counters exposed by audits.
#[derive(Debug, Clone, Copy, PartialEq, Eq, Structural)]
pub struct AuditRetrievalSummary {
    pub candidate_count: usize,
    pub hydrated_external_count: usize,
    pub pruned_feature_fanout_count: usize,
    pub heap_truncations: usize,
}

/// The retrieval counters of an audit.
pub fn audit_retrieval_summary(d: &RetrievalDiagnostics) -> (r: AuditRetrievalSummary)
    ensures
        r.candidate_count == d.candidate_count,
        r.hydrated_external_count == d.hydrated_external_count,
        r.pruned_feature_fanout_count == d.pruned_postings@.len(),
        r.heap_truncations == d.heap_truncations@.len(),
{
    AuditRetrievalSummary {
        candidate_count: d.candidate_count,
        hydrated_external_count: d.hydrated_external_count,
        pruned_feature_fanout_count: d.pruned_postings.len(),
        heap_truncations: d.heap_truncations.len(),
    }
}

/// Ranking counters exposed by audits.
#[derive(Debug, Clone, Copy, PartialEq, Eq, Structural)]
pub struct AuditReviewDiagnostics {
    pub candidate_pairs: usize,
    pub emitted_groups: usize,
    pub suppressed_groups: usize,
}

/// The ranking counters of an audit.
pub fn audit_review_diagnostics(d: &RankingDiagnostics) -> (r: AuditReviewDiagnostics)
    ensures
        r.candidate_pairs == d.candidate_pairs,
        r.emitted_groups == d.emitted_groups,
        r.suppressed_groups == d.suppressed_groups,
{
    AuditReviewDiagnostics {
        candidate_pairs: d.candidate_pairs,
        emitted_groups: d.emitted_groups,
        suppressed_groups: d.suppressed_groups,
    }
}

/// A caller reference as reports show it.
#[derive(Debug, Clone)]
pub struct AuditSourceReference {
    pub file: String,
    pub line: usize,
    pub column: usize,
    pub text: String,
}

/// A replacement hint as reports show it.
#[derive(Debug, Clone)]
pub struct AuditReplacementHint {
    pub target_decl: String,
    pub target_module: String,
    pub import_status: String,
    pub caller_count: usize,
    pub displayed_callers: Vec<AuditSourceReference>,
    pub notes: Vec<String>,
    pub blockers: Vec<String>,
}

/// The report form of a hint: the same facts, the import status by its
/// lower-case name.
pub open spec fn audit_hint_ok(a: AuditReplacementHint, h: ReplacementHint) -> bool {
    &&& a.target_decl@ == h.target_decl@
    &&& a.target_module@ == h.target_module@
    &&& a.import_status@ == crate::baseline::import_label(h.import_status)
    &&& a.caller_count == h.caller_count
    &&& a.displayed_callers@.len() == h.displayed_callers@.len()
    &&& forall|i: int|
        0 <= i < h.displayed_callers@.len() ==> (#[trigger] a.displayed_callers@[i]).file@ == h.displayed_callers@[i].file@
            && a.displayed_callers@[i].line == h.displayed_callers@[i].line && a.displayed_callers@[i].column
            == h.displayed_callers@[i].column && a.displayed_callers@[i].text@ == h.displayed_callers@[i].text@
    &&& a.notes@ == h.notes@
    &&& a.blockers@ == h.blockers@
}

/// The report form of a replacement hint.
pub fn audit_replacement_hint(h: &ReplacementHint) -> (a: AuditReplacementHint)
    ensures
        audit_hint_ok(a, *h),
{
    let mut callers: Vec<AuditSourceReference> = Vec::new();
    let mut i: usize = 0;
    while i < h.displayed_callers.len()
        invariant
            i <= h.displayed_callers@.len(),
            callers@.len() == i,
            forall|k: int|
                0 <= k < i ==> (#[trigger] callers@[k]).file@ == h.displayed_callers@[k].file@ && callers@[k].line
                    == h.displayed_callers@[k].line && callers@[k].column == h.displayed_callers@[k].column
                    && callers@[k].text@ == h.displayed_callers@[k].text@,
        decreases h.displayed_callers@.len() - i,
    {
        let c = &h.displayed_callers[i];
        callers.push(
            AuditSourceReference { file: c.file.clone(), line: c.line, column: c.column, text: c.text.clone() },
        );
        i = i + 1;
    }
    let import_status = match h.import_status {
        ImportStatus::Direct => "direct".to_owned(),
        ImportStatus::Missing => "missing".to_owned(),
        ImportStatus::Unknown => "unknown".to_owned(),
    };
    AuditReplacementHint {
        target_decl: h.target_decl.clone(),
        target_module: h.target_module.clone(),
        import_status,
        caller_count: h.caller_count,
        displayed_callers: callers,
        notes: clone_strings(&h.notes),
        blockers: clone_strings(&h.blockers),
    }
}

/// A baseline group as the diff output shows it.
#[derive(Debug)]
pub struct SearchBaselineGroup {
    pub id: String,
    pub relation: String,
    pub review_priority: String,
    pub recommended_action: String,
    pub member_ids: Vec<String>,
    pub evidence_summary: Vec<String>,
    pub evidence_digest: String,
}

/// A changed group as the diff output shows it.
#[derive(Debug)]
pub struct SearchBaselineChange {
    pub id: String,
    pub before: SearchBaselineGroup,
    pub after: SearchBaselineGroup,
}

/// A baseline diff as the diff output shows it.
#[derive(Debug)]
pub struct SearchBaselineDiff {
    pub baseline: String,
    pub baseline_path: String,
    pub appeared: Vec<SearchBaselineGroup>,
    pub disappeared: Vec<SearchBaselineGroup>,
    pub changed: Vec<SearchBaselineChange>,
}

/// The value of a reported baseline group.
pub open spec fn sbg_view(g: SearchBaselineGroup) -> (
    Seq<char>,
    Seq<char>,
    Seq<char>,
    Seq<char>,
    Seq<Seq<char>>,
    Seq<Seq<char>>,
    Seq<char>,
) {
    (
        g.id@,
        g.relation@,
        g.review_priority@,
        g.recommended_action@,
        views(g.member_ids@),
        views(g.evidence_summary@),
        g.evidence_digest@,
    )
}

/// The reported form of a baseline group (the same fields).
pub fn search_baseline_group(g: BaselineGroup) -> (r: SearchBaselineGroup)
    ensures
        sbg_view(r) == bg_view(g),
{
    SearchBaselineGroup {
        id: g.id,
        relation: g.relation,
        review_priority: g.review_priority,
        recommended_action: g.recommended_action,
        member_ids: g.member_ids,
        evidence_summary: g.evidence_summary,
        evidence_digest: g.evidence_digest,
    }
}

fn convert_groups(gs: Vec<BaselineGroup>) -> (r: Vec<SearchBaselineGroup>)
    ensures
        r@.len() == gs@.len(),
        forall|i: int| 0 <= i < gs@.len() ==> sbg_view(#[trigger] r@[i]) == bg_view(gs@[i]),
{
    let ghost given = gs@;
    let mut rest = gs;
    let mut out: Vec<SearchBaselineGroup> = Vec::new();
    let ghost mut taken: int = 0;
    while rest.len() > 0
        invariant
            0 <= taken,
            taken + rest@.len() == given.len(),
            rest@ == given.skip(taken),
            out@.len() == taken,
            forall|i: int| 0 <= i < taken ==> sbg_view(#[trigger] out@[i]) == bg_view(given[i]),
        decreases rest@.len(),
    {
        let g = rest.remove(0);
        proof {
            assert(given.skip(taken)[0] == given[taken]);
            assert(given.skip(taken).remove(0) =~= given.skip(taken + 1));
        }
        out.push(search_baseline_group(g));
        proof {
            taken = taken + 1;
        }
    }
    out
}

/// The reported form of a baseline diff: the same lists, in the same order.
pub fn search_baseline_diff(d: BaselineDiff) -> (r: SearchBaselineDiff)
    ensures
        r.baseline@ == d.baseline@,
        r.baseline_path@ == d.baseline_path@,
        r.appeared@.len() == d.appeared@.len(),
        forall|i: int| 0 <= i < d.appeared@.len() ==> sbg_view(#[trigger] r.appeared@[i]) == bg_view(d.appeared@[i]),
        r.disappeared@.len() == d.disappeared@.len(),
        forall|i: int|
            0 <= i < d.disappeared@.len() ==> sbg_view(#[trigger] r.disappeared@[i]) == bg_view(d.disappeared@[i]),
        r.changed@.len() == d.changed@.len(),
        forall|i: int|
            0 <= i < d.changed@.len() ==> (#[trigger] r.changed@[i]).id@ == d.changed@[i].id@ && sbg_view(
                r.changed@[i].before,
            ) == bg_view(d.changed@[i].before) && sbg_view(r.changed@[i].after) == bg_view(d.changed@[i].after),
{
    let BaselineDiff { baseline, baseline_path, appeared, disappeared, changed } = d;
    let appeared = convert_groups(appeared);
    let disappeared = convert_groups(disappeared);
    let ghost given = changed@;
    let mut rest = changed;
    let mut out: Vec<SearchBaselineChange> = Vec::new();
    let ghost mut taken: int = 0;
    while rest.len() > 0
        invariant
            0 <= taken,
            taken + rest@.len() == given.len(),
            rest@ == given.skip(taken),
            out@.len() == taken,
            forall|i: int|
                0 <= i < taken ==> (#[trigger] out@[i]).id@ == given[i].id@ && sbg_view(out@[i].before) == bg_view(
                    given[i].before,
                ) && sbg_view(out@[i].after) == bg_view(given[i].after),
        decreases rest@.len(),
    {
        let c = rest.remove(0);
        proof {
            assert(given.skip(taken)[0] == given[taken]);
            assert(given.skip(taken).remove(0) =~= given.skip(taken + 1));
        }
        let BaselineChange { id, before, after } = c;
        out.push(SearchBaselineChange { id, before: search_baseline_group(before), after: search_baseline_group(after) });
        proof {
            taken = taken + 1;
        }
    }
    SearchBaselineDiff { baseline, baseline_path, appeared, disappeared, changed: out }
}


/// A member as reports show it.
#[derive(Debug, Clone)]
pub struct AuditMember {
    pub declaration_id: String,
    pub origin: String,
    pub module: String,
    pub qualified_name: String,
    pub display_name: String,
    pub kind: String,
    pub visibility: String,
    pub source_span: Option<SourceSpan>,
    pub status_flags: Vec<String>,
}

/// An evidence item as reports show it, with its one-line summary; the
/// score is in millionths.
#[derive(Debug, Clone)]
pub struct AuditEvidence {
    pub kind: String,
    pub role: Option<String>,
    pub display: Option<String>,
    pub score: u64,
    pub summary: String,
}

/// A group as reports show it.
#[derive(Debug, Clone)]
pub struct AuditGroup {
    pub id: String,
    pub pair_id: String,
    pub relation: String,
    pub members: Vec<AuditMember>,
    pub evidence: Vec<AuditEvidence>,
    pub signals: Vec<String>,
    pub blockers: Vec<String>,
    pub confidence: String,
    pub review_priority: String,
    pub recommended_action: String,
    pub target_decl: Option<String>,
    pub target_module: Option<String>,
    pub evidence_mode: String,
    pub probe_summary: Option<String>,
    pub semantic_obligations: Vec<SearchSemanticObligationFact>,
    pub local_caller_count: usize,
    pub replacement_hint: Option<AuditReplacementHint>,
    pub visibility: AuditVisibility,
}

/// The report form of a member.
pub open spec fn audit_member_ok(a: AuditMember, m: ReviewMember) -> bool {
    &&& a.declaration_id@ == m.declaration_id@
    &&& a.origin@ == m.origin@
    &&& a.module@ == m.module@
    &&& a.qualified_name@ == m.qualified_name@
    &&& a.display_name@ == m.display_name@
    &&& a.kind@ == m.kind@
    &&& a.visibility@ == m.visibility@
    &&& a.source_span == m.source_span
    &&& a.status_flags@ == m.status_flags@
}

/// The report form of an evidence item.
pub open spec fn audit_evidence_ok(a: AuditEvidence, e: ReviewEvidence) -> bool {
    &&& a.kind@ == e.kind@
    &&& a.role == e.role
    &&& a.display == e.display
    &&& a.score == e.score
    &&& a.summary@ == evidence_summary(e)
}

/// The report form of a group under a filter: the same facts with
/// enumerations by their kebab-case names, and its visibility.
pub open spec fn audit_group_ok(a: AuditGroup, g: RankedGroup, f: ReviewFilter) -> bool {
    &&& a.id@ == g.id@
    &&& a.pair_id@ == g.pair_id@
    &&& a.relation@ == relation_label(g.relation)
    &&& a.members@.len() == g.members@.len()
    &&& forall|i: int| 0 <= i < g.members@.len() ==> audit_member_ok(#[trigger] a.members@[i], g.members@[i])
    &&& a.evidence@.len() == g.evidence@.len()
    &&& forall|i: int| 0 <= i < g.evidence@.len() ==> audit_evidence_ok(#[trigger] a.evidence@[i], g.evidence@[i])
    &&& a.signals@ == g.signals@
    &&& a.blockers@ == g.blockers@
    &&& a.confidence@ == confidence_label(g.confidence)
    &&& a.review_priority@ == priority_label(g.review_priority)
    &&& a.recommended_action@ == action_label(g.recommended_action)
    &&& a.target_decl == g.target_decl
    &&& a.target_module == g.target_module
    &&& a.evidence_mode@ == evidence_mode_label(g.evidence_mode)
    &&& a.probe_summary == g.probe_summary
    &&& a.semantic_obligations@ == g.semantic_obligations@
    &&& a.local_caller_count == g.local_caller_count
    &&& match (a.replacement_hint, g.replacement_hint) {
        (Some(x), Some(y)) => audit_hint_ok(x, y),
        (None, None) => true,
        _ => false,
    }
    &&& visibility_ok(a.visibility, g, f)
}

fn audit_member(m: &ReviewMember) -> (a: AuditMember)
    ensures
        audit_member_ok(a, *m),
{
    AuditMember {
        declaration_id: m.declaration_id.clone(),
        origin: m.origin.clone(),
        module: m.module.clone(),
        qualified_name: m.qualified_name.clone(),
        display_name: m.display_name.clone(),
        kind: m.kind.clone(),
        visibility: m.visibility.clone(),
        source_span: clone_span(&m.source_span),
        status_flags: clone_strings(&m.status_flags),
    }
}

/// The report form of a group.
pub fn audit_group(g: &RankedGroup, f: ReviewFilter) -> (a: AuditGroup)
    ensures
        audit_group_ok(a, *g, f),
{
    let mut members: Vec<AuditMember> = Vec::new();
    let mut i: usize = 0;
    while i < g.members.len()
        invariant
            i <= g.members@.len(),
            members@.len() == i,
            forall|k: int| 0 <= k < i ==> audit_member_ok(#[trigger] members@[k], g.members@[k]),
        decreases g.members@.len() - i,
    {
        members.push(audit_member(&g.members[i]));
        i = i + 1;
    }
    let mut evidence: Vec<AuditEvidence> = Vec::new();
    let mut j: usize = 0;
    while j < g.evidence.len()
        invariant
            j <= g.evidence@.len(),
            evidence@.len() == j,
            forall|k: int| 0 <= k < j ==> audit_evidence_ok(#[trigger] evidence@[k], g.evidence@[k]),
        decreases g.evidence@.len() - j,
    {
        let e = &g.evidence[j];
        evidence.push(
            AuditEvidence {
                kind: e.kind.clone(),
                role: clone_opt_string(&e.role),
                display: clone_opt_string(&e.display),
                score: e.score,
                summary: e.summary(),
            },
        );
        j = j + 1;
    }
    let mut obligations: Vec<SearchSemanticObligationFact> = Vec::new();
    let mut k: usize = 0;
    while k < g.semantic_obligations.len()
        invariant
            k <= g.semantic_obligations@.len(),
            obligations@ == g.semantic_obligations@.take(k as int),
        decreases g.semantic_obligations@.len() - k,
    {
        obligations.push(g.semantic_obligations[k]);
        assert(g.semantic_obligations@.take(k + 1) =~= g.semantic_obligations@.take(k as int).push(
            g.semantic_obligations@[k as int],
        ));
        k = k + 1;
    }
    assert(g.semantic_obligations@.take(g.semantic_obligations@.len() as int) =~= g.semantic_obligations@);
    let hint = match &g.replacement_hint {
        Some(h) => Some(audit_replacement_hint(h)),
        None => None,
    };
    AuditGroup {
        id: g.id.clone(),
        pair_id: g.pair_id.clone(),
        relation: g.relation.label().to_owned(),
        members,
        evidence,
        signals: clone_strings(&g.signals),
        blockers: clone_strings(&g.blockers),
        confidence: g.confidence.label().to_owned(),
        review_priority: g.review_priority.label().to_owned(),
        recommended_action: g.recommended_action.label().to_owned(),
        target_decl: clone_opt_string(&g.target_decl),
        target_module: clone_opt_string(&g.target_module),
        evidence_mode: g.evidence_mode.label().to_owned(),
        probe_summary: clone_opt_string(&g.probe_summary),
        semantic_obligations: obligations,
        local_caller_count: g.local_caller_count,
        replacement_hint: hint,
        visibility: audit_visibility(g, f),
    }
}

/// A review as reports show it: every group, with visibility.
#[derive(Debug, Clone)]
pub struct AuditReview {
    pub groups: Vec<AuditGroup>,
    pub suppressed_count: usize,
    pub diagnostics: AuditReviewDiagnostics,
}

/// The report form of a review under a filter.
pub fn audit_review(review: &RankedReview, f: ReviewFilter) -> (r: AuditReview)
    ensures
        r.groups@.len() == review.groups@.len(),
        forall|i: int| 0 <= i < review.groups@.len() ==> audit_group_ok(#[trigger] r.groups@[i], review.groups@[i], f),
        r.suppressed_count == review.suppressed@.len(),
        r.diagnostics.candidate_pairs == review.diagnostics.candidate_pairs,
        r.diagnostics.emitted_groups == review.diagnostics.emitted_groups,
        r.diagnostics.suppressed_groups == review.diagnostics.suppressed_groups,
{
    let mut groups: Vec<AuditGroup> = Vec::new();
    let mut i: usize = 0;
    while i < review.groups.len()
        invariant
            i <= review.groups@.len(),
            groups@.len() == i,
            forall|k: int| 0 <= k < i ==> audit_group_ok(#[trigger] groups@[k], review.groups@[k], f),
        decreases review.groups@.len() - i,
    {
        groups.push(audit_group(&review.groups[i], f));
        i = i + 1;
    }
    AuditReview {
        groups,
        suppressed_count: review.suppressed.len(),
        diagnostics: audit_review_diagnostics(&review.diagnostics),
    }
}

} // verus!
