//! What candidate retrieval hands to ranking: per-anchor candidate sets with
//! their key contributions, and the retrieval diagnostics reported next to
//! them.
//!
//! Scores are carried in millionths (a score of 24.0 is `24_000_000`).
use vstd::prelude::*;

use crate::declaration::HydratedDeclaration;
use crate::text::{concat3, str_eq};

verus! {

/// Identifier of the fan-out policy that bounds retrieval.
pub const FANOUT_POLICY_ID: &'static str = "lean-dup.fanout-policy.v1";

/// Candidates kept per workspace declaration by the symbolic lane.
pub const TOP_K_PER_WORKSPACE_DECLARATION: usize = 80;

/// Candidates kept per workspace declaration by each semantic lane.
pub const SEMANTIC_LANE_TOP_K_PER_WORKSPACE_DECLARATION: usize = 24;

/// Largest role-feature posting that is expanded.
pub const ROLE_POSTING_LIMIT: usize = 512;

/// Largest broad-head posting that is expanded.
pub const BROAD_HEAD_POSTING_LIMIT: usize = 64;

/// One semantic key contribution to a retrieved candidate.
#[derive(Debug, Clone)]
pub struct KeyContribution {
    pub kind: String,
    pub role: Option<String>,
    pub display: Option<String>,
    pub key: String,
    /// Contribution score in millionths.
    pub score: u64,
}

/// Why retrieval selected a candidate.
#[derive(Debug, Clone)]
pub struct CandidateExplanation {
    pub contributions: Vec<KeyContribution>,
}

/// One candidate declaration selected for a workspace declaration.
#[derive(Debug, Clone)]
pub struct RetrievedCandidate {
    pub pair_id: String,
    pub declaration: HydratedDeclaration,
    /// Retrieval score in millionths; only an ordering signal.
    pub score: u64,
    pub explanation: CandidateExplanation,
}

/// Retrieved candidates for one workspace declaration.
#[derive(Debug, Clone)]
pub struct CandidateSet {
    pub anchor: HydratedDeclaration,
    pub candidates: Vec<RetrievedCandidate>,
}

/// The fan-out bounds retrieval applied.
#[derive(Debug, Clone)]
pub struct FanoutPolicySummary {
    pub policy_id: String,
    pub symbolic_top_k_per_anchor: usize,
    pub semantic_lane_top_k_per_anchor: usize,
    pub role_posting_limit: usize,
    pub broad_head_posting_limit: usize,
}

impl FanoutPolicySummary {
    /// The bounds in force.
    pub fn current() -> (r: FanoutPolicySummary)
        ensures
            r.policy_id@ == FANOUT_POLICY_ID@,
            r.symbolic_top_k_per_anchor == TOP_K_PER_WORKSPACE_DECLARATION,
            r.semantic_lane_top_k_per_anchor == SEMANTIC_LANE_TOP_K_PER_WORKSPACE_DECLARATION,
            r.role_posting_limit == ROLE_POSTING_LIMIT,
            r.broad_head_posting_limit == BROAD_HEAD_POSTING_LIMIT,
    {
        FanoutPolicySummary {
            policy_id: FANOUT_POLICY_ID.to_owned(),
            symbolic_top_k_per_anchor: TOP_K_PER_WORKSPACE_DECLARATION,
            semantic_lane_top_k_per_anchor: SEMANTIC_LANE_TOP_K_PER_WORKSPACE_DECLARATION,
            role_posting_limit: ROLE_POSTING_LIMIT,
            broad_head_posting_limit: BROAD_HEAD_POSTING_LIMIT,
        }
    }
}

/// A semantic posting that retrieval chose not to expand.
#[derive(Debug, Clone)]
pub struct PrunedPosting {
    pub anchor_declaration_id: String,
    pub source: String,
    pub reason: String,
    pub kind: String,
    pub role: Option<String>,
    pub display: Option<String>,
    pub count: usize,
}

/// A broad semantic feature fan-out that candidate generation did not expand.
#[derive(Debug, Clone)]
pub struct PrunedFeatureFanout {
    pub policy: String,
    pub source: String,
    pub reason: String,
    pub feature_family: String,
    pub count: usize,
}

/// Per-anchor count of lower-scoring candidates dropped from the bounded set.
#[derive(Debug, Clone)]
pub struct HeapTruncation {
    pub anchor_declaration_id: String,
    pub dropped_count: usize,
}

/// A count recorded under a string key.
#[derive(Debug, Clone)]
pub struct NamedCount {
    pub name: String,
    pub count: usize,
}

/// Retrieval-level counters and pruning records.
#[derive(Debug, Clone)]
pub struct RetrievalDiagnostics {
    pub fanout_policy: FanoutPolicySummary,
    pub candidate_count: usize,
    pub generated_candidate_count: usize,
    pub ranked_candidate_count: usize,
    pub hydrated_external_count: usize,
    pub pruned_postings: Vec<PrunedPosting>,
    pub pruned_feature_fanouts: Vec<PrunedFeatureFanout>,
    pub heap_truncations: Vec<HeapTruncation>,
    pub candidate_count_by_generation_policy: Vec<NamedCount>,
    pub top_k_saturation_by_source_id: Vec<NamedCount>,
}

/// The pair identifier of an anchor and a candidate: both declaration ids
/// joined by `::`.
pub open spec fn pair_id_of(anchor: Seq<char>, candidate: Seq<char>) -> Seq<char> {
    anchor + "::"@ + candidate
}

/// The pair identifier of an anchor and a candidate.
pub fn pair_id(anchor: &HydratedDeclaration, candidate: &HydratedDeclaration) -> (r: String)
    ensures
        r@ == pair_id_of(anchor.declaration_id@, candidate.declaration_id@),
{
    concat3(anchor.declaration_id.as_str(), "::", candidate.declaration_id.as_str())
}

/// The feature family a contribution belongs to.
pub open spec fn feature_family_of(kind: Seq<char>, role: Option<Seq<char>>) -> Seq<char> {
    if kind == "statement-fingerprint"@ {
        "statement_fingerprint"@
    } else if kind == "safe-permutation-fingerprint"@ {
        "safe_permutation_fingerprint"@
    } else if kind == "connective-fingerprint"@ {
        "connective_fingerprint"@
    } else if kind == "conclusion-fingerprint"@ {
        "conclusion_fingerprint"@
    } else if kind == "role-feature"@ {
        match role {
            Some(r) => if r == "conclusion_const"@ {
                "role_conclusion_const"@
            } else if r == "hypothesis_const"@ {
                "role_hypothesis_const"@
            } else if r == "conclusion_head"@ || r == "hypothesis_head"@ || r == "binder_domain_head"@ {
                "role_head"@
            } else {
                "role_other"@
            },
            None => "role_other"@,
        }
    } else {
        "other"@
    }
}

impl KeyContribution {
    /// The feature family of this contribution.
    pub fn feature_family(&self) -> (r: String)
        ensures
            r@ == feature_family_of(self.kind@, crate::text::opt_view(self.role)),
    {
        let k = self.kind.as_str();
        if str_eq(k, "statement-fingerprint") {
            "statement_fingerprint".to_owned()
        } else if str_eq(k, "safe-permutation-fingerprint") {
            "safe_permutation_fingerprint".to_owned()
        } else if str_eq(k, "connective-fingerprint") {
            "connective_fingerprint".to_owned()
        } else if str_eq(k, "conclusion-fingerprint") {
            "conclusion_fingerprint".to_owned()
        } else if str_eq(k, "role-feature") {
            match &self.role {
                Some(r) => {
                    let r = r.as_str();
                    if str_eq(r, "conclusion_const") {
                        "role_conclusion_const".to_owned()
                    } else if str_eq(r, "hypothesis_const") {
                        "role_hypothesis_const".to_owned()
                    } else if str_eq(r, "conclusion_head") || str_eq(r, "hypothesis_head") || str_eq(
                        r,
                        "binder_domain_head",
                    ) {
                        "role_head".to_owned()
                    } else {
                        "role_other".to_owned()
                    }
                },
                None => "role_other".to_owned(),
            }
        } else {
            "other".to_owned()
        }
    }
}

} // verus!
