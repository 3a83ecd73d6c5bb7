//! Vector-search validation requests: their builder, bounds and checks,
//! and the validation outcome.
use vstd::prelude::*;

use crate::text::{blank, concat, is_blank};

verus! {

/// Schema version of vector-search artifacts.
pub const VECTOR_SEARCH_SCHEMA_VERSION: &'static str = "lean-dup.vector-search.v3";

/// How model weights may be obtained.
#[derive(Debug, Clone, Copy, PartialEq, Eq, Structural)]
pub enum VectorAcquisitionPolicy {
    CacheOnly,
    DownloadIfMissing,
}

/// Resource bounds of one validation run.
#[derive(Debug, Clone, Copy, PartialEq, Eq, Structural)]
pub struct VectorValidationBounds {
    pub max_declarations: usize,
    pub max_queries: usize,
    pub max_runtime_ms: u128,
    pub max_rss_bytes: u64,
}

impl VectorValidationBounds {
    /// The default bounds: 5000 declarations, 1000 queries, 15 minutes,
    /// 8 GiB.
    pub fn default_bounds() -> (r: VectorValidationBounds)
        ensures
            r.max_declarations == 5_000,
            r.max_queries == 1_000,
            r.max_runtime_ms == 900_000,
            r.max_rss_bytes == 8589934592u64,
    {
        VectorValidationBounds {
            max_declarations: 5_000,
            max_queries: 1_000,
            max_runtime_ms: 900_000,
            max_rss_bytes: 8589934592,
        }
    }
}

/// One vector-validation run request.
#[derive(Debug, Clone)]
pub struct VectorValidationRequest {
    pub suite: String,
    pub workspace: Option<String>,
    pub mathlib_workspace: Option<String>,
    pub manual_module: Option<String>,
    pub profile_id: String,
    pub revision: Option<String>,
    pub acquisition_policy: VectorAcquisitionPolicy,
    pub input_format_id: String,
    pub document_policy_id: String,
    pub eligibility_policy_id: String,
    pub model_cache_root: Option<String>,
    pub text_vector_cache_root: Option<String>,
    pub corpus_cache_root: String,
    pub artifact_root: Option<String>,
    pub k_values: Vec<usize>,
    pub bounds: VectorValidationBounds,
}

impl VectorValidationRequest {
    /// A request with the stable defaults.
    pub fn new(suite: String, corpus_cache_root: String) -> (r: VectorValidationRequest)
        ensures
            r.suite@ == suite@,
            r.corpus_cache_root@ == corpus_cache_root@,
            r.workspace is None,
            r.mathlib_workspace is None,
            r.manual_module is None,
            r.profile_id@ == "bge-small-en-v1.5"@,
            r.revision is None,
            r.acquisition_policy == VectorAcquisitionPolicy::CacheOnly,
            r.input_format_id@ == "asymmetric-query-document"@,
            r.document_policy_id@ == "name-and-statement"@,
            r.eligibility_policy_id@ == "actionable-public-statement"@,
            r.model_cache_root is None,
            r.text_vector_cache_root is None,
            r.artifact_root is None,
            r.k_values@ == seq![1usize, 5, 10],
            r.bounds == VectorValidationBounds::default_bounds_spec(),
    {
        let mut k_values: Vec<usize> = Vec::new();
        k_values.push(1);
        k_values.push(5);
        k_values.push(10);
        assert(k_values@ =~= seq![1usize, 5, 10]);
        VectorValidationRequest {
            suite,
            workspace: None,
            mathlib_workspace: None,
            manual_module: None,
            profile_id: "bge-small-en-v1.5".to_owned(),
            revision: None,
            acquisition_policy: VectorAcquisitionPolicy::CacheOnly,
            input_format_id: "asymmetric-query-document".to_owned(),
            document_policy_id: "name-and-statement".to_owned(),
            eligibility_policy_id: "actionable-public-statement".to_owned(),
            model_cache_root: None,
            text_vector_cache_root: None,
            corpus_cache_root,
            artifact_root: None,
            k_values,
            bounds: VectorValidationBounds::default_bounds(),
        }
    }

    /// With a workspace.
    pub fn with_workspace(self, workspace: Option<String>) -> (r: VectorValidationRequest)
        ensures
            r == (VectorValidationRequest { workspace, ..self }),
    {
        VectorValidationRequest { workspace, ..self }
    }

    /// With a Mathlib workspace.
    pub fn with_mathlib_workspace(self, mathlib_workspace: Option<String>) -> (r: VectorValidationRequest)
        ensures
            r == (VectorValidationRequest { mathlib_workspace, ..self }),
    {
        VectorValidationRequest { mathlib_workspace, ..self }
    }

    /// With a manual module.
    pub fn with_manual_module(self, manual_module: Option<String>) -> (r: VectorValidationRequest)
        ensures
            r == (VectorValidationRequest { manual_module, ..self }),
    {
        VectorValidationRequest { manual_module, ..self }
    }

    /// With a model profile and revision.
    pub fn with_profile(self, profile_id: String, revision: Option<String>) -> (r: VectorValidationRequest)
        ensures
            r == (VectorValidationRequest { profile_id, revision, ..self }),
    {
        VectorValidationRequest { profile_id, revision, ..self }
    }

    /// With an acquisition policy.
    pub fn with_acquisition_policy(self, acquisition_policy: VectorAcquisitionPolicy) -> (r: VectorValidationRequest)
        ensures
            r == (VectorValidationRequest { acquisition_policy, ..self }),
    {
        VectorValidationRequest { acquisition_policy, ..self }
    }

    /// With an input format.
    pub fn with_input_format(self, input_format_id: String) -> (r: VectorValidationRequest)
        ensures
            r == (VectorValidationRequest { input_format_id, ..self }),
    {
        VectorValidationRequest { input_format_id, ..self }
    }

    /// With a document policy.
    pub fn with_document_policy(self, document_policy_id: String) -> (r: VectorValidationRequest)
        ensures
            r == (VectorValidationRequest { document_policy_id, ..self }),
    {
        VectorValidationRequest { document_policy_id, ..self }
    }

    /// With an eligibility policy.
    pub fn with_eligibility_policy(self, eligibility_policy_id: String) -> (r: VectorValidationRequest)
        ensures
            r == (VectorValidationRequest { eligibility_policy_id, ..self }),
    {
        VectorValidationRequest { eligibility_policy_id, ..self }
    }

    /// With a model cache root.
    pub fn with_model_cache_root(self, model_cache_root: Option<String>) -> (r: VectorValidationRequest)
        ensures
            r == (VectorValidationRequest { model_cache_root, ..self }),
    {
        VectorValidationRequest { model_cache_root, ..self }
    }

    /// With a text-vector cache root.
    pub fn with_text_vector_cache_root(self, text_vector_cache_root: Option<String>) -> (r: VectorValidationRequest)
        ensures
            r == (VectorValidationRequest { text_vector_cache_root, ..self }),
    {
        VectorValidationRequest { text_vector_cache_root, ..self }
    }

    /// With an artifact root.
    pub fn with_artifact_root(self, artifact_root: Option<String>) -> (r: VectorValidationRequest)
        ensures
            r == (VectorValidationRequest { artifact_root, ..self }),
    {
        VectorValidationRequest { artifact_root, ..self }
    }

    /// With the ranks at which recall is measured.
    pub fn with_k_values(self, k_values: Vec<usize>) -> (r: VectorValidationRequest)
        ensures
            r == (VectorValidationRequest { k_values, ..self }),
    {
        VectorValidationRequest { k_values, ..self }
    }

    /// With resource bounds.
    pub fn with_bounds(self, bounds: VectorValidationBounds) -> (r: VectorValidationRequest)
        ensures
            r == (VectorValidationRequest { bounds, ..self }),
    {
        VectorValidationRequest { bounds, ..self }
    }

    /// The suite id.
    pub fn suite(&self) -> (r: &str)
        ensures
            r@ == self.suite@,
    {
        self.suite.as_str()
    }

    /// Where artifacts go: the configured root, else `default_root`.
    pub fn artifact_root_or(&self, default_root: &str) -> (r: String)
        ensures
            r@ == match self.artifact_root {
                Some(a) => a@,
                None => default_root@,
            },
    {
        match &self.artifact_root {
            Some(a) => a.clone(),
            None => default_root.to_owned(),
        }
    }
}

impl VectorValidationBounds {
    pub open spec fn default_bounds_spec() -> VectorValidationBounds {
        VectorValidationBounds {
            max_declarations: 5_000,
            max_queries: 1_000,
            max_runtime_ms: 900_000,
            max_rss_bytes: 8589934592u64,
        }
    }
}

/// A request the validation workflow refuses, with the reason.
#[derive(Debug)]
pub struct InvalidVectorRequest {
    pub message: String,
}

/// The first required id of a request that is blank, by its field name.
pub open spec fn first_blank_field(r: VectorValidationRequest) -> Option<Seq<char>> {
    if is_blank(r.suite@) {
        Some("suite id"@)
    } else if is_blank(r.profile_id@) {
        Some("profile id"@)
    } else if is_blank(r.input_format_id@) {
        Some("input format id"@)
    } else if is_blank(r.document_policy_id@) {
        Some("document policy id"@)
    } else if is_blank(r.eligibility_policy_id@) {
        Some("eligibility policy id"@)
    } else {
        None
    }
}

/// Checks a request: every id must be non-blank and the bounds must allow at
/// least one declaration and one query.
pub fn validate_request(r: &VectorValidationRequest) -> (res: Result<(), InvalidVectorRequest>)
    ensures
        match res {
            Ok(()) => first_blank_field(*r) is None && r.bounds.max_declarations > 0 && r.bounds.max_queries > 0,
            Err(e) => match first_blank_field(*r) {
                Some(f) => e.message@ == f + " is empty"@,
                None => (r.bounds.max_declarations == 0 || r.bounds.max_queries == 0) && e.message@
                    == "validation bounds must allow at least one declaration and one query"@,
            },
        },
{
    if blank(r.suite.as_str()) {
        return Err(InvalidVectorRequest { message: concat("suite id", " is empty") });
    }
    if blank(r.profile_id.as_str()) {
        return Err(InvalidVectorRequest { message: concat("profile id", " is empty") });
    }
    if blank(r.input_format_id.as_str()) {
        return Err(InvalidVectorRequest { message: concat("input format id", " is empty") });
    }
    if blank(r.document_policy_id.as_str()) {
        return Err(InvalidVectorRequest { message: concat("document policy id", " is empty") });
    }
    if blank(r.eligibility_policy_id.as_str()) {
        return Err(InvalidVectorRequest { message: concat("eligibility policy id", " is empty") });
    }
    if r.bounds.max_declarations == 0 || r.bounds.max_queries == 0 {
        return Err(
            InvalidVectorRequest {
                message: "validation bounds must allow at least one declaration and one query".to_owned(),
            },
        );
    }
    Ok(())
}

/// Status of a validation run.
#[derive(Debug, Clone, Copy, PartialEq, Eq, Structural)]
pub enum VectorValidationStatus {
    Skipped,
    Failed,
    /// The run completed (serialised as `ok`).
    Passed,
}

/// Outcome of a validation run.
#[derive(Debug, Clone)]
pub struct VectorValidationOutcome {
    pub schema_version: &'static str,
    pub status: VectorValidationStatus,
    pub suite: String,
    pub artifact: Option<String>,
    pub reason: Option<String>,
}

} // verus!
