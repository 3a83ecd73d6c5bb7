//! Duplicate-declaration audit library: ranking, review policy, source facts,
//! baselines, worker DTOs and toolchain provisioning decisions.

pub mod text;
pub mod toolchain;
pub mod sets;
pub mod worker;
pub mod declaration;
pub mod semantic;
pub mod lean_text;
pub mod digest;
pub mod source_refs;
pub mod retrieval;
pub mod review_policy;
pub mod ranking;
pub mod replacement_hints;
pub mod baseline;
pub mod audit;
pub mod pair_features;
pub mod scorer;
pub mod vector;
pub mod vector_eligibility;
pub mod vector_documents;
pub mod vector_candidates;
pub mod vector_index;
pub mod vector_workload;
pub mod workspace_cleanup;
pub mod observation;
pub mod selection;
pub mod search_observation;
pub mod nearest;
pub mod source_fact_rows;
