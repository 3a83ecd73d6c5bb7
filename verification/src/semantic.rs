//! Semantic (Lean-probe) evidence and the versioned semantic-reranking facts
//! exposed to reports.
use vstd::prelude::*;

use crate::text::str_eq;

verus! {

/// Version of the search-owned semantic obligation policy.
pub const SEMANTIC_RERANKING_VERSION: &'static str = "lean-dup.semantic-reranking.v1";

/// Versioned semantic-reranking policy facts.
#[derive(Debug, Clone, Copy, PartialEq, Eq)]
pub struct SearchSemanticRerankingSummary {
    pub version: &'static str,
}

/// The current semantic-reranking facts.
pub fn semantic_reranking_summary() -> (r: SearchSemanticRerankingSummary)
    ensures
        r.version@ == SEMANTIC_RERANKING_VERSION@,
{
    SearchSemanticRerankingSummary { version: SEMANTIC_RERANKING_VERSION }
}

/// Stable proof-obligation classes.
#[derive(Debug, Clone, Copy, PartialEq, Eq, Structural)]
pub enum SearchSemanticObligationKind {
    ExactTheorem,
    PermutedTheorem,
    Replacement,
    ReducibleDefinition,
    Specialization,
    LocalDuplicate,
}

/// Declaration order of obligation kinds (the derived order).
pub open spec fn obligation_rank(k: SearchSemanticObligationKind) -> int {
    match k {
        SearchSemanticObligationKind::ExactTheorem => 0,
        SearchSemanticObligationKind::PermutedTheorem => 1,
        SearchSemanticObligationKind::Replacement => 2,
        SearchSemanticObligationKind::ReducibleDefinition => 3,
        SearchSemanticObligationKind::Specialization => 4,
        SearchSemanticObligationKind::LocalDuplicate => 5,
    }
}

pub fn obligation_rank_of(k: SearchSemanticObligationKind) -> (r: u8)
    ensures
        r == obligation_rank(k),
{
    match k {
        SearchSemanticObligationKind::ExactTheorem => 0,
        SearchSemanticObligationKind::PermutedTheorem => 1,
        SearchSemanticObligationKind::Replacement => 2,
        SearchSemanticObligationKind::ReducibleDefinition => 3,
        SearchSemanticObligationKind::Specialization => 4,
        SearchSemanticObligationKind::LocalDuplicate => 5,
    }
}

pub open spec fn obligation_label(k: SearchSemanticObligationKind) -> Seq<char> {
    match k {
        SearchSemanticObligationKind::ExactTheorem => "exact-theorem"@,
        SearchSemanticObligationKind::PermutedTheorem => "permuted-theorem"@,
        SearchSemanticObligationKind::Replacement => "replacement"@,
        SearchSemanticObligationKind::ReducibleDefinition => "reducible-definition"@,
        SearchSemanticObligationKind::Specialization => "specialization"@,
        SearchSemanticObligationKind::LocalDuplicate => "local-duplicate"@,
    }
}

impl SearchSemanticObligationKind {
    /// The default kind.
    pub fn default_kind() -> (r: SearchSemanticObligationKind)
        ensures
            r == SearchSemanticObligationKind::ExactTheorem,
    {
        SearchSemanticObligationKind::ExactTheorem
    }

    /// Stable kebab-case label.
    pub fn label(self) -> (r: &'static str)
        ensures
            r@ == obligation_label(self),
    {
        match self {
            SearchSemanticObligationKind::ExactTheorem => "exact-theorem",
            SearchSemanticObligationKind::PermutedTheorem => "permuted-theorem",
            SearchSemanticObligationKind::Replacement => "replacement",
            SearchSemanticObligationKind::ReducibleDefinition => "reducible-definition",
            SearchSemanticObligationKind::Specialization => "specialization",
            SearchSemanticObligationKind::LocalDuplicate => "local-duplicate",
        }
    }
}

/// Result status for one planned semantic obligation.
#[derive(Debug, Clone, Copy, PartialEq, Eq, Structural)]
pub enum SearchSemanticObligationStatus {
    Planned,
    Verified,
    Rejected,
    Unavailable,
    Cached,
}

/// Stable reasons for unavailable semantic obligations.
#[derive(Debug, Clone, Copy, PartialEq, Eq, Structural)]
pub enum SearchSemanticUnavailableReason {
    MissingDeclaration,
    Unsupported,
    OpaqueOrUnreducible,
    Timeout,
    InternalError,
    Unknown,
}

/// Aggregate yield counters for one obligation kind.
#[derive(Debug, Clone, Copy, PartialEq, Eq, Structural)]
pub struct SearchSemanticObligationYield {
    pub kind: SearchSemanticObligationKind,
    pub planned: usize,
    pub verified: usize,
    pub rejected: usize,
    pub unavailable: usize,
    pub cached: usize,
    pub worker_pairs: usize,
}

/// Per-pair semantic obligation fact.
#[derive(Debug, Clone, Copy, PartialEq, Eq, Structural)]
pub struct SearchSemanticObligationFact {
    pub kind: SearchSemanticObligationKind,
    pub status: SearchSemanticObligationStatus,
    pub unavailable_reason: Option<SearchSemanticUnavailableReason>,
}

/// The yields ordered by obligation kind, equal kinds keeping their order.
pub open spec fn yields_sorted(s: Seq<SearchSemanticObligationYield>) -> bool {
    forall|i: int, j: int|
        0 <= i < j < s.len() ==> obligation_rank(#[trigger] s[i].kind) <= obligation_rank(
            #[trigger] s[j].kind,
        )
}

/// Orders yields by obligation kind (a stable sort).
pub fn sorted_yield(yields: Vec<SearchSemanticObligationYield>) -> (r: Vec<
    SearchSemanticObligationYield,
>)
    ensures
        yields_sorted(r@),
        r@.to_multiset() == yields@.to_multiset(),
{
    let mut out: Vec<SearchSemanticObligationYield> = Vec::new();
    let mut i: usize = 0;
    broadcast use vstd::seq_lib::group_to_multiset_ensures;

    while i < yields.len()
        invariant
            i <= yields@.len(),
            yields_sorted(out@),
            out@.to_multiset() == yields@.take(i as int).to_multiset(),
        decreases yields@.len() - i,
    {
        let y = yields[i];
        let ry = obligation_rank_of(y.kind);
        let mut p: usize = out.len();
        while p > 0 && obligation_rank_of(out[p - 1].kind) > ry
            invariant
                p <= out@.len(),
                yields_sorted(out@),
                ry == obligation_rank(y.kind),
                forall|k: int| p <= k < out@.len() ==> obligation_rank(#[trigger] out@[k].kind) > ry,
            decreases p,
        {
            p = p - 1;
        }
        let ghost before = out@;
        out.insert(p, y);
        proof {
            assert(out@ =~= before.insert(p as int, y));
            before.insert_ensures(p as int, y);
            vstd::seq_lib::to_multiset_insert(before, p as int, y);
            assert(yields@.take(i + 1) =~= yields@.take(i as int).push(y));
            vstd::seq_lib::to_multiset_build(yields@.take(i as int), y);
        }
        i = i + 1;
    }
    assert(yields@.take(yields@.len() as int) =~= yields@);
    out
}

/// Kinds of semantic evidence a probe can establish.
#[derive(Debug, Clone, Copy, PartialEq, Eq, Structural)]
pub enum EvidenceKind {
    ExactTheorem,
    PermutedTheorem,
    Replacement,
    ReducibleDefinition,
    Specialization,
    LocalDuplicate,
    Unavailable,
}

/// Outcome of a semantic probe.
#[derive(Debug, Clone, Copy, PartialEq, Eq, Structural)]
pub enum EvidenceStatus {
    Verified,
    Rejected,
    Unavailable,
}

/// Semantic evidence for one candidate pair.
#[derive(Debug, Clone)]
pub struct SemanticEvidence {
    pub pair_id: String,
    pub kind: EvidenceKind,
    pub status: EvidenceStatus,
    pub obligation: SearchSemanticObligationKind,
    pub unavailable_reason: Option<SearchSemanticUnavailableReason>,
    pub summary: Option<String>,
}

/// The obligation fact a piece of evidence reports.
pub open spec fn obligation_fact(e: SemanticEvidence) -> SearchSemanticObligationFact {
    SearchSemanticObligationFact {
        kind: e.obligation,
        status: match e.status {
            EvidenceStatus::Verified => SearchSemanticObligationStatus::Verified,
            EvidenceStatus::Rejected => SearchSemanticObligationStatus::Rejected,
            EvidenceStatus::Unavailable => SearchSemanticObligationStatus::Unavailable,
        },
        unavailable_reason: e.unavailable_reason,
    }
}

impl SemanticEvidence {
    /// Lean verified the planned obligation.
    pub fn proof_grade(&self) -> (r: bool)
        ensures
            r == (self.status == EvidenceStatus::Verified),
    {
        self.status == EvidenceStatus::Verified
    }

    /// The stable per-pair obligation fact of this evidence.
    pub fn semantic_obligation_fact(&self) -> (r: SearchSemanticObligationFact)
        ensures
            r == obligation_fact(*self),
    {
        SearchSemanticObligationFact {
            kind: self.obligation,
            status: match self.status {
                EvidenceStatus::Verified => SearchSemanticObligationStatus::Verified,
                EvidenceStatus::Rejected => SearchSemanticObligationStatus::Rejected,
                EvidenceStatus::Unavailable => SearchSemanticObligationStatus::Unavailable,
            },
            unavailable_reason: self.unavailable_reason,
        }
    }
}

/// The first evidence recorded for `pair_id`.
pub open spec fn evidence_for(evs: Seq<SemanticEvidence>, pair_id: Seq<char>) -> Option<
    SemanticEvidence,
>
    decreases evs.len(),
{
    if evs.len() == 0 {
        None
    } else if evs[0].pair_id@ == pair_id {
        Some(evs[0])
    } else {
        evidence_for(evs.drop_first(), pair_id)
    }
}

/// Looks up the evidence recorded for `pair_id`.
pub fn find_evidence<'a>(evs: &'a Vec<SemanticEvidence>, pair_id: &str) -> (r: Option<
    &'a SemanticEvidence,
>)
    ensures
        r matches Some(e) ==> evidence_for(evs@, pair_id@) == Some(*e),
        r is None ==> evidence_for(evs@, pair_id@) is None,
{
    let mut i: usize = 0;
    assert(evs@.skip(0) =~= evs@);
    while i < evs.len()
        invariant
            i <= evs@.len(),
            evidence_for(evs@, pair_id@) == evidence_for(evs@.skip(i as int), pair_id@),
        decreases evs@.len() - i,
    {
        assert(evs@.skip(i as int).drop_first() =~= evs@.skip(i + 1));
        if str_eq(evs[i].pair_id.as_str(), pair_id) {
            return Some(&evs[i]);
        }
        i = i + 1;
    }
    None
}

} // verus!
