//! Ranking: turning retrieved candidate pairs into review groups with a
//! relation, blockers, a priority, a confidence and a recommended action,
//! then ordering the queue.
use vstd::prelude::*;

use crate::declaration::{policy_mode, ComparisonEvidenceMode, ComparisonEvidencePolicy, HydratedDeclaration};
use crate::digest::{hex_bytes, hex_of, sha256, sha256_digest};
use crate::retrieval::{CandidateSet, KeyContribution, RetrievedCandidate};
use crate::review_policy::{has_contribution, has_kind, theorem_like, theorem_like_spec, visibility_blocker_set, visibility_blockers};
use crate::semantic::{
    evidence_for, find_evidence, obligation_fact, EvidenceKind, EvidenceStatus, SearchSemanticObligationFact,
    SemanticEvidence,
};
use crate::sets::{clone_strings, contains_str, is_ordered_set, set_extend, set_insert, set_new, sorted_strict, views};
use crate::source_refs::{decl_fact, import_status, ImportStatus, SourceFacts};
use crate::text::{concat, lex_le, lex_lt, opt_view, push_decimal, push_three_digits, decimal, digit_char, str_eq, str_lt};
use crate::worker::{clone_opt_string, clone_span, SourceSpan};
use crate::replacement_hints::ReplacementHint;

verus! {

/// Relation selected as the strongest explanation for a group, strongest
/// first.
#[derive(Debug, Clone, Copy, PartialEq, Eq, Structural)]
pub enum ReviewRelation {
    ExactStatement,
    PermutedStatement,
    ConnectiveEquivalent,
    Specialization,
    SourceClone,
    SubsumptionCandidate,
    NearStatement,
}

/// Position of a relation in declaration order (its derived order).
pub open spec fn relation_rank(r: ReviewRelation) -> int {
    match r {
        ReviewRelation::ExactStatement => 0,
        ReviewRelation::PermutedStatement => 1,
        ReviewRelation::ConnectiveEquivalent => 2,
        ReviewRelation::Specialization => 3,
        ReviewRelation::SourceClone => 4,
        ReviewRelation::SubsumptionCandidate => 5,
        ReviewRelation::NearStatement => 6,
    }
}

/// Kebab-case name of a relation.
pub open spec fn relation_label(r: ReviewRelation) -> Seq<char> {
    match r {
        ReviewRelation::ExactStatement => "exact-statement"@,
        ReviewRelation::PermutedStatement => "permuted-statement"@,
        ReviewRelation::ConnectiveEquivalent => "connective-equivalent"@,
        ReviewRelation::Specialization => "specialization"@,
        ReviewRelation::SourceClone => "source-clone"@,
        ReviewRelation::SubsumptionCandidate => "subsumption-candidate"@,
        ReviewRelation::NearStatement => "near-statement"@,
    }
}

impl ReviewRelation {
    /// Kebab-case name of the relation.
    pub fn label(self) -> (r: &'static str)
        ensures
            r@ == relation_label(self),
    {
        match self {
            ReviewRelation::ExactStatement => "exact-statement",
            ReviewRelation::PermutedStatement => "permuted-statement",
            ReviewRelation::ConnectiveEquivalent => "connective-equivalent",
            ReviewRelation::Specialization => "specialization",
            ReviewRelation::SourceClone => "source-clone",
            ReviewRelation::SubsumptionCandidate => "subsumption-candidate",
            ReviewRelation::NearStatement => "near-statement",
        }
    }
}

/// Recommended cleanup or review action.
#[derive(Debug, Clone, Copy, PartialEq, Eq, Structural)]
pub enum ReviewAction {
    AlreadyInMathlib,
    LocalAlias,
    ReplaceLocalUses,
    InlinePrivateHelper,
    MergeGeneralization,
    SpecializationOf,
    ProbableSourceClone,
    ManualReview,
}

/// Confidence tier for queue ordering and default filtering; higher tiers
/// first.
#[derive(Debug, Clone, Copy, PartialEq, Eq, Structural)]
pub enum ConfidenceTier {
    High,
    Medium,
    Low,
    Noise,
}

/// Position of a confidence tier in declaration order.
pub open spec fn confidence_rank(c: ConfidenceTier) -> int {
    match c {
        ConfidenceTier::High => 0,
        ConfidenceTier::Medium => 1,
        ConfidenceTier::Low => 2,
        ConfidenceTier::Noise => 3,
    }
}

/// Review priority. Earlier variants sort first and pass stricter filters.
#[derive(Debug, Clone, Copy, PartialEq, Eq, Structural)]
pub enum ReviewPriority {
    High,
    Medium,
    Low,
    Noise,
}

/// Position of a priority in declaration order.
pub open spec fn priority_rank(p: ReviewPriority) -> int {
    match p {
        ReviewPriority::High => 0,
        ReviewPriority::Medium => 1,
        ReviewPriority::Low => 2,
        ReviewPriority::Noise => 3,
    }
}

fn priority_rank_of(p: ReviewPriority) -> (r: u8)
    ensures
        r == priority_rank(p),
{
    match p {
        ReviewPriority::High => 0,
        ReviewPriority::Medium => 1,
        ReviewPriority::Low => 2,
        ReviewPriority::Noise => 3,
    }
}

fn confidence_rank_of(c: ConfidenceTier) -> (r: u8)
    ensures
        r == confidence_rank(c),
{
    match c {
        ConfidenceTier::High => 0,
        ConfidenceTier::Medium => 1,
        ConfidenceTier::Low => 2,
        ConfidenceTier::Noise => 3,
    }
}

/// Whether a ranked group rests on static or proof-grade comparison evidence.
#[derive(Debug, Clone, Copy, PartialEq, Eq, Structural)]
pub enum ReviewEvidenceMode {
    Static,
    SourceBackedNotImportable,
    ProofGrade,
}

/// Declaration facts exposed to review output.
#[derive(Debug, Clone)]
pub struct ReviewMember {
    pub declaration_id: String,
    pub origin: String,
    pub module: String,
    pub qualified_name: String,
    pub display_name: String,
    pub kind: String,
    pub visibility: String,
    pub source_span: Option<SourceSpan>,
    pub status_flags: Vec<String>,
}

/// The member copies exactly these facts of the declaration.
pub open spec fn member_of(m: ReviewMember, d: HydratedDeclaration) -> bool {
    &&& m.declaration_id@ == d.declaration_id@
    &&& m.origin@ == d.origin@
    &&& m.module@ == d.module@
    &&& m.qualified_name@ == d.qualified_name@
    &&& m.display_name@ == d.display_name@
    &&& m.kind@ == d.kind@
    &&& m.visibility@ == d.visibility@
    &&& m.source_span == d.source_span
    &&& m.status_flags@ == d.status_flags@
}

/// The review facts of a declaration.
pub fn member(d: &HydratedDeclaration) -> (m: ReviewMember)
    ensures
        member_of(m, *d),
{
    ReviewMember {
        declaration_id: d.declaration_id.clone(),
        origin: d.origin.clone(),
        module: d.module.clone(),
        qualified_name: d.qualified_name.clone(),
        display_name: d.display_name.clone(),
        kind: d.kind.clone(),
        visibility: d.visibility.clone(),
        source_span: clone_span(&d.source_span),
        status_flags: clone_strings(&d.status_flags),
    }
}

/// One typed evidence item supporting a ranked group; the score is in
/// millionths.
#[derive(Debug, Clone)]
pub struct ReviewEvidence {
    pub kind: String,
    pub role: Option<String>,
    pub display: Option<String>,
    pub score: u64,
}

/// A score in millionths written with three decimals, rounding the fourth
/// decimal half up.
pub open spec fn score_text(score: nat) -> Seq<char> {
    let t = (score + 500) / 1000;
    let frac = t % 1000;
    decimal(t / 1000) + seq!['.'] + seq![
        digit_char((frac / 100) as int),
        digit_char(((frac / 10) % 10) as int),
        digit_char((frac % 10) as int),
    ]
}

/// `"-"` for a missing value.
pub open spec fn or_dash(o: Option<String>) -> Seq<char> {
    match o {
        Some(s) => s@,
        None => "-"@,
    }
}

/// One-line text of an evidence item.
pub open spec fn evidence_summary(e: ReviewEvidence) -> Seq<char> {
    "evidence="@ + e.kind@ + " role="@ + or_dash(e.role) + " display="@ + or_dash(e.display) + " score="@
        + score_text(e.score as nat)
}

impl ReviewEvidence {
    /// `evidence=<kind> role=<role|-> display=<display|-> score=<x.xxx>`.
    pub fn summary(&self) -> (r: String)
        ensures
            r@ == evidence_summary(*self),
    {
        let mut r = concat("evidence=", self.kind.as_str());
        r.append(" role=");
        match &self.role {
            Some(v) => r.append(v.as_str()),
            None => r.append("-"),
        }
        r.append(" display=");
        match &self.display {
            Some(v) => r.append(v.as_str()),
            None => r.append("-"),
        }
        r.append(" score=");
        let t = self.score / 1000 + if self.score % 1000 >= 500 {
            1
        } else {
            0
        };
        proof {
            assert(t == (self.score + 500) / 1000) by (nonlinear_arith)
                requires
                    t == self.score / 1000 + if self.score % 1000 >= 500 {
                        1int
                    } else {
                        0int
                    },
            ;
        }
        push_decimal(&mut r, t / 1000);
        r.append(".");
        push_three_digits(&mut r, t % 1000);
        proof {
            reveal_strlit(".");
            assert("."@ =~= seq!['.']);
        }
        r
    }
}

/// A weaker relation hidden because a stronger relation covers the same pair.
#[derive(Debug, Clone)]
pub struct SuppressedGroup {
    pub pair_id: String,
    pub suppressed_relation: ReviewRelation,
    pub covered_by: ReviewRelation,
    pub reason: String,
}

/// Ranking counters.
#[derive(Debug, Clone, Copy, PartialEq, Eq, Structural)]
pub struct RankingDiagnostics {
    pub candidate_pairs: usize,
    pub emitted_groups: usize,
    pub suppressed_groups: usize,
}

/// Tunable ranking defaults owned by search policy.
#[derive(Debug, Clone, Copy, PartialEq, Eq, Structural)]
pub struct RankingProfile {
    /// Scores below this (in millionths) rank low.
    pub min_near_score: u64,
    /// Exact local duplicates with fewer callers than this are replaced at
    /// their call sites instead of aliased.
    pub transitional_alias_callers: usize,
}

/// Score (millionths) from which a pair counts as a near match.
pub const NEAR_SCORE: u64 = 24_000_000;

/// Caller count below which replacing local uses beats an alias.
pub const TRANSITIONAL_ALIAS_CALLERS: usize = 8;

impl RankingProfile {
    /// The scorer's thresholds.
    pub fn default_profile() -> (r: RankingProfile)
        ensures
            r.min_near_score == NEAR_SCORE,
            r.transitional_alias_callers == TRANSITIONAL_ALIAS_CALLERS,
    {
        RankingProfile { min_near_score: NEAR_SCORE, transitional_alias_callers: TRANSITIONAL_ALIAS_CALLERS }
    }
}


/// Policy input for turning retrieved candidates into review groups. The
/// semantic evidence is looked up by pair id.
#[derive(Debug)]
pub struct RankingInput {
    pub candidate_sets: Vec<CandidateSet>,
    pub semantic_evidence: Vec<SemanticEvidence>,
    pub source_facts: SourceFacts,
    pub profile: RankingProfile,
    pub comparison_policy: ComparisonEvidencePolicy,
}

/// One ranked candidate group ready for review or rendering.
#[derive(Debug, Clone)]
pub struct RankedGroup {
    pub id: String,
    pub pair_id: String,
    pub relation: ReviewRelation,
    pub members: Vec<ReviewMember>,
    pub evidence: Vec<ReviewEvidence>,
    pub signals: Vec<String>,
    pub blockers: Vec<String>,
    pub confidence: ConfidenceTier,
    pub review_priority: ReviewPriority,
    pub recommended_action: ReviewAction,
    pub target_decl: Option<String>,
    pub target_module: Option<String>,
    pub evidence_mode: ReviewEvidenceMode,
    pub probe_summary: Option<String>,
    pub semantic_obligations: Vec<SearchSemanticObligationFact>,
    pub local_caller_count: usize,
    pub replacement_hint: Option<ReplacementHint>,
}

// ---------------------------------------------------------------------------
// The decisions, stated over the inputs.

/// The semantic evidence recorded for the candidate's pair.
pub open spec fn sem_of(input: RankingInput, c: RetrievedCandidate) -> Option<SemanticEvidence> {
    evidence_for(input.semantic_evidence@, c.pair_id@)
}

/// Lean verified this kind of evidence for the pair.
pub open spec fn verified_kind_spec(s: Option<SemanticEvidence>, k: EvidenceKind) -> bool {
    match s {
        Some(e) => e.kind == k && e.status == EvidenceStatus::Verified,
        None => false,
    }
}

/// The evidence is proof-grade.
pub open spec fn proof_grade_opt(s: Option<SemanticEvidence>) -> bool {
    match s {
        Some(e) => e.status == EvidenceStatus::Verified,
        None => false,
    }
}

/// The source fingerprint recorded for a declaration.
pub open spec fn fingerprint_of_decl(facts: SourceFacts, id: Seq<char>) -> Option<Seq<char>> {
    match decl_fact(facts.declarations@, id) {
        Some(f) => opt_view(f.source_fingerprint),
        None => None,
    }
}

/// Both declarations have the same non-empty source fingerprint.
pub open spec fn source_clone_spec(a: HydratedDeclaration, b: HydratedDeclaration, facts: SourceFacts) -> bool {
    match (fingerprint_of_decl(facts, a.declaration_id@), fingerprint_of_decl(facts, b.declaration_id@)) {
        (Some(x), Some(y)) => x.len() > 0 && x == y,
        _ => false,
    }
}

/// One of the two declarations comes from Mathlib.
pub open spec fn has_mathlib_spec(a: HydratedDeclaration, b: HydratedDeclaration) -> bool {
    a.origin@ == "mathlib"@ || b.origin@ == "mathlib"@
}

/// The comparison policy asks for proof-grade evidence for either origin.
pub open spec fn semantic_required_spec(a: HydratedDeclaration, b: HydratedDeclaration, pol: ComparisonEvidencePolicy) -> bool {
    policy_mode(pol.origins@, a.origin@) == ComparisonEvidenceMode::ProofGrade || policy_mode(
        pol.origins@,
        b.origin@,
    ) == ComparisonEvidenceMode::ProofGrade
}

/// The evidence mode of a group.
pub open spec fn evidence_mode_spec(
    a: HydratedDeclaration,
    b: HydratedDeclaration,
    s: Option<SemanticEvidence>,
    pol: ComparisonEvidencePolicy,
) -> ReviewEvidenceMode {
    let am = policy_mode(pol.origins@, a.origin@);
    let bm = policy_mode(pol.origins@, b.origin@);
    if proof_grade_opt(s) {
        ReviewEvidenceMode::ProofGrade
    } else if am == ComparisonEvidenceMode::SourceBackedNotImportable || bm
        == ComparisonEvidenceMode::SourceBackedNotImportable {
        ReviewEvidenceMode::SourceBackedNotImportable
    } else if am == ComparisonEvidenceMode::ProofGrade || bm == ComparisonEvidenceMode::ProofGrade {
        ReviewEvidenceMode::ProofGrade
    } else {
        ReviewEvidenceMode::Static
    }
}

/// Static fingerprint evidence of `kind` counts: no proof-grade evidence is
/// required, both are theorems, and retrieval matched on it.
pub open spec fn static_match(a: HydratedDeclaration, c: RetrievedCandidate, input: RankingInput, kind: Seq<char>) -> bool {
    !semantic_required_spec(a, c.declaration, input.comparison_policy) && theorem_like_spec(a) && theorem_like_spec(
        c.declaration,
    ) && has_kind(c.explanation.contributions@, kind)
}

pub open spec fn exact_spec(a: HydratedDeclaration, c: RetrievedCandidate, input: RankingInput) -> bool {
    verified_kind_spec(sem_of(input, c), EvidenceKind::ExactTheorem) || verified_kind_spec(
        sem_of(input, c),
        EvidenceKind::ReducibleDefinition,
    ) || static_match(a, c, input, "statement-fingerprint"@)
}

pub open spec fn specialization_spec(a: HydratedDeclaration, c: RetrievedCandidate, input: RankingInput) -> bool {
    theorem_like_spec(a) && theorem_like_spec(c.declaration) && verified_kind_spec(
        sem_of(input, c),
        EvidenceKind::Specialization,
    )
}

pub open spec fn permuted_spec(a: HydratedDeclaration, c: RetrievedCandidate, input: RankingInput) -> bool {
    verified_kind_spec(sem_of(input, c), EvidenceKind::PermutedTheorem) || static_match(
        a,
        c,
        input,
        "safe-permutation-fingerprint"@,
    )
}

pub open spec fn connective_spec(a: HydratedDeclaration, c: RetrievedCandidate, input: RankingInput) -> bool {
    verified_kind_spec(sem_of(input, c), EvidenceKind::Replacement) || static_match(
        a,
        c,
        input,
        "connective-fingerprint"@,
    )
}

pub open spec fn near_spec(c: RetrievedCandidate) -> bool {
    c.score >= NEAR_SCORE || has_kind(c.explanation.contributions@, "conclusion-fingerprint"@)
}

/// The strongest relation the evidence supports.
pub open spec fn relation_spec(a: HydratedDeclaration, c: RetrievedCandidate, input: RankingInput) -> ReviewRelation {
    if exact_spec(a, c, input) {
        ReviewRelation::ExactStatement
    } else if specialization_spec(a, c, input) {
        ReviewRelation::Specialization
    } else if permuted_spec(a, c, input) {
        ReviewRelation::PermutedStatement
    } else if connective_spec(a, c, input) {
        ReviewRelation::ConnectiveEquivalent
    } else if source_clone_spec(a, c.declaration, input.source_facts) {
        ReviewRelation::SourceClone
    } else if near_spec(c) {
        ReviewRelation::SubsumptionCandidate
    } else {
        ReviewRelation::NearStatement
    }
}

/// The blockers of a group.
pub open spec fn blocker_set(a: HydratedDeclaration, c: RetrievedCandidate, input: RankingInput) -> Set<Seq<char>> {
    let s = sem_of(input, c);
    let cs = c.explanation.contributions@;
    let strong = has_kind(cs, "statement-fingerprint"@) || has_kind(cs, "safe-permutation-fingerprint"@) || has_kind(
        cs,
        "connective-fingerprint"@,
    );
    let weak = !exact_spec(a, c, input) && !permuted_spec(a, c, input) && !connective_spec(a, c, input)
        && !specialization_spec(a, c, input) && !source_clone_spec(a, c.declaration, input.source_facts)
        && !near_spec(c);
    Set::new(
        |b: Seq<char>|
            {
                ||| (b == "lean-probe-unavailable"@ && status_is(s, EvidenceStatus::Unavailable))
                ||| (b == "lean-probe-rejected"@ && status_is(s, EvidenceStatus::Rejected))
                ||| (b == "unverified-proof-grade-evidence"@ && semantic_required_spec(
                    a,
                    c.declaration,
                    input.comparison_policy,
                ) && strong && !proof_grade_opt(s))
                ||| (b == "weak-feature-overlap"@ && weak)
            },
    ).union(visibility_blocker_set(a, c.declaration, cs))
}

/// The evidence exists and has this status.
pub open spec fn status_is(s: Option<SemanticEvidence>, st: EvidenceStatus) -> bool {
    match s {
        Some(e) => e.status == st,
        None => false,
    }
}

/// Blockers that demote a group to noise.
pub open spec fn noise_blocked(bs: Set<Seq<char>>) -> bool {
    ||| bs.contains("generated-declaration"@)
    ||| bs.contains("broad-head-only"@)
    ||| bs.contains("low-signal-declaration"@)
    ||| bs.contains("typeclass-instance-noise"@)
    ||| bs.contains("non-theorem-static-only"@)
    ||| bs.contains("unverified-proof-grade-evidence"@)
}

/// Priority before noise demotion.
pub open spec fn priority_for_spec(
    rel: ReviewRelation,
    has_mathlib: bool,
    bs: Set<Seq<char>>,
    score: u64,
    min_near_score: u64,
) -> ReviewPriority {
    if bs.contains("weak-feature-overlap"@) || score < min_near_score {
        ReviewPriority::Low
    } else {
        match rel {
            ReviewRelation::ExactStatement => ReviewPriority::High,
            ReviewRelation::PermutedStatement | ReviewRelation::ConnectiveEquivalent => ReviewPriority::Medium,
            ReviewRelation::Specialization => ReviewPriority::Medium,
            ReviewRelation::SourceClone => ReviewPriority::Low,
            ReviewRelation::SubsumptionCandidate => if has_mathlib {
                ReviewPriority::Low
            } else {
                ReviewPriority::Medium
            },
            ReviewRelation::NearStatement => ReviewPriority::Low,
        }
    }
}

/// Confidence of a relation at a priority.
pub open spec fn confidence_for_spec(rel: ReviewRelation, p: ReviewPriority) -> ConfidenceTier {
    if p == ReviewPriority::Noise {
        ConfidenceTier::Noise
    } else {
        match rel {
            ReviewRelation::ExactStatement => ConfidenceTier::High,
            ReviewRelation::NearStatement => ConfidenceTier::Low,
            _ => ConfidenceTier::Medium,
        }
    }
}

/// How strongly an origin is preferred as the replacement target.
pub open spec fn origin_preference(o: Seq<char>) -> int {
    if o == "mathlib"@ {
        0
    } else if o == "workspace"@ {
        2
    } else {
        1
    }
}

/// The anchor is the recommended target: Mathlib first, then other
/// libraries, then the workspace, ties broken by qualified name.
pub open spec fn target_is_anchor(a: HydratedDeclaration, b: HydratedDeclaration) -> bool {
    origin_preference(a.origin@) < origin_preference(b.origin@) || (origin_preference(a.origin@)
        == origin_preference(b.origin@) && lex_le(a.qualified_name@, b.qualified_name@))
}

/// Callers recorded for a declaration.
pub open spec fn callers_of(facts: SourceFacts, id: Seq<char>) -> int {
    match decl_fact(facts.declarations@, id) {
        Some(f) => f.references@.len() as int,
        None => 0,
    }
}

/// Callers of a workspace declaration (none for others).
pub open spec fn local_callers(facts: SourceFacts, d: HydratedDeclaration) -> int {
    if d.origin@ == "workspace"@ {
        callers_of(facts, d.declaration_id@)
    } else {
        0
    }
}

/// Local callers of both members (saturating at `usize::MAX`).
pub open spec fn local_caller_count_spec(facts: SourceFacts, a: HydratedDeclaration, b: HydratedDeclaration) -> int {
    let t = local_callers(facts, a) + local_callers(facts, b);
    if t > usize::MAX {
        usize::MAX as int
    } else {
        t
    }
}

/// Whether the workspace members already import `target`: unknown with no
/// workspace member, direct when all do, missing when any does not, unknown
/// otherwise.
pub open spec fn local_import_status_spec(
    facts: SourceFacts,
    a: HydratedDeclaration,
    b: HydratedDeclaration,
    target: Seq<char>,
) -> ImportStatus {
    let aw = a.origin@ == "workspace"@;
    let bw = b.origin@ == "workspace"@;
    let sa = import_status(facts, a.declaration_id@, target);
    let sb = import_status(facts, b.declaration_id@, target);
    if !aw && !bw {
        ImportStatus::Unknown
    } else if (!aw || sa == ImportStatus::Direct) && (!bw || sb == ImportStatus::Direct) {
        ImportStatus::Direct
    } else if (aw && sa == ImportStatus::Missing) || (bw && sb == ImportStatus::Missing) {
        ImportStatus::Missing
    } else {
        ImportStatus::Unknown
    }
}

/// The recommended action.
pub open spec fn action_spec(
    rel: ReviewRelation,
    has_mathlib: bool,
    callers: int,
    import: Option<ImportStatus>,
    transitional: int,
) -> ReviewAction {
    match rel {
        ReviewRelation::ExactStatement => if has_mathlib {
            ReviewAction::AlreadyInMathlib
        } else if callers > 0 && callers < transitional && import != Some(ImportStatus::Missing) {
            ReviewAction::ReplaceLocalUses
        } else {
            ReviewAction::LocalAlias
        },
        ReviewRelation::PermutedStatement | ReviewRelation::ConnectiveEquivalent => ReviewAction::LocalAlias,
        ReviewRelation::Specialization => ReviewAction::SpecializationOf,
        ReviewRelation::SourceClone => ReviewAction::ProbableSourceClone,
        ReviewRelation::SubsumptionCandidate => ReviewAction::MergeGeneralization,
        ReviewRelation::NearStatement => ReviewAction::ManualReview,
    }
}

/// The JSON text `serde_json::to_vec` produces for a string paired with a
/// list of strings.
pub uninterp spec fn json_label_ids(label: Seq<char>, ids: Seq<Seq<char>>) -> Seq<u8>;

/// `serde_json::to_vec(&(label, ids))`; a string and a list of strings
/// always serialise.
#[verifier::external_body]
fn json_of_label_and_ids(label: &str, ids: &Vec<String>) -> (r: Vec<u8>)
    ensures
        r@ == json_label_ids(label@, views(ids@)),
{
    serde_json::to_vec(&(label, ids)).unwrap_or_default()
}

/// The two ids in string order.
pub open spec fn sorted_pair(x: Seq<char>, y: Seq<char>) -> Seq<Seq<char>> {
    if lex_le(x, y) || x == y {
        seq![x, y]
    } else {
        seq![y, x]
    }
}

/// The stable group id: the relation name, a dash, and the first six bytes
/// (lower hex) of the SHA-256 of the JSON of the relation name and the two
/// member ids in string order.
pub open spec fn group_id_spec(a: Seq<char>, b: Seq<char>, rel: ReviewRelation) -> Seq<char> {
    relation_label(rel) + "-"@ + hex_of(
        sha256_digest(json_label_ids(relation_label(rel), sorted_pair(a, b))).take(6),
    )
}

/// The stable id of a group.
pub fn stable_group_id(a: &HydratedDeclaration, b: &HydratedDeclaration, rel: ReviewRelation) -> (r: String)
    ensures
        r@ == group_id_spec(a.declaration_id@, b.declaration_id@, rel),
{
    let mut ids: Vec<String> = Vec::new();
    if str_lt(b.declaration_id.as_str(), a.declaration_id.as_str()) {
        ids.push(b.declaration_id.clone());
        ids.push(a.declaration_id.clone());
        proof {
            crate::text::lemma_lex_trichotomy(a.declaration_id@, b.declaration_id@);
        }
    } else {
        ids.push(a.declaration_id.clone());
        ids.push(b.declaration_id.clone());
        proof {
            crate::text::lemma_lex_trichotomy(a.declaration_id@, b.declaration_id@);
        }
    }
    proof {
        assert(views(ids@) =~= sorted_pair(a.declaration_id@, b.declaration_id@));
    }
    let label = rel.label();
    let encoded = json_of_label_and_ids(label, &ids);
    let digest = sha256(encoded.as_slice());
    let head = crate::digest::first_bytes(&digest, 6);
    let suffix = hex_bytes(head.as_slice());
    crate::text::concat3(label, "-", suffix.as_str())
}

/// One evidence item per contribution, in order.
pub open spec fn evidence_matches(ev: Seq<ReviewEvidence>, cs: Seq<KeyContribution>) -> bool {
    &&& ev.len() == cs.len()
    &&& forall|i: int|
        0 <= i < cs.len() ==> (#[trigger] ev[i]).kind@ == cs[i].kind@ && ev[i].role == cs[i].role
            && ev[i].display == cs[i].display && ev[i].score == cs[i].score
}

fn review_evidence(cs: &Vec<KeyContribution>) -> (r: Vec<ReviewEvidence>)
    ensures
        evidence_matches(r@, cs@),
{
    let mut r: Vec<ReviewEvidence> = Vec::new();
    let mut i: usize = 0;
    while i < cs.len()
        invariant
            i <= cs@.len(),
            r@.len() == i,
            forall|k: int|
                0 <= k < i ==> (#[trigger] r@[k]).kind@ == cs@[k].kind@ && r@[k].role == cs@[k].role
                    && r@[k].display == cs@[k].display && r@[k].score == cs@[k].score,
        decreases cs@.len() - i,
    {
        let c = &cs[i];
        r.push(
            ReviewEvidence {
                kind: c.kind.clone(),
                role: clone_opt_string(&c.role),
                display: clone_opt_string(&c.display),
                score: c.score,
            },
        );
        i = i + 1;
    }
    r
}


/// Name of a probe status in signals.
pub open spec fn status_text(st: EvidenceStatus) -> Seq<char> {
    match st {
        EvidenceStatus::Verified => "verified"@,
        EvidenceStatus::Unavailable => "unavailable"@,
        EvidenceStatus::Rejected => "rejected"@,
    }
}

/// Name of an evidence kind in signals.
pub open spec fn kind_text(k: EvidenceKind) -> Seq<char> {
    match k {
        EvidenceKind::ExactTheorem => "exact-theorem"@,
        EvidenceKind::PermutedTheorem => "permuted-theorem"@,
        EvidenceKind::Replacement => "replacement"@,
        EvidenceKind::ReducibleDefinition => "reducible-definition"@,
        EvidenceKind::Specialization => "specialization"@,
        EvidenceKind::LocalDuplicate => "local-duplicate"@,
        EvidenceKind::Unavailable => "unavailable"@,
    }
}

/// The extra signal a proof-grade result of this kind earns.
pub open spec fn proof_signal(k: EvidenceKind) -> Option<Seq<char>> {
    match k {
        EvidenceKind::ExactTheorem => Some("probe:same-statement"@),
        EvidenceKind::PermutedTheorem => Some("probe:same-up-to-safe-reordering"@),
        EvidenceKind::Replacement => Some("probe:replacement"@),
        EvidenceKind::ReducibleDefinition => Some("probe:same-reducible-definition"@),
        EvidenceKind::Specialization => Some("probe:specialization"@),
        _ => None,
    }
}

/// Signals contributed by a probe result: `probe:<status>:<kind>`, plus the
/// proof-grade signal of its kind when Lean verified it.
pub open spec fn semantic_signal_set(e: SemanticEvidence) -> Set<Seq<char>> {
    let base = set!["probe:"@ + status_text(e.status) + ":"@ + kind_text(e.kind)];
    if e.status == EvidenceStatus::Verified {
        match proof_signal(e.kind) {
            Some(x) => base.insert(x),
            None => base,
        }
    } else {
        base
    }
}

/// The kinds of the contributions.
pub open spec fn kind_set(cs: Seq<KeyContribution>) -> Set<Seq<char>> {
    Set::new(|k: Seq<char>| exists|i: int| 0 <= i < cs.len() && (#[trigger] cs[i]).kind@ == k)
}

/// The signals of a group.
pub open spec fn signal_set(a: HydratedDeclaration, c: RetrievedCandidate, input: RankingInput) -> Set<Seq<char>> {
    let k = kind_set(c.explanation.contributions@);
    let with_probe = match sem_of(input, c) {
        Some(e) => k.union(semantic_signal_set(e)),
        None => k,
    };
    if source_clone_spec(a, c.declaration, input.source_facts) {
        with_probe.insert("source-clone"@)
    } else {
        with_probe
    }
}

/// The probe signals of a semantic result, as an ordered set.
pub fn semantic_signals(e: &SemanticEvidence) -> (r: Vec<String>)
    ensures
        is_ordered_set(r@, semantic_signal_set(*e)),
{
    let status = match e.status {
        EvidenceStatus::Verified => "verified",
        EvidenceStatus::Unavailable => "unavailable",
        EvidenceStatus::Rejected => "rejected",
    };
    let kind = match e.kind {
        EvidenceKind::ExactTheorem => "exact-theorem",
        EvidenceKind::PermutedTheorem => "permuted-theorem",
        EvidenceKind::Replacement => "replacement",
        EvidenceKind::ReducibleDefinition => "reducible-definition",
        EvidenceKind::Specialization => "specialization",
        EvidenceKind::LocalDuplicate => "local-duplicate",
        EvidenceKind::Unavailable => "unavailable",
    };
    let mut r = set_new();
    let mut first = concat("probe:", status);
    first.append(":");
    first.append(kind);
    let ghost fv = first@;
    set_insert(&mut r, first);
    proof {
        assert(views(r@).to_set() =~= set![fv]);
    }
    if e.status == EvidenceStatus::Verified {
        let extra: Option<&str> = match e.kind {
            EvidenceKind::ExactTheorem => Some("probe:same-statement"),
            EvidenceKind::PermutedTheorem => Some("probe:same-up-to-safe-reordering"),
            EvidenceKind::Replacement => Some("probe:replacement"),
            EvidenceKind::ReducibleDefinition => Some("probe:same-reducible-definition"),
            EvidenceKind::Specialization => Some("probe:specialization"),
            _ => None,
        };
        match extra {
            Some(x) => {
                set_insert(&mut r, x.to_owned());
            },
            None => {},
        }
    }
    r
}

/// What the probe said, in words, when there is a probe result.
pub open spec fn probe_summary_spec(s: Option<SemanticEvidence>) -> Option<Seq<char>> {
    match s {
        Some(e) => match e.summary {
            Some(t) => Some(t@),
            None => Some(
                match e.status {
                    EvidenceStatus::Verified => "Lean verified semantic evidence"@,
                    EvidenceStatus::Unavailable => "Lean probe unavailable"@,
                    EvidenceStatus::Rejected => "Lean probe rejected the planned obligation"@,
                },
            ),
        },
        None => None,
    }
}

fn semantic_summary(e: &SemanticEvidence) -> (r: String)
    ensures
        probe_summary_spec(Some(*e)) == Some(r@),
{
    match &e.summary {
        Some(t) => t.clone(),
        None => match e.status {
            EvidenceStatus::Verified => "Lean verified semantic evidence".to_owned(),
            EvidenceStatus::Unavailable => "Lean probe unavailable".to_owned(),
            EvidenceStatus::Rejected => "Lean probe rejected the planned obligation".to_owned(),
        },
    }
}

/// The group holds exactly what ranking decides for the pair.
pub open spec fn group_ok(g: RankedGroup, a: HydratedDeclaration, c: RetrievedCandidate, input: RankingInput) -> bool {
    let d = c.declaration;
    let s = sem_of(input, c);
    let rel = relation_spec(a, c, input);
    let bs = blocker_set(a, c, input);
    let hm = has_mathlib_spec(a, d);
    let noise = noise_blocked(bs);
    let target = if target_is_anchor(a, d) {
        a
    } else {
        d
    };
    let callers = local_caller_count_spec(input.source_facts, a, d);
    let import = if target.module@.len() > 0 {
        Some(local_import_status_spec(input.source_facts, a, d, target.module@))
    } else {
        None
    };
    let base = priority_for_spec(rel, hm, bs, c.score, input.profile.min_near_score);
    &&& g.id@ == group_id_spec(a.declaration_id@, d.declaration_id@, rel)
    &&& g.pair_id@ == c.pair_id@
    &&& g.relation == rel
    &&& g.members@.len() == 2
    &&& member_of(g.members@[0], a)
    &&& member_of(g.members@[1], d)
    &&& evidence_matches(g.evidence@, c.explanation.contributions@)
    &&& is_ordered_set(g.signals@, signal_set(a, c, input))
    &&& is_ordered_set(g.blockers@, bs)
    &&& g.review_priority == (if noise {
        ReviewPriority::Noise
    } else {
        base
    })
    &&& g.confidence == (if noise {
        ConfidenceTier::Noise
    } else {
        confidence_for_spec(rel, base)
    })
    &&& g.recommended_action == action_spec(rel, hm, callers, import, input.profile.transitional_alias_callers as int)
    &&& opt_view(g.target_decl) == Some(target.qualified_name@)
    &&& opt_view(g.target_module) == Some(target.module@)
    &&& g.evidence_mode == evidence_mode_spec(a, d, s, input.comparison_policy)
    &&& opt_view(g.probe_summary) == probe_summary_spec(s)
    &&& g.semantic_obligations@ == (match s {
        Some(e) => seq![obligation_fact(e)],
        None => Seq::empty(),
    })
    &&& g.local_caller_count == callers
    &&& g.replacement_hint is None
}

fn is_origin(d: &HydratedDeclaration, o: &str) -> (r: bool)
    ensures
        r == (d.origin@ == o@),
{
    str_eq(d.origin.as_str(), o)
}

fn origin_pref(d: &HydratedDeclaration) -> (r: u8)
    ensures
        r == origin_preference(d.origin@),
{
    if is_origin(d, "mathlib") {
        0
    } else if is_origin(d, "workspace") {
        2
    } else {
        1
    }
}

fn local_import_status(facts: &SourceFacts, a: &HydratedDeclaration, b: &HydratedDeclaration, target: &str) -> (r:
    ImportStatus)
    ensures
        r == local_import_status_spec(*facts, *a, *b, target@),
{
    let aw = is_origin(a, "workspace");
    let bw = is_origin(b, "workspace");
    if !aw && !bw {
        return ImportStatus::Unknown;
    }
    let sa = if aw {
        facts.import_status_for(a.declaration_id.as_str(), target)
    } else {
        ImportStatus::Direct
    };
    let sb = if bw {
        facts.import_status_for(b.declaration_id.as_str(), target)
    } else {
        ImportStatus::Direct
    };
    if sa == ImportStatus::Direct && sb == ImportStatus::Direct {
        ImportStatus::Direct
    } else if sa == ImportStatus::Missing || sb == ImportStatus::Missing {
        ImportStatus::Missing
    } else {
        ImportStatus::Unknown
    }
}

fn same_source_fingerprint(a: &HydratedDeclaration, b: &HydratedDeclaration, facts: &SourceFacts) -> (r: bool)
    ensures
        r == source_clone_spec(*a, *b, *facts),
{
    let left = match facts.source_fingerprint(a.declaration_id.as_str()) {
        Some(f) => f,
        None => {
            return false;
        },
    };
    let right = match facts.source_fingerprint(b.declaration_id.as_str()) {
        Some(f) => f,
        None => {
            return false;
        },
    };
    !left.as_str().is_empty() && str_eq(left.as_str(), right.as_str())
}

fn verified_kind(s: Option<&SemanticEvidence>, k: EvidenceKind) -> (r: bool)
    ensures
        r == verified_kind_spec(
            match s {
                Some(e) => Some(*e),
                None => None,
            },
            k,
        ),
{
    match s {
        Some(e) => e.kind == k && e.status == EvidenceStatus::Verified,
        None => false,
    }
}

/// Ranks one anchor–candidate pair into a review group.
pub fn rank_pair(a: &HydratedDeclaration, c: &RetrievedCandidate, input: &RankingInput) -> (g: RankedGroup)
    ensures
        group_ok(g, *a, *c, *input),
{
    let d = &c.declaration;
    let cs = &c.explanation.contributions;
    let sem = find_evidence(&input.semantic_evidence, c.pair_id.as_str());
    let ghost s = sem_of(*input, *c);
    proof {
        assert(s == match sem {
            Some(e) => Some(*e),
            None => None,
        });
    }
    let source_clone = same_source_fingerprint(a, d, &input.source_facts);
    let has_mathlib = is_origin(a, "mathlib") || is_origin(d, "mathlib");
    let theorem_pair = theorem_like(a) && theorem_like(d);
    let verified_exact = verified_kind(sem, EvidenceKind::ExactTheorem) || verified_kind(
        sem,
        EvidenceKind::ReducibleDefinition,
    );
    let verified_specialization = verified_kind(sem, EvidenceKind::Specialization);
    let verified_permuted = verified_kind(sem, EvidenceKind::PermutedTheorem);
    let verified_replacement = verified_kind(sem, EvidenceKind::Replacement);
    let semantic_required = input.comparison_policy.requires_semantic_evidence(a.origin.as_str())
        || input.comparison_policy.requires_semantic_evidence(d.origin.as_str());
    let static_allowed = !semantic_required;
    let has_statement = has_contribution(cs, "statement-fingerprint");
    let has_permutation = has_contribution(cs, "safe-permutation-fingerprint");
    let has_connective = has_contribution(cs, "connective-fingerprint");
    let has_conclusion = has_contribution(cs, "conclusion-fingerprint");
    let exact = verified_exact || (static_allowed && theorem_pair && has_statement);
    let specialization = theorem_pair && verified_specialization;
    let permuted = verified_permuted || (static_allowed && theorem_pair && has_permutation);
    let connective = verified_replacement || (static_allowed && theorem_pair && has_connective);
    let near = c.score >= NEAR_SCORE || has_conclusion;
    let strong = has_statement || has_permutation || has_connective;

    // Signals.
    let mut signals = set_new();
    let mut i: usize = 0;
    proof {
        assert(views(signals@).to_set() =~= Set::empty());
    }
    while i < cs.len()
        invariant
            i <= cs@.len(),
            sorted_strict(views(signals@)),
            views(signals@).to_set() == kind_set(cs@.take(i as int)),
        decreases cs@.len() - i,
    {
        let ghost kv = cs@[i as int].kind@;
        set_insert(&mut signals, cs[i].kind.clone());
        proof {
            assert(kind_set(cs@.take(i + 1)) =~= kind_set(cs@.take(i as int)).insert(kv)) by {
                assert forall|k| kind_set(cs@.take(i + 1)).contains(k) implies kind_set(cs@.take(i as int)).insert(
                    kv,
                ).contains(k) by {
                    let j = choose|j: int| 0 <= j < i + 1 && (#[trigger] cs@.take(i + 1)[j]).kind@ == k;
                    if j < i {
                        assert(cs@.take(i as int)[j] == cs@.take(i + 1)[j]);
                    }
                }
                assert forall|k| kind_set(cs@.take(i as int)).insert(kv).contains(k) implies kind_set(
                    cs@.take(i + 1),
                ).contains(k) by {
                    if k == kv {
                        assert(cs@.take(i + 1)[i as int].kind@ == k);
                    } else {
                        let j = choose|j: int| 0 <= j < i && (#[trigger] cs@.take(i as int)[j]).kind@ == k;
                        assert(cs@.take(i + 1)[j] == cs@.take(i as int)[j]);
                    }
                }
            }
        }
        i = i + 1;
    }
    proof {
        assert(cs@.take(cs@.len() as int) =~= cs@);
    }
    let mut blockers = set_new();
    let ghost mut probe_bs: Set<Seq<char>> = Set::empty();
    match sem {
        Some(e) => {
            let extra = semantic_signals(e);
            set_extend(&mut signals, &extra);
            match e.status {
                EvidenceStatus::Unavailable => {
                    set_insert(&mut blockers, "lean-probe-unavailable".to_owned());
                    proof { probe_bs = probe_bs.insert("lean-probe-unavailable"@); }
                },
                EvidenceStatus::Rejected => {
                    set_insert(&mut blockers, "lean-probe-rejected".to_owned());
                    proof { probe_bs = probe_bs.insert("lean-probe-rejected"@); }
                },
                EvidenceStatus::Verified => {},
            }
        },
        None => {},
    }
    let proof_grade = match sem {
        Some(e) => e.proof_grade(),
        None => false,
    };
    if semantic_required && strong && !proof_grade {
        set_insert(&mut blockers, "unverified-proof-grade-evidence".to_owned());
        proof { probe_bs = probe_bs.insert("unverified-proof-grade-evidence"@); }
    }
    if source_clone {
        set_insert(&mut signals, "source-clone".to_owned());
    }
    proof {
        assert(views(signals@).to_set() =~= signal_set(*a, *c, *input));
    }
    let vis = visibility_blockers(a, d, cs);
    set_extend(&mut blockers, &vis);
    let weak = !exact && !permuted && !connective && !specialization && !source_clone && !near;
    if weak {
        set_insert(&mut blockers, "weak-feature-overlap".to_owned());
        proof { probe_bs = probe_bs.insert("weak-feature-overlap"@); }
    }
    proof {
        assert(views(blockers@).to_set() =~= blocker_set(*a, *c, *input));
    }
    let relation = if exact {
        ReviewRelation::ExactStatement
    } else if specialization {
        ReviewRelation::Specialization
    } else if permuted {
        ReviewRelation::PermutedStatement
    } else if connective {
        ReviewRelation::ConnectiveEquivalent
    } else if source_clone {
        ReviewRelation::SourceClone
    } else if near {
        ReviewRelation::SubsumptionCandidate
    } else {
        ReviewRelation::NearStatement
    };
    proof {
        assert(relation == relation_spec(*a, *c, *input));
    }
    let anchor_target = origin_pref(a) < origin_pref(d) || (origin_pref(a) == origin_pref(d) && !str_lt(
        d.qualified_name.as_str(),
        a.qualified_name.as_str(),
    ));
    proof {
        crate::text::lemma_lex_trichotomy(a.qualified_name@, d.qualified_name@);
        assert(anchor_target == target_is_anchor(*a, *d));
    }
    let target = if anchor_target {
        a
    } else {
        d
    };
    let ca = if is_origin(a, "workspace") {
        input.source_facts.caller_count(a.declaration_id.as_str())
    } else {
        0
    };
    let cb = if is_origin(d, "workspace") {
        input.source_facts.caller_count(d.declaration_id.as_str())
    } else {
        0
    };
    let callers = match ca.checked_add(cb) {
        Some(t) => t,
        None => usize::MAX,
    };
    let import = if target.module.as_str().is_empty() {
        None
    } else {
        Some(local_import_status(&input.source_facts, a, d, target.module.as_str()))
    };
    let weak_or_low = contains_str(&blockers, "weak-feature-overlap") || c.score < input.profile.min_near_score;
    let base = if weak_or_low {
        ReviewPriority::Low
    } else {
        match relation {
            ReviewRelation::ExactStatement => ReviewPriority::High,
            ReviewRelation::PermutedStatement | ReviewRelation::ConnectiveEquivalent => ReviewPriority::Medium,
            ReviewRelation::Specialization => ReviewPriority::Medium,
            ReviewRelation::SourceClone => ReviewPriority::Low,
            ReviewRelation::SubsumptionCandidate => if has_mathlib {
                ReviewPriority::Low
            } else {
                ReviewPriority::Medium
            },
            ReviewRelation::NearStatement => ReviewPriority::Low,
        }
    };
    let base_confidence = match relation {
        ReviewRelation::ExactStatement => ConfidenceTier::High,
        ReviewRelation::NearStatement => ConfidenceTier::Low,
        _ => ConfidenceTier::Medium,
    };
    let noise = contains_str(&blockers, "generated-declaration") || contains_str(&blockers, "broad-head-only")
        || contains_str(&blockers, "low-signal-declaration") || contains_str(&blockers, "typeclass-instance-noise")
        || contains_str(&blockers, "non-theorem-static-only") || contains_str(
        &blockers,
        "unverified-proof-grade-evidence",
    );
    let (priority, confidence) = if noise {
        (ReviewPriority::Noise, ConfidenceTier::Noise)
    } else {
        (base, base_confidence)
    };
    let transitional = input.profile.transitional_alias_callers;
    let action = match relation {
        ReviewRelation::ExactStatement => if has_mathlib {
            ReviewAction::AlreadyInMathlib
        } else if callers > 0 && callers < transitional && import != Some(ImportStatus::Missing) {
            ReviewAction::ReplaceLocalUses
        } else {
            ReviewAction::LocalAlias
        },
        ReviewRelation::PermutedStatement | ReviewRelation::ConnectiveEquivalent => ReviewAction::LocalAlias,
        ReviewRelation::Specialization => ReviewAction::SpecializationOf,
        ReviewRelation::SourceClone => ReviewAction::ProbableSourceClone,
        ReviewRelation::SubsumptionCandidate => ReviewAction::MergeGeneralization,
        ReviewRelation::NearStatement => ReviewAction::ManualReview,
    };
    let evidence_mode = if proof_grade {
        ReviewEvidenceMode::ProofGrade
    } else {
        let am = input.comparison_policy.evidence_mode(a.origin.as_str());
        let bm = input.comparison_policy.evidence_mode(d.origin.as_str());
        if am == ComparisonEvidenceMode::SourceBackedNotImportable || bm
            == ComparisonEvidenceMode::SourceBackedNotImportable {
            ReviewEvidenceMode::SourceBackedNotImportable
        } else if am == ComparisonEvidenceMode::ProofGrade || bm == ComparisonEvidenceMode::ProofGrade {
            ReviewEvidenceMode::ProofGrade
        } else {
            ReviewEvidenceMode::Static
        }
    };
    let probe_summary = match sem {
        Some(e) => Some(semantic_summary(e)),
        None => None,
    };
    let mut obligations: Vec<SearchSemanticObligationFact> = Vec::new();
    match sem {
        Some(e) => {
            obligations.push(e.semantic_obligation_fact());
        },
        None => {},
    }
    proof {
        assert(obligations@ =~= match s {
            Some(e) => seq![obligation_fact(e)],
            None => Seq::<SearchSemanticObligationFact>::empty(),
        });
    }
    let mut members: Vec<ReviewMember> = Vec::new();
    members.push(member(a));
    members.push(member(d));
    RankedGroup {
        id: stable_group_id(a, d, relation),
        pair_id: c.pair_id.clone(),
        relation,
        members,
        evidence: review_evidence(cs),
        signals,
        blockers,
        confidence,
        review_priority: priority,
        recommended_action: action,
        target_decl: Some(target.qualified_name.clone()),
        target_module: Some(target.module.clone()),
        evidence_mode,
        probe_summary,
        semantic_obligations: obligations,
        local_caller_count: callers,
        replacement_hint: None,
    }
}


/// User-facing visibility intent for audit queues.
#[derive(Debug, Clone, Copy, PartialEq, Eq, Structural)]
pub struct ReviewFilter {
    pub include_generated: bool,
    pub include_private: bool,
    pub include_diagnostics: bool,
    pub min_priority: ReviewPriority,
}

/// Some member is not public.
pub open spec fn has_non_public_member(g: RankedGroup) -> bool {
    exists|i: int| 0 <= i < g.members@.len() && (#[trigger] g.members@[i]).visibility@ != "public"@
}

/// Whether the filter shows the group: noise and probe-failure groups only
/// with diagnostics, generated ones only when asked for, groups with a
/// non-public member only when private findings are asked for, and only at
/// or above the minimum priority.
pub open spec fn filter_includes(f: ReviewFilter, g: RankedGroup) -> bool {
    let bs = views(g.blockers@);
    &&& !(g.review_priority == ReviewPriority::Noise && !f.include_diagnostics)
    &&& !(!f.include_generated && bs.contains("generated-declaration"@))
    &&& !(!f.include_private && has_non_public_member(g))
    &&& !(!f.include_diagnostics && (bs.contains("lean-probe-rejected"@) || bs.contains(
        "lean-probe-unavailable"@,
    )))
    &&& priority_rank(g.review_priority) <= priority_rank(f.min_priority)
}

impl ReviewFilter {
    /// Whether the filter shows `group`.
    pub fn includes(self, group: &RankedGroup) -> (r: bool)
        ensures
            r == filter_includes(self, *group),
    {
        if group.review_priority == ReviewPriority::Noise && !self.include_diagnostics {
            return false;
        }
        if !self.include_generated && contains_str(&group.blockers, "generated-declaration") {
            return false;
        }
        if !self.include_private {
            let mut i: usize = 0;
            while i < group.members.len()
                invariant
                    i <= group.members@.len(),
                    !self.include_private,
                    forall|k: int| 0 <= k < i ==> (#[trigger] group.members@[k]).visibility@ == "public"@,
                decreases group.members@.len() - i,
            {
                if !str_eq(group.members[i].visibility.as_str(), "public") {
                    proof {
                        assert(group.members@[i as int].visibility@ != "public"@);
                        assert(has_non_public_member(*group));
                    }
                    return false;
                }
                i = i + 1;
            }
        }
        if !self.include_diagnostics && (contains_str(&group.blockers, "lean-probe-rejected") || contains_str(
            &group.blockers,
            "lean-probe-unavailable",
        )) {
            return false;
        }
        priority_rank_of(group.review_priority) <= priority_rank_of(self.min_priority)
    }
}

/// The filter as a predicate on groups.
pub open spec fn shown_by(f: ReviewFilter) -> spec_fn(RankedGroup) -> bool {
    |g: RankedGroup| filter_includes(f, g)
}

/// Ranked review queue plus diagnostics.
#[derive(Debug, Clone)]
pub struct RankedReview {
    pub groups: Vec<RankedGroup>,
    pub suppressed: Vec<SuppressedGroup>,
    pub diagnostics: RankingDiagnostics,
}

impl RankedReview {
    /// The groups the filter shows, in queue order.
    pub fn visible_groups(&self, filter: ReviewFilter) -> (r: Vec<&RankedGroup>)
        ensures
            r@.map_values(|g: &RankedGroup| *g) == self.groups@.filter(shown_by(filter)),
    {
        let mut r: Vec<&RankedGroup> = Vec::new();
        let mut i: usize = 0;
        while i < self.groups.len()
            invariant
                i <= self.groups@.len(),
                r@.map_values(|g: &RankedGroup| *g) == self.groups@.take(i as int).filter(shown_by(filter)),
            decreases self.groups@.len() - i,
        {
            proof {
                assert(self.groups@.take(i + 1).drop_last() =~= self.groups@.take(i as int));
            }
            let ghost before = r@;
            proof {
                reveal(Seq::filter);
                let t = self.groups@.take(i + 1);
                assert(t.last() == self.groups@[i as int]);
                assert(t.filter(shown_by(filter)) == if shown_by(filter)(t.last()) {
                    t.drop_last().filter(shown_by(filter)).push(t.last())
                } else {
                    t.drop_last().filter(shown_by(filter))
                });
            }
            if filter.includes(&self.groups[i]) {
                r.push(&self.groups[i]);
                proof {
                    assert(r@.map_values(|g: &RankedGroup| *g) =~= before.map_values(|g: &RankedGroup| *g).push(
                        self.groups@[i as int],
                    ));
                }
            }
            i = i + 1;
        }
        assert(self.groups@.take(self.groups@.len() as int) =~= self.groups@);
        r
    }
}

/// A wider filter (each inclusion flag at least as permissive and a minimum
/// priority no stricter) shows every group a narrower one shows.
pub proof fn lemma_filter_monotone(narrow: ReviewFilter, wide: ReviewFilter, g: RankedGroup)
    requires
        narrow.include_generated ==> wide.include_generated,
        narrow.include_private ==> wide.include_private,
        narrow.include_diagnostics ==> wide.include_diagnostics,
        priority_rank(narrow.min_priority) <= priority_rank(wide.min_priority),
        filter_includes(narrow, g),
    ensures
        filter_includes(wide, g),
{
}

/// Noise groups are shown only by filters that include diagnostics.
pub proof fn lemma_noise_needs_diagnostics(f: ReviewFilter, g: RankedGroup)
    requires
        g.review_priority == ReviewPriority::Noise,
        filter_includes(f, g),
    ensures
        f.include_diagnostics,
        f.min_priority == ReviewPriority::Noise,
{
}

/// Queue order: priority, then confidence, then id.
pub open spec fn group_lt(x: RankedGroup, y: RankedGroup) -> bool {
    ||| priority_rank(x.review_priority) < priority_rank(y.review_priority)
    ||| (priority_rank(x.review_priority) == priority_rank(y.review_priority) && confidence_rank(x.confidence)
        < confidence_rank(y.confidence))
    ||| (priority_rank(x.review_priority) == priority_rank(y.review_priority) && confidence_rank(x.confidence)
        == confidence_rank(y.confidence) && lex_lt(x.id@, y.id@))
}

/// Strictly increasing in queue order (so no id occurs twice).
pub open spec fn groups_sorted(s: Seq<RankedGroup>) -> bool {
    forall|i: int, j: int| 0 <= i < j < s.len() ==> group_lt(#[trigger] s[i], #[trigger] s[j])
}

proof fn lemma_group_order(x: RankedGroup, y: RankedGroup, z: RankedGroup)
    ensures
        x.id@ != y.id@ ==> group_lt(x, y) || group_lt(y, x),
        !(group_lt(x, y) && group_lt(y, x)),
        group_lt(x, y) && group_lt(y, z) ==> group_lt(x, z),
{
    crate::text::lemma_lex_trichotomy(x.id@, y.id@);
    crate::text::lemma_lex_irreflexive(x.id@);
    if lex_lt(x.id@, y.id@) && lex_lt(y.id@, z.id@) {
        crate::text::lemma_lex_transitive(x.id@, y.id@, z.id@);
    }
}

fn group_less(x: &RankedGroup, y: &RankedGroup) -> (r: bool)
    ensures
        r == group_lt(*x, *y),
{
    let px = priority_rank_of(x.review_priority);
    let py = priority_rank_of(y.review_priority);
    if px != py {
        return px < py;
    }
    let cx = confidence_rank_of(x.confidence);
    let cy = confidence_rank_of(y.confidence);
    if cx != cy {
        return cx < cy;
    }
    str_lt(x.id.as_str(), y.id.as_str())
}

/// Some group of `s` has this id.
pub open spec fn has_group_id(s: Seq<RankedGroup>, id: Seq<char>) -> bool {
    exists|i: int| 0 <= i < s.len() && (#[trigger] s[i]).id@ == id
}

/// Adds `g` to the sorted queue unless a group with its id is there already.
fn add_group(out: &mut Vec<RankedGroup>, g: RankedGroup)
    requires
        groups_sorted(old(out)@),
    ensures
        groups_sorted(final(out)@),
        has_group_id(old(out)@, g.id@) ==> final(out)@ == old(out)@,
        !has_group_id(old(out)@, g.id@) ==> forall|x: RankedGroup|
            final(out)@.contains(x) <==> (old(out)@.contains(x) || x == g),
        has_group_id(final(out)@, g.id@),
        forall|id: Seq<char>| has_group_id(old(out)@, id) ==> has_group_id(final(out)@, id),
{
    let ghost s0 = out@;
    let mut k: usize = 0;
    while k < out.len()
        invariant
            k <= out@.len(),
            out@ == s0,
            s0 == old(out)@,
            groups_sorted(s0),
            forall|q: int| 0 <= q < k ==> (#[trigger] s0[q]).id@ != g.id@,
        decreases out@.len() - k,
    {
        if str_eq(out[k].id.as_str(), g.id.as_str()) {
            return;
        }
        k = k + 1;
    }
    let mut p: usize = 0;
    while p < out.len() && group_less(&out[p], &g)
        invariant
            p <= out@.len(),
            out@ == s0,
            groups_sorted(s0),
            forall|q: int| 0 <= q < p ==> group_lt(#[trigger] s0[q], g),
        decreases out@.len() - p,
    {
        p = p + 1;
    }
    proof {
        if p < s0.len() {
            lemma_group_order(s0[p as int], g, g);
        }
    }
    let ghost gv = g;
    out.insert(p, g);
    proof {
        let nv = out@;
        assert(nv =~= s0.insert(p as int, gv));
        assert forall|i: int, j: int| 0 <= i < j < nv.len() implies group_lt(#[trigger] nv[i], #[trigger] nv[j]) by {
            if j < p {
            } else if j == p {
            } else if i < p {
                lemma_group_order(nv[i], gv, s0[p as int]);
                if j > p + 1 {
                    lemma_group_order(nv[i], s0[p as int], nv[j]);
                }
            } else if i == p {
                if j > p + 1 {
                    lemma_group_order(gv, s0[p as int], nv[j]);
                }
            } else {
            }
        }
        assert forall|x: RankedGroup| nv.contains(x) <==> (s0.contains(x) || x == gv) by {
            if nv.contains(x) {
                let i = choose|i: int| 0 <= i < nv.len() && nv[i] == x;
                if i < p {
                    assert(s0[i] == x);
                } else if i > p {
                    assert(s0[i - 1] == x);
                }
            }
            if s0.contains(x) {
                let i = choose|i: int| 0 <= i < s0.len() && s0[i] == x;
                if i < p {
                    assert(nv[i] == x);
                } else {
                    assert(nv[i + 1] == x);
                }
            }
            if x == gv {
                assert(nv[p as int] == x);
            }
        }
        assert(nv[p as int].id@ == gv.id@);
        assert forall|id: Seq<char>| has_group_id(s0, id) implies has_group_id(nv, id) by {
            let i = choose|i: int| 0 <= i < s0.len() && (#[trigger] s0[i]).id@ == id;
            if i < p {
                assert(nv[i] == s0[i]);
            } else {
                assert(nv[i + 1] == s0[i]);
            }
        }
    }
}


/// Why a weaker relation was suppressed.
pub open spec fn suppression_reason() -> Seq<char> {
    "covered by stronger evidence for the same pair"@
}

/// The view of a suppressed relation.
pub open spec fn sup_view(x: SuppressedGroup) -> (Seq<char>, ReviewRelation, ReviewRelation, Seq<char>) {
    (x.pair_id@, x.suppressed_relation, x.covered_by, x.reason@)
}

/// The views of suppressed relations.
pub open spec fn sup_views(v: Seq<SuppressedGroup>) -> Seq<(Seq<char>, ReviewRelation, ReviewRelation, Seq<char>)> {
    v.map_values(|x: SuppressedGroup| sup_view(x))
}

/// The weaker relations an exact or specialization group hides, each once in
/// relation order: permuted, connective, subsumption and near relations
/// whose contribution kinds retrieval matched.
pub open spec fn suppressed_spec(pair_id: Seq<char>, rel: ReviewRelation, cs: Seq<KeyContribution>) -> Seq<
    (Seq<char>, ReviewRelation, ReviewRelation, Seq<char>),
> {
    if rel != ReviewRelation::ExactStatement && rel != ReviewRelation::Specialization {
        Seq::empty()
    } else {
        let one = |r: ReviewRelation, k: Seq<char>|
            if has_kind(cs, k) {
                seq![(pair_id, r, rel, suppression_reason())]
            } else {
                Seq::empty()
            };
        one(ReviewRelation::PermutedStatement, "safe-permutation-fingerprint"@) + one(
            ReviewRelation::ConnectiveEquivalent,
            "connective-fingerprint"@,
        ) + one(ReviewRelation::SubsumptionCandidate, "conclusion-fingerprint"@) + one(
            ReviewRelation::NearStatement,
            "role-feature"@,
        )
    }
}

fn push_suppressed(
    out: &mut Vec<SuppressedGroup>,
    present: bool,
    pair_id: &String,
    r: ReviewRelation,
    rel: ReviewRelation,
)
    ensures
        sup_views(final(out)@) == sup_views(old(out)@) + if present {
            seq![(pair_id@, r, rel, suppression_reason())]
        } else {
            Seq::empty()
        },
{
    let ghost before = sup_views(out@);
    if present {
        out.push(
            SuppressedGroup {
                pair_id: pair_id.clone(),
                suppressed_relation: r,
                covered_by: rel,
                reason: "covered by stronger evidence for the same pair".to_owned(),
            },
        );
        assert(sup_views(out@) =~= before + seq![(pair_id@, r, rel, suppression_reason())]);
    } else {
        assert(sup_views(out@) =~= before + Seq::empty());
    }
}

/// The weaker relations the group's relation covers for its pair.
pub fn suppressed_relations(group: &RankedGroup, c: &RetrievedCandidate) -> (r: Vec<SuppressedGroup>)
    ensures
        sup_views(r@) == suppressed_spec(group.pair_id@, group.relation, c.explanation.contributions@),
{
    let mut out: Vec<SuppressedGroup> = Vec::new();
    let rel = group.relation;
    if rel != ReviewRelation::ExactStatement && rel != ReviewRelation::Specialization {
        assert(sup_views(out@) =~= Seq::empty());
        return out;
    }
    let cs = &c.explanation.contributions;
    let ghost e = Seq::<(Seq<char>, ReviewRelation, ReviewRelation, Seq<char>)>::empty();
    assert(sup_views(out@) =~= e);
    push_suppressed(&mut out, has_contribution(cs, "safe-permutation-fingerprint"), &group.pair_id, ReviewRelation::PermutedStatement, rel);
    push_suppressed(&mut out, has_contribution(cs, "connective-fingerprint"), &group.pair_id, ReviewRelation::ConnectiveEquivalent, rel);
    push_suppressed(&mut out, has_contribution(cs, "conclusion-fingerprint"), &group.pair_id, ReviewRelation::SubsumptionCandidate, rel);
    push_suppressed(&mut out, has_contribution(cs, "role-feature"), &group.pair_id, ReviewRelation::NearStatement, rel);
    proof {
        let spec = suppressed_spec(group.pair_id@, group.relation, cs@);
        assert(sup_views(out@) =~= spec);
    }
    out
}

/// The anchor–candidate pairs of one candidate set.
pub open spec fn pairs_of(s: CandidateSet) -> Seq<(HydratedDeclaration, RetrievedCandidate)> {
    s.candidates@.map_values(|c: RetrievedCandidate| (s.anchor, c))
}

/// Every anchor–candidate pair, set by set, in candidate order.
pub open spec fn all_pairs(sets: Seq<CandidateSet>) -> Seq<(HydratedDeclaration, RetrievedCandidate)>
    decreases sets.len(),
{
    if sets.len() == 0 {
        Seq::empty()
    } else {
        all_pairs(sets.drop_last()) + pairs_of(sets.last())
    }
}

/// The id of the group a pair ranks into.
pub open spec fn pair_group_id(p: (HydratedDeclaration, RetrievedCandidate), input: RankingInput) -> Seq<char> {
    group_id_spec(p.0.declaration_id@, p.1.declaration.declaration_id@, relation_spec(p.0, p.1, input))
}

/// `g` is the group of the first pair of `ps` ranking into its id.
pub open spec fn first_group(g: RankedGroup, ps: Seq<(HydratedDeclaration, RetrievedCandidate)>, input: RankingInput) -> bool {
    exists|k: int|
        0 <= k < ps.len() && #[trigger] group_ok(g, ps[k].0, ps[k].1, input) && forall|q: int|
            0 <= q < k ==> pair_group_id(#[trigger] ps[q], input) != g.id@
}

/// The suppressed relations of every pair, in pair order.
pub open spec fn all_suppressed(ps: Seq<(HydratedDeclaration, RetrievedCandidate)>, input: RankingInput) -> Seq<
    (Seq<char>, ReviewRelation, ReviewRelation, Seq<char>),
>
    decreases ps.len(),
{
    if ps.len() == 0 {
        Seq::empty()
    } else {
        all_suppressed(ps.drop_last(), input) + suppressed_spec(
            ps.last().1.pair_id@,
            relation_spec(ps.last().0, ps.last().1, input),
            ps.last().1.explanation.contributions@,
        )
    }
}

proof fn lemma_first_group_extend(
    g: RankedGroup,
    ps: Seq<(HydratedDeclaration, RetrievedCandidate)>,
    p: (HydratedDeclaration, RetrievedCandidate),
    input: RankingInput,
)
    requires
        first_group(g, ps, input),
    ensures
        first_group(g, ps.push(p), input),
{
    let k = choose|k: int|
        0 <= k < ps.len() && #[trigger] group_ok(g, ps[k].0, ps[k].1, input) && forall|q: int|
            0 <= q < k ==> pair_group_id(#[trigger] ps[q], input) != g.id@;
    let ps2 = ps.push(p);
    assert(ps2[k] == ps[k]);
    assert forall|q: int| 0 <= q < k implies pair_group_id(#[trigger] ps2[q], input) != g.id@ by {
        assert(ps2[q] == ps[q]);
    }
    assert(group_ok(g, ps2[k].0, ps2[k].1, input));
}

/// Ranks every retrieved pair, keeps the first group of each id, and orders
/// the queue by priority, confidence and id.
pub fn rank_candidates(input: &RankingInput) -> (r: RankedReview)
    ensures
        groups_sorted(r.groups@),
        forall|g: RankedGroup| r.groups@.contains(g) ==> first_group(g, all_pairs(input.candidate_sets@), *input),
        forall|k: int|
            0 <= k < all_pairs(input.candidate_sets@).len() ==> has_group_id(
                r.groups@,
                pair_group_id(#[trigger] all_pairs(input.candidate_sets@)[k], *input),
            ),
        sup_views(r.suppressed@) == all_suppressed(all_pairs(input.candidate_sets@), *input),
        r.diagnostics.candidate_pairs as int == if all_pairs(input.candidate_sets@).len() > usize::MAX {
            usize::MAX as int
        } else {
            all_pairs(input.candidate_sets@).len() as int
        },
        r.diagnostics.emitted_groups == r.groups@.len(),
        r.diagnostics.suppressed_groups == r.suppressed@.len(),
{
    let sets = &input.candidate_sets;
    let mut groups: Vec<RankedGroup> = Vec::new();
    let mut suppressed: Vec<SuppressedGroup> = Vec::new();
    let mut count: usize = 0;
    let ghost mut done: Seq<(HydratedDeclaration, RetrievedCandidate)> = Seq::empty();
    let mut i: usize = 0;
    proof {
        assert(sup_views(suppressed@) =~= Seq::empty());
        assert(all_pairs(sets@.take(0)) =~= Seq::empty());
    }
    while i < sets.len()
        invariant
            i <= sets@.len(),
            sets@ == input.candidate_sets@,
            done == all_pairs(sets@.take(i as int)),
            groups_sorted(groups@),
            forall|g: RankedGroup| groups@.contains(g) ==> first_group(g, done, *input),
            forall|k: int| 0 <= k < done.len() ==> has_group_id(groups@, pair_group_id(#[trigger] done[k], *input)),
            sup_views(suppressed@) == all_suppressed(done, *input),
            count as int == if done.len() > usize::MAX {
                usize::MAX as int
            } else {
                done.len() as int
            },
        decreases sets@.len() - i,
    {
        let set = &sets[i];
        let ghost base = done;
        let mut j: usize = 0;
        proof {
            assert(pairs_of(*set).take(0) =~= Seq::empty());
            assert(base + pairs_of(*set).take(0) =~= base);
        }
        while j < set.candidates.len()
            invariant
                j <= set.candidates@.len(),
                *set == sets@[i as int],
                done == base + pairs_of(*set).take(j as int),
                groups_sorted(groups@),
                forall|g: RankedGroup| groups@.contains(g) ==> first_group(g, done, *input),
                forall|k: int| 0 <= k < done.len() ==> has_group_id(groups@, pair_group_id(#[trigger] done[k], *input)),
                sup_views(suppressed@) == all_suppressed(done, *input),
                count as int == if done.len() > usize::MAX {
                    usize::MAX as int
                } else {
                    done.len() as int
                },
            decreases set.candidates@.len() - j,
        {
            let c = &set.candidates[j];
            let group = rank_pair(&set.anchor, c, input);
            let ghost p = (set.anchor, *c);
            let ghost old_groups = groups@;
            let ghost old_done = done;
            let more = suppressed_relations(&group, c);
            let mut m: usize = 0;
            let ghost sup_before = sup_views(suppressed@);
            while m < more.len()
                invariant
                    m <= more@.len(),
                    sup_views(suppressed@) == sup_before + sup_views(more@).take(m as int),
                decreases more@.len() - m,
            {
                let x = SuppressedGroup {
                    pair_id: more[m].pair_id.clone(),
                    suppressed_relation: more[m].suppressed_relation,
                    covered_by: more[m].covered_by,
                    reason: more[m].reason.clone(),
                };
                let ghost prev = sup_views(suppressed@);
                suppressed.push(x);
                proof {
                    assert(sup_views(suppressed@) =~= prev.push(sup_view(more@[m as int])));
                    assert(sup_views(more@).take(m + 1) =~= sup_views(more@).take(m as int).push(
                        sup_view(more@[m as int]),
                    ));
                }
                m = m + 1;
            }
            proof {
                assert(sup_views(more@).take(more@.len() as int) =~= sup_views(more@));
                done = done.push(p);
                assert(done.drop_last() =~= old_done);
                assert(done.last() == p);
                assert(pairs_of(*set).take(j + 1) =~= pairs_of(*set).take(j as int).push(p));
                assert(done =~= base + pairs_of(*set).take(j + 1));
            }
            let ghost gv = group;
            let had = groups.len();
            add_group(&mut groups, group);
            proof {
                assert(gv.id@ == pair_group_id(p, *input));
                if has_group_id(old_groups, gv.id@) {
                    assert forall|g: RankedGroup| groups@.contains(g) implies first_group(g, done, *input) by {
                        lemma_first_group_extend(g, old_done, p, *input);
                    }
                } else {
                    assert forall|g: RankedGroup| groups@.contains(g) implies first_group(g, done, *input) by {
                        if old_groups.contains(g) {
                            lemma_first_group_extend(g, old_done, p, *input);
                        } else {
                            assert(g == gv);
                            let k = old_done.len() as int;
                            assert(done[k] == p);
                            assert forall|q: int| 0 <= q < k implies pair_group_id(#[trigger] done[q], *input)
                                != g.id@ by {
                                assert(done[q] == old_done[q]);
                                if pair_group_id(old_done[q], *input) == g.id@ {
                                    assert(has_group_id(old_groups, pair_group_id(old_done[q], *input)));
                                }
                            }
                            assert(group_ok(g, done[k].0, done[k].1, *input));
                        }
                    }
                }
                assert forall|k: int| 0 <= k < done.len() implies has_group_id(
                    groups@,
                    pair_group_id(#[trigger] done[k], *input),
                ) by {
                    if k < old_done.len() {
                        assert(done[k] == old_done[k]);
                        assert(has_group_id(old_groups, pair_group_id(old_done[k], *input)));
                    } else {
                        assert(done[k] == p);
                    }
                }
            }
            if count < usize::MAX {
                count = count + 1;
            }
            j = j + 1;
        }
        proof {
            assert(pairs_of(*set).take(set.candidates@.len() as int) =~= pairs_of(*set));
            assert(sets@.take(i + 1).drop_last() =~= sets@.take(i as int));
            assert(sets@.take(i + 1).last() == *set);
        }
        i = i + 1;
    }
    proof {
        assert(sets@.take(sets@.len() as int) =~= sets@);
    }
    let emitted = groups.len();
    let sup_count = suppressed.len();
    RankedReview {
        groups,
        suppressed,
        diagnostics: RankingDiagnostics {
            candidate_pairs: count,
            emitted_groups: emitted,
            suppressed_groups: sup_count,
        },
    }
}


/// A group is noise in confidence exactly when it is noise in priority.
pub proof fn lemma_noise_confidence_matches_priority(g: RankedGroup, a: HydratedDeclaration, c: RetrievedCandidate, input: RankingInput)
    requires
        group_ok(g, a, c, input),
    ensures
        (g.confidence == ConfidenceTier::Noise) == (g.review_priority == ReviewPriority::Noise),
{
}

/// When the comparison policy asks for proof-grade evidence, a strong static
/// match that Lean did not verify is demoted to noise.
pub proof fn lemma_unverified_static_match_is_noise(
    g: RankedGroup,
    a: HydratedDeclaration,
    c: RetrievedCandidate,
    input: RankingInput,
)
    requires
        group_ok(g, a, c, input),
        semantic_required_spec(a, c.declaration, input.comparison_policy),
        has_kind(c.explanation.contributions@, "statement-fingerprint"@) || has_kind(
            c.explanation.contributions@,
            "safe-permutation-fingerprint"@,
        ) || has_kind(c.explanation.contributions@, "connective-fingerprint"@),
        !proof_grade_opt(sem_of(input, c)),
    ensures
        g.review_priority == ReviewPriority::Noise,
        views(g.blockers@).contains("unverified-proof-grade-evidence"@),
{
    assert(blocker_set(a, c, input).contains("unverified-proof-grade-evidence"@));
    assert(views(g.blockers@).to_set().contains("unverified-proof-grade-evidence"@));
}

/// An exact statement match involving Mathlib is reported as already in
/// Mathlib.
pub proof fn lemma_exact_mathlib_match_already_in_mathlib(
    g: RankedGroup,
    a: HydratedDeclaration,
    c: RetrievedCandidate,
    input: RankingInput,
)
    requires
        group_ok(g, a, c, input),
        g.relation == ReviewRelation::ExactStatement,
        has_mathlib_spec(a, c.declaration),
    ensures
        g.recommended_action == ReviewAction::AlreadyInMathlib,
{
}

/// Groups with a generated member are hidden unless generated findings are
/// asked for.
pub proof fn lemma_generated_hidden_by_default(
    g: RankedGroup,
    a: HydratedDeclaration,
    c: RetrievedCandidate,
    input: RankingInput,
    f: ReviewFilter,
)
    requires
        group_ok(g, a, c, input),
        crate::review_policy::generated_spec(a) || crate::review_policy::generated_spec(c.declaration),
        !f.include_generated,
    ensures
        !filter_includes(f, g),
{
    assert(visibility_blocker_set(a, c.declaration, c.explanation.contributions@).contains("generated-declaration"@));
    assert(blocker_set(a, c, input).contains("generated-declaration"@));
    assert(views(g.blockers@).to_set().contains("generated-declaration"@));
}

/// A group Lean rejected or could not probe is hidden unless diagnostics are
/// asked for.
pub proof fn lemma_failed_probe_hidden_by_default(
    g: RankedGroup,
    a: HydratedDeclaration,
    c: RetrievedCandidate,
    input: RankingInput,
    f: ReviewFilter,
)
    requires
        group_ok(g, a, c, input),
        status_is(sem_of(input, c), EvidenceStatus::Rejected) || status_is(
            sem_of(input, c),
            EvidenceStatus::Unavailable,
        ),
        !f.include_diagnostics,
    ensures
        !filter_includes(f, g),
{
    if status_is(sem_of(input, c), EvidenceStatus::Rejected) {
        assert(blocker_set(a, c, input).contains("lean-probe-rejected"@));
        assert(views(g.blockers@).to_set().contains("lean-probe-rejected"@));
    } else {
        assert(blocker_set(a, c, input).contains("lean-probe-unavailable"@));
        assert(views(g.blockers@).to_set().contains("lean-probe-unavailable"@));
    }
}

/// Only exact and specialization groups suppress weaker relations, and a
/// relation never suppresses itself.
pub proof fn lemma_suppression_shape(pair_id: Seq<char>, rel: ReviewRelation, cs: Seq<KeyContribution>, i: int)
    requires
        0 <= i < suppressed_spec(pair_id, rel, cs).len(),
    ensures
        rel == ReviewRelation::ExactStatement || rel == ReviewRelation::Specialization,
        suppressed_spec(pair_id, rel, cs)[i].2 == rel,
        suppressed_spec(pair_id, rel, cs)[i].1 != rel,
        suppressed_spec(pair_id, rel, cs)[i].0 == pair_id,
{
}

/// Proof-grade evidence makes a group's evidence mode proof-grade.
pub proof fn lemma_proof_grade_mode(g: RankedGroup, a: HydratedDeclaration, c: RetrievedCandidate, input: RankingInput)
    requires
        group_ok(g, a, c, input),
        proof_grade_opt(sem_of(input, c)),
    ensures
        g.evidence_mode == ReviewEvidenceMode::ProofGrade,
{
}

/// Kebab-case name of a priority.
pub open spec fn priority_label(p: ReviewPriority) -> Seq<char> {
    match p {
        ReviewPriority::High => "high"@,
        ReviewPriority::Medium => "medium"@,
        ReviewPriority::Low => "low"@,
        ReviewPriority::Noise => "noise"@,
    }
}

/// Kebab-case name of a confidence tier.
pub open spec fn confidence_label(c: ConfidenceTier) -> Seq<char> {
    match c {
        ConfidenceTier::High => "high"@,
        ConfidenceTier::Medium => "medium"@,
        ConfidenceTier::Low => "low"@,
        ConfidenceTier::Noise => "noise"@,
    }
}

/// Kebab-case name of an action.
pub open spec fn action_label(a: ReviewAction) -> Seq<char> {
    match a {
        ReviewAction::AlreadyInMathlib => "already-in-mathlib"@,
        ReviewAction::LocalAlias => "local-alias"@,
        ReviewAction::ReplaceLocalUses => "replace-local-uses"@,
        ReviewAction::InlinePrivateHelper => "inline-private-helper"@,
        ReviewAction::MergeGeneralization => "merge-generalization"@,
        ReviewAction::SpecializationOf => "specialization-of"@,
        ReviewAction::ProbableSourceClone => "probable-source-clone"@,
        ReviewAction::ManualReview => "manual-review"@,
    }
}

/// Kebab-case name of an evidence mode.
pub open spec fn evidence_mode_label(m: ReviewEvidenceMode) -> Seq<char> {
    match m {
        ReviewEvidenceMode::Static => "static"@,
        ReviewEvidenceMode::SourceBackedNotImportable => "source-backed-not-importable"@,
        ReviewEvidenceMode::ProofGrade => "proof-grade"@,
    }
}

impl ReviewPriority {
    /// Kebab-case name of the priority.
    pub fn label(self) -> (r: &'static str)
        ensures
            r@ == priority_label(self),
    {
        match self {
            ReviewPriority::High => "high",
            ReviewPriority::Medium => "medium",
            ReviewPriority::Low => "low",
            ReviewPriority::Noise => "noise",
        }
    }
}

impl ConfidenceTier {
    /// Kebab-case name of the confidence tier.
    pub fn label(self) -> (r: &'static str)
        ensures
            r@ == confidence_label(self),
    {
        match self {
            ConfidenceTier::High => "high",
            ConfidenceTier::Medium => "medium",
            ConfidenceTier::Low => "low",
            ConfidenceTier::Noise => "noise",
        }
    }
}

impl ReviewAction {
    /// Kebab-case name of the action.
    pub fn label(self) -> (r: &'static str)
        ensures
            r@ == action_label(self),
    {
        match self {
            ReviewAction::AlreadyInMathlib => "already-in-mathlib",
            ReviewAction::LocalAlias => "local-alias",
            ReviewAction::ReplaceLocalUses => "replace-local-uses",
            ReviewAction::InlinePrivateHelper => "inline-private-helper",
            ReviewAction::MergeGeneralization => "merge-generalization",
            ReviewAction::SpecializationOf => "specialization-of",
            ReviewAction::ProbableSourceClone => "probable-source-clone",
            ReviewAction::ManualReview => "manual-review",
        }
    }
}

impl ReviewEvidenceMode {
    /// Kebab-case name of the evidence mode.
    pub fn label(self) -> (r: &'static str)
        ensures
            r@ == evidence_mode_label(self),
    {
        match self {
            ReviewEvidenceMode::Static => "static",
            ReviewEvidenceMode::SourceBackedNotImportable => "source-backed-not-importable",
            ReviewEvidenceMode::ProofGrade => "proof-grade",
        }
    }
}

/// The review priority and confidence of a ranked pair. A group with a
/// generated, broad-head-only, low-signal, instance-noise, static-only
/// non-theorem or unverified proof-grade blocker is noise. Otherwise a
/// weak feature overlap or a score below the profile's near score makes it
/// low; else exact statements are high; permuted, connective-equivalent
/// and specialization groups medium; source clones and near statements
/// low; subsumption candidates low against Mathlib and medium otherwise.
/// Confidence is noise for noise, else high for exact statements, low for
/// near statements and medium for the rest.
pub proof fn lemma_review_priority(g: RankedGroup, a: HydratedDeclaration, c: RetrievedCandidate, input: RankingInput)
    requires
        group_ok(g, a, c, input),
    ensures
        ({
            let bs = views(g.blockers@);
            let noise = bs.contains("generated-declaration"@) || bs.contains("broad-head-only"@) || bs.contains(
                "low-signal-declaration"@,
            ) || bs.contains("typeclass-instance-noise"@) || bs.contains("non-theorem-static-only"@) || bs.contains(
                "unverified-proof-grade-evidence"@,
            );
            let weak = bs.contains("weak-feature-overlap"@) || c.score < input.profile.min_near_score;
            let mathlib = a.origin@ == "mathlib"@ || c.declaration.origin@ == "mathlib"@;
            &&& noise ==> g.review_priority == ReviewPriority::Noise && g.confidence == ConfidenceTier::Noise
            &&& !noise && weak ==> g.review_priority == ReviewPriority::Low
            &&& !noise && !weak ==> g.review_priority == match g.relation {
                ReviewRelation::ExactStatement => ReviewPriority::High,
                ReviewRelation::PermutedStatement => ReviewPriority::Medium,
                ReviewRelation::ConnectiveEquivalent => ReviewPriority::Medium,
                ReviewRelation::Specialization => ReviewPriority::Medium,
                ReviewRelation::SourceClone => ReviewPriority::Low,
                ReviewRelation::SubsumptionCandidate => if mathlib {
                    ReviewPriority::Low
                } else {
                    ReviewPriority::Medium
                },
                ReviewRelation::NearStatement => ReviewPriority::Low,
            }
            &&& !noise ==> g.confidence == match g.relation {
                ReviewRelation::ExactStatement => ConfidenceTier::High,
                ReviewRelation::NearStatement => ConfidenceTier::Low,
                _ => ConfidenceTier::Medium,
            }
        }),
{
    let bs = blocker_set(a, c, input);
    assert forall|x: Seq<char>| views(g.blockers@).contains(x) <==> bs.contains(x) by {
        assert(views(g.blockers@).to_set().contains(x) <==> views(g.blockers@).contains(x));
    }
}

} // verus!
