//! Vector candidate generation policy for search: which declarations take
//! part, the facts recorded about a run, and how nearest-neighbour answers
//! become candidate pairs.
//!
//! Embedding and vector-corpus work happen outside; this module decides
//! everything around them.
use vstd::prelude::*;

use crate::declaration::HydratedDeclaration;
use crate::digest::{hex_of, sha256_digest, sha256_hex};
use crate::sets::{contains_str, views};
use crate::text::{blank, has_prefix, is_blank, lex_le, lemma_lex_trichotomy, owned, push_char, starts_with, str_eq, str_lt};
use crate::vector_documents::{ContentAvailability, DocumentPolicy, SemanticDocuments};

verus! {

/// Version tag of the search vector candidate policy.
pub const VECTOR_CANDIDATE_POLICY_VERSION: &'static str = "lean-dup.vector-candidate.v1";

/// Nearest neighbours kept per query declaration.
pub const VECTOR_CANDIDATE_TOP_K: usize = 32;

/// Whether a missing embedding model may be downloaded.
#[derive(Debug, Clone, Copy, PartialEq, Eq, Structural)]
pub enum SearchVectorAcquisitionPolicy {
    CacheOnly,
    DownloadIfMissing,
}

/// How queries and documents are laid out for the embedding model.
#[derive(Debug, Clone, Copy, PartialEq, Eq, Structural)]
pub enum SearchVectorInputFormat {
    SymmetricDocument,
    AsymmetricQueryDocument,
}

/// The id of an input format.
pub open spec fn search_input_format_id(f: SearchVectorInputFormat) -> Seq<char> {
    match f {
        SearchVectorInputFormat::SymmetricDocument => "symmetric-document"@,
        SearchVectorInputFormat::AsymmetricQueryDocument => "asymmetric-query-document"@,
    }
}

impl SearchVectorInputFormat {
    /// The stable id of this format.
    pub fn id(self) -> (r: &'static str)
        ensures
            r@ == search_input_format_id(self),
    {
        match self {
            SearchVectorInputFormat::SymmetricDocument => "symmetric-document",
            SearchVectorInputFormat::AsymmetricQueryDocument => "asymmetric-query-document",
        }
    }

    /// The version of the input-format rules, the same for every format.
    pub fn version(self) -> (r: &'static str)
        ensures
            r@ == "lean-dup.embedding-input-format.v1"@,
    {
        "lean-dup.embedding-input-format.v1"
    }
}

impl Default for SearchVectorInputFormat {
    fn default() -> (r: SearchVectorInputFormat)
        ensures
            r == SearchVectorInputFormat::AsymmetricQueryDocument,
    {
        SearchVectorInputFormat::AsymmetricQueryDocument
    }
}

/// Overall status of a vector candidate run.
#[derive(Debug, Clone, Copy, PartialEq, Eq, Structural)]
pub enum SearchVectorCandidateStatus {
    Disabled,
    Skipped,
    Failed,
    /// Candidates were generated (serialised as `ok`).
    Generated,
}

/// State of the persisted vector corpus a run used.
#[derive(Debug, Clone, Copy, PartialEq, Eq, Structural)]
pub enum SearchVectorCorpusStatus {
    Built,
    Reused,
    Missing,
    Stale,
    Unusable,
}

/// Which declarations take part in vector candidate generation.
#[derive(Debug, Clone, Copy, PartialEq, Eq, Structural)]
pub enum SearchVectorEligibilityPolicy {
    /// Public, non-generated, actionable theorem-like declarations.
    ActionablePublicStatement,
    /// Every declaration with statement text.
    Broad,
}

/// The id of an eligibility policy.
pub open spec fn search_eligibility_id(p: SearchVectorEligibilityPolicy) -> Seq<char> {
    match p {
        SearchVectorEligibilityPolicy::ActionablePublicStatement => "actionable-public-statement"@,
        SearchVectorEligibilityPolicy::Broad => "broad"@,
    }
}

impl SearchVectorEligibilityPolicy {
    /// The stable id of this policy.
    pub fn id(self) -> (r: &'static str)
        ensures
            r@ == search_eligibility_id(self),
    {
        match self {
            SearchVectorEligibilityPolicy::ActionablePublicStatement => "actionable-public-statement",
            SearchVectorEligibilityPolicy::Broad => "broad",
        }
    }
}

impl Default for SearchVectorEligibilityPolicy {
    fn default() -> (r: SearchVectorEligibilityPolicy)
        ensures
            r == SearchVectorEligibilityPolicy::ActionablePublicStatement,
    {
        SearchVectorEligibilityPolicy::ActionablePublicStatement
    }
}

/// A request for vector candidates, with the run's policies and cache roots.
#[derive(Debug, Clone)]
pub struct SearchVectorCandidateRequest {
    pub profile_id: String,
    pub revision: Option<String>,
    pub input_format: SearchVectorInputFormat,
    pub acquisition_policy: SearchVectorAcquisitionPolicy,
    pub model_cache_root: Option<String>,
    pub text_vector_cache_root: Option<String>,
    pub corpus_cache_root: String,
    pub document_policy: DocumentPolicy,
    pub eligibility_policy: SearchVectorEligibilityPolicy,
}

/// The skip-reason labels, in their sorted order.
pub open spec fn search_skip_labels() -> Seq<Seq<char>> {
    seq![
        "generated"@,
        "low-signal"@,
        "missing-statement"@,
        "not-actionable"@,
        "private"@,
        "synthetic"@,
        "unsupported-kind"@,
    ]
}

/// Declarations that exist only as fixtures or expansions.
pub open spec fn synthetic_declaration(d: HydratedDeclaration) -> bool {
    ||| has_prefix(d.declaration_id@, "synthetic:"@)
    ||| d.module@ == "Synthetic"@
    ||| has_prefix(d.qualified_name@, "Synthetic."@)
}

/// Instances, which are not acted on as duplicate declarations.
pub open spec fn not_actionable_declaration(d: HydratedDeclaration) -> bool {
    d.kind@ == "instance"@ || has_prefix(d.display_name@, "inst"@)
}

/// Kinds whose statements are embedded.
pub open spec fn vector_kind(kind: Seq<char>) -> bool {
    ||| kind == "theorem"@
    ||| kind == "lemma"@
    ||| kind == "axiom"@
    ||| kind == "def"@
    ||| kind == "definition"@
    ||| kind == "abbrev"@
}

/// Why `d` takes no part under `policy` (index into `search_skip_labels`):
/// under the broad policy only a blank statement; under the actionable one,
/// in order, generated, not public, synthetic, low-signal, blank statement,
/// not actionable, unsupported kind.
pub open spec fn search_skip_index(d: HydratedDeclaration, policy: SearchVectorEligibilityPolicy) -> Option<
    int,
> {
    match policy {
        SearchVectorEligibilityPolicy::Broad => if is_blank(d.statement_text@) {
            Some(2)
        } else {
            None
        },
        SearchVectorEligibilityPolicy::ActionablePublicStatement => if views(
            d.status_flags@,
        ).contains("generated"@) {
            Some(0)
        } else if d.visibility@ != "public"@ {
            Some(4)
        } else if synthetic_declaration(d) {
            Some(5)
        } else if d.low_signal_markers@.len() > 0 {
            Some(1)
        } else if is_blank(d.statement_text@) {
            Some(2)
        } else if not_actionable_declaration(d) {
            Some(3)
        } else if !vector_kind(d.kind@) {
            Some(6)
        } else {
            None
        },
    }
}

/// Number of declarations of `ds` skipped for reason `k`.
pub open spec fn search_skip_count(
    ds: Seq<HydratedDeclaration>,
    policy: SearchVectorEligibilityPolicy,
    k: int,
) -> nat
    decreases ds.len(),
{
    if ds.len() == 0 {
        0
    } else {
        search_skip_count(ds.drop_last(), policy, k) + if search_skip_index(ds.last(), policy) == Some(
            k,
        ) {
            1nat
        } else {
            0nat
        }
    }
}

/// The declarations of `ds` that take part, in order.
pub open spec fn search_eligible_of(
    ds: Seq<HydratedDeclaration>,
    policy: SearchVectorEligibilityPolicy,
) -> Seq<HydratedDeclaration>
    decreases ds.len(),
{
    if ds.len() == 0 {
        Seq::empty()
    } else if search_skip_index(ds.last(), policy) is None {
        search_eligible_of(ds.drop_last(), policy).push(ds.last())
    } else {
        search_eligible_of(ds.drop_last(), policy)
    }
}

/// The nonzero counts, label and count, in label order.
pub open spec fn search_entries_from(counts: Seq<nat>, k: int) -> Seq<(Seq<char>, nat)>
    decreases 7 - k,
{
    if k >= 7 || k < 0 {
        Seq::empty()
    } else if counts[k] > 0 {
        seq![(search_skip_labels()[k], counts[k])] + search_entries_from(counts, k + 1)
    } else {
        search_entries_from(counts, k + 1)
    }
}

/// The skip counts of `ds`, by reason index.
pub open spec fn search_skip_counts(ds: Seq<HydratedDeclaration>, policy: SearchVectorEligibilityPolicy) -> Seq<
    nat,
> {
    Seq::new(7, |k: int| search_skip_count(ds, policy, k))
}

/// Label and count of each reason entry.
pub open spec fn reason_entries(v: Seq<(String, usize)>) -> Seq<(Seq<char>, nat)> {
    v.map_values(|e: (String, usize)| (e.0@, e.1 as nat))
}

/// Counts of one eligibility pass.
#[derive(Debug, Clone)]
pub struct SearchVectorEligibilitySummary {
    pub policy_id: String,
    pub policy_version: &'static str,
    pub total: usize,
    pub eligible: usize,
    /// Skip counts by reason label, in label order, zero counts left out.
    pub skipped_by_reason: Vec<(String, usize)>,
}

impl Default for SearchVectorEligibilitySummary {
    fn default() -> (r: SearchVectorEligibilitySummary)
        ensures
            r.policy_id@ == Seq::<char>::empty(),
            r.policy_version@ == Seq::<char>::empty(),
            r.total == 0,
            r.eligible == 0,
            r.skipped_by_reason@.len() == 0,
    {
        let r = SearchVectorEligibilitySummary {
            policy_id: String::new(),
            policy_version: "",
            total: 0,
            eligible: 0,
            skipped_by_reason: Vec::new(),
        };
        proof {
            reveal_strlit("");
        }
        r
    }
}

/// The declarations that take part, with the pass's counts.
#[derive(Debug)]
pub struct SearchEligibleDeclarations {
    pub summary: SearchVectorEligibilitySummary,
    pub declarations: Vec<HydratedDeclaration>,
}

/// The skip reason of `declaration` under `policy`, as its label index.
pub fn vector_skip_index(declaration: &HydratedDeclaration, policy: SearchVectorEligibilityPolicy) -> (r:
    Option<usize>)
    ensures
        match r {
            Some(k) => search_skip_index(*declaration, policy) == Some(k as int) && k < 7,
            None => search_skip_index(*declaration, policy) is None,
        },
{
    let missing_statement = blank(declaration.statement_text.as_str());
    match policy {
        SearchVectorEligibilityPolicy::Broad => {
            if missing_statement {
                Some(2)
            } else {
                None
            }
        },
        SearchVectorEligibilityPolicy::ActionablePublicStatement => {
            if contains_str(&declaration.status_flags, "generated") {
                return Some(0);
            }
            if !str_eq(declaration.visibility.as_str(), "public") {
                return Some(4);
            }
            if starts_with(declaration.declaration_id.as_str(), "synthetic:") || str_eq(
                declaration.module.as_str(),
                "Synthetic",
            ) || starts_with(declaration.qualified_name.as_str(), "Synthetic.") {
                return Some(5);
            }
            if declaration.low_signal_markers.len() > 0 {
                return Some(1);
            }
            if missing_statement {
                return Some(2);
            }
            if str_eq(declaration.kind.as_str(), "instance") || starts_with(
                declaration.display_name.as_str(),
                "inst",
            ) {
                return Some(3);
            }
            let k = declaration.kind.as_str();
            if !(str_eq(k, "theorem") || str_eq(k, "lemma") || str_eq(k, "axiom") || str_eq(k, "def")
                || str_eq(k, "definition") || str_eq(k, "abbrev")) {
                return Some(6);
            }
            None
        },
    }
}

/// The label with index `k`.
pub fn search_skip_label(k: usize) -> (r: &'static str)
    requires
        k < 7,
    ensures
        r@ == search_skip_labels()[k as int],
{
    if k == 0 {
        "generated"
    } else if k == 1 {
        "low-signal"
    } else if k == 2 {
        "missing-statement"
    } else if k == 3 {
        "not-actionable"
    } else if k == 4 {
        "private"
    } else if k == 5 {
        "synthetic"
    } else {
        "unsupported-kind"
    }
}

/// The skip label of `declaration` under `policy`, `None` when it takes part.
pub fn vector_skip_reason(declaration: &HydratedDeclaration, policy: SearchVectorEligibilityPolicy) -> (r:
    Option<&'static str>)
    ensures
        match r {
            Some(l) => search_skip_index(*declaration, policy) matches Some(k) && 0 <= k < 7 && l@
                == search_skip_labels()[k],
            None => search_skip_index(*declaration, policy) is None,
        },
{
    match vector_skip_index(declaration, policy) {
        Some(k) => Some(search_skip_label(k)),
        None => None,
    }
}

proof fn lemma_search_skip_count_bounded(
    ds: Seq<HydratedDeclaration>,
    policy: SearchVectorEligibilityPolicy,
    k: int,
)
    ensures
        search_skip_count(ds, policy, k) <= ds.len(),
    decreases ds.len(),
{
    if ds.len() > 0 {
        lemma_search_skip_count_bounded(ds.drop_last(), policy, k);
    }
}

fn search_entries(counts: &Vec<usize>, k: usize) -> (r: Vec<(String, usize)>)
    requires
        counts@.len() == 7,
        k <= 7,
    ensures
        reason_entries(r@) == search_entries_from(counts@.map_values(|c: usize| c as nat), k as int),
    decreases 7 - k,
{
    let ghost cs = counts@.map_values(|c: usize| c as nat);
    if k >= 7 {
        let r: Vec<(String, usize)> = Vec::new();
        assert(reason_entries(r@) =~= Seq::<(Seq<char>, nat)>::empty());
        r
    } else {
        let rest = search_entries(counts, k + 1);
        if counts[k] > 0 {
            let mut r: Vec<(String, usize)> = Vec::new();
            r.push((owned(search_skip_label(k)), counts[k]));
            let mut rest = rest;
            r.append(&mut rest);
            assert(cs[k as int] == counts@[k as int] as nat);
            assert(reason_entries(r@) =~= seq![(search_skip_labels()[k as int], cs[k as int])]
                + search_entries_from(cs, k + 1));
            r
        } else {
            assert(cs[k as int] == 0);
            rest
        }
    }
}

/// `s` summarises one eligibility pass over `ds` under `policy`: the
/// policy's id and version, how many declarations there were, how many take
/// part, and the skip count of each reason.
pub open spec fn eligibility_summary_ok(
    s: SearchVectorEligibilitySummary,
    ds: Seq<HydratedDeclaration>,
    policy: SearchVectorEligibilityPolicy,
) -> bool {
    &&& s.policy_id@ == search_eligibility_id(policy)
    &&& s.policy_version@ == VECTOR_CANDIDATE_POLICY_VERSION@
    &&& s.total == ds.len()
    &&& s.eligible == search_eligible_of(ds, policy).len()
    &&& reason_entries(s.skipped_by_reason@) == search_entries_from(search_skip_counts(ds, policy), 0)
}

/// Splits `declarations` into those that take part, in order, and a summary
/// of how many were skipped for each reason.
pub fn eligible_declarations(
    declarations: Vec<HydratedDeclaration>,
    policy: SearchVectorEligibilityPolicy,
) -> (r: SearchEligibleDeclarations)
    ensures
        r.summary.policy_id@ == search_eligibility_id(policy),
        r.summary.policy_version@ == VECTOR_CANDIDATE_POLICY_VERSION@,
        r.summary.total == declarations@.len(),
        r.summary.eligible == search_eligible_of(declarations@, policy).len(),
        r.declarations@ == search_eligible_of(declarations@, policy),
        reason_entries(r.summary.skipped_by_reason@) == search_entries_from(
            search_skip_counts(declarations@, policy),
            0,
        ),
{
    let ghost all = declarations@;
    let total = declarations.len();
    let mut rest = declarations;
    let mut eligible: Vec<HydratedDeclaration> = Vec::new();
    let mut counts: Vec<usize> = vec![0, 0, 0, 0, 0, 0, 0];
    let mut done: usize = 0;
    while rest.len() > 0
        invariant
            all.len() == total,
            done + rest@.len() == total,
            rest@ == all.skip(done as int),
            eligible@ == search_eligible_of(all.take(done as int), policy),
            counts@.len() == 7,
            forall|k: int|
                0 <= k < 7 ==> #[trigger] counts@[k] == search_skip_count(
                    all.take(done as int),
                    policy,
                    k,
                ),
        decreases rest@.len(),
    {
        let d = rest.remove(0);
        proof {
            assert(all.take(done + 1).drop_last() =~= all.take(done as int));
            assert(all.take(done + 1).last() == d);
            assert(rest@ =~= all.skip(done + 1));
            assert forall|k: int| 0 <= k < 7 implies search_skip_count(
                all.take(done as int),
                policy,
                k,
            ) <= done by {
                lemma_search_skip_count_bounded(all.take(done as int), policy, k);
            }
        }
        match vector_skip_index(&d, policy) {
            Some(k) => {
                let c = counts[k];
                counts.set(k, c + 1);
            },
            None => {
                eligible.push(d);
            },
        }
        done = done + 1;
    }
    proof {
        assert(all.take(done as int) =~= all);
    }
    let eligible_count = eligible.len();
    let skipped_by_reason = search_entries(&counts, 0);
    proof {
        assert(counts@.map_values(|c: usize| c as nat) =~= search_skip_counts(all, policy));
    }
    SearchEligibleDeclarations {
        summary: SearchVectorEligibilitySummary {
            policy_id: owned(policy.id()),
            policy_version: VECTOR_CANDIDATE_POLICY_VERSION,
            total,
            eligible: eligible_count,
            skipped_by_reason,
        },
        declarations: eligible,
    }
}

/// The two names of a pair in string order, so that a pair has one key
/// whichever way round it is named.
pub open spec fn pair_key_of(left: Seq<char>, right: Seq<char>) -> (Seq<char>, Seq<char>) {
    if lex_le(left, right) {
        (left, right)
    } else {
        (right, left)
    }
}

/// The order-independent key of a declaration pair.
pub fn pair_key(left: &str, right: &str) -> (r: (String, String))
    ensures
        (r.0@, r.1@) == pair_key_of(left@, right@),
{
    if str_eq(left, right) || str_lt(left, right) {
        (owned(left), owned(right))
    } else {
        (owned(right), owned(left))
    }
}

/// A pair has the same key whichever way round it is named.
pub proof fn lemma_pair_key_symmetric(left: Seq<char>, right: Seq<char>)
    ensures
        pair_key_of(left, right) == pair_key_of(right, left),
        lex_le(pair_key_of(left, right).0, pair_key_of(left, right).1),
{
    lemma_lex_trichotomy(left, right);
}

/// The text hashed for a corpus fingerprint: the policy id, a NUL, the
/// policy version, then for each document a NUL, its name, a NUL and its
/// content hash.
pub open spec fn corpus_fingerprint_text(
    policy_id: Seq<char>,
    policy_version: Seq<char>,
    documents: Seq<(Seq<char>, Seq<char>)>,
) -> Seq<char>
    decreases documents.len(),
{
    if documents.len() == 0 {
        policy_id + seq!['\0'] + policy_version
    } else {
        corpus_fingerprint_text(policy_id, policy_version, documents.drop_last()) + seq!['\0']
            + documents.last().0 + seq!['\0'] + documents.last().1
    }
}

/// Name and content hash of each document.
pub open spec fn document_keys(docs: SemanticDocuments) -> Seq<(Seq<char>, Seq<char>)> {
    docs.documents@.map_values(
        |d: crate::vector_documents::SemanticDocument| (d.declaration_name@, d.content_hash@),
    )
}

/// The fingerprint of the corpus a run embeds, recorded as vector-corpus
/// provenance.
pub fn source_corpus_fingerprint(policy_id: &str, policy_version: &str, documents: &SemanticDocuments) -> (r:
    String)
    ensures
        r@ == hex_of(
            sha256_digest(
                vstd::utf8::encode_utf8(
                    corpus_fingerprint_text(policy_id@, policy_version@, document_keys(*documents)),
                ),
            ),
        ),
{
    let ghost keys = document_keys(*documents);
    let mut s = owned(policy_id);
    push_char(&mut s, '\0');
    s.append(policy_version);
    let mut i: usize = 0;
    while i < documents.documents.len()
        invariant
            i <= documents.documents@.len(),
            keys == document_keys(*documents),
            s@ == corpus_fingerprint_text(policy_id@, policy_version@, keys.take(i as int)),
        decreases documents.documents@.len() - i,
    {
        let d = &documents.documents[i];
        push_char(&mut s, '\0');
        s.append(d.declaration_name.as_str());
        push_char(&mut s, '\0');
        s.append(d.content_hash.as_str());
        proof {
            assert(keys.take(i + 1).drop_last() =~= keys.take(i as int));
            assert(keys.take(i + 1).last() == keys[i as int]);
            assert(s@ =~= corpus_fingerprint_text(policy_id@, policy_version@, keys.take(i + 1)));
        }
        i = i + 1;
    }
    assert(keys.take(i as int) =~= keys);
    sha256_hex(s.as_str())
}

/// The fingerprint of a model without one of its own: the digest of its id,
/// a NUL, and its revision when it has one.
pub fn fallback_model_fingerprint(id: &str, revision: Option<&str>) -> (r: String)
    ensures
        r@ == hex_of(
            sha256_digest(
                vstd::utf8::encode_utf8(
                    id@ + seq!['\0'] + match revision {
                        Some(rev) => rev@,
                        None => Seq::<char>::empty(),
                    },
                ),
            ),
        ),
{
    let mut s = owned(id);
    push_char(&mut s, '\0');
    let ghost head = s@;
    match revision {
        Some(rev) => {
            s.append(rev);
            assert(s@ =~= head + rev@);
        },
        None => {
            assert(s@ =~= head + Seq::<char>::empty());
        },
    }
    assert(head =~= id@ + seq!['\0']);
    sha256_hex(s.as_str())
}

/// Stable facts of a vector candidate run.
#[derive(Debug, Clone)]
pub struct SearchVectorCandidateSummary {
    pub version: &'static str,
    pub status: SearchVectorCandidateStatus,
    pub reason: Option<String>,
    pub model_id: String,
    pub model_profile_id: String,
    pub input_format_id: String,
    pub input_format_version: String,
    pub acquisition_policy: SearchVectorAcquisitionPolicy,
    pub document_policy_id: String,
    pub document_policy_version: String,
    pub corpus_status: Option<SearchVectorCorpusStatus>,
    pub query_declaration_count: usize,
    pub corpus_declaration_count: usize,
    pub query_eligibility: SearchVectorEligibilitySummary,
    pub corpus_eligibility: SearchVectorEligibilitySummary,
    pub query_document_content: ContentAvailability,
    pub corpus_document_content: ContentAvailability,
    pub top_k: usize,
    pub eligible_corpus_size: usize,
    pub top_k_saturated: bool,
    pub vector_generated_candidate_count: usize,
    pub corpus_build_ms: u128,
    pub query_ms: u128,
    pub embedding_ms: u128,
}

impl Default for SearchVectorCandidateSummary {
    /// The summary of a run that did not happen.
    fn default() -> (r: SearchVectorCandidateSummary)
        ensures
            r.version@ == VECTOR_CANDIDATE_POLICY_VERSION@,
            r.status == SearchVectorCandidateStatus::Disabled,
            r.reason is None,
            r.model_id@.len() == 0 && r.model_profile_id@.len() == 0,
            r.input_format_id@ == "asymmetric-query-document"@,
            r.input_format_version@ == "lean-dup.embedding-input-format.v1"@,
            r.acquisition_policy == SearchVectorAcquisitionPolicy::CacheOnly,
            r.document_policy_id@.len() == 0 && r.document_policy_version@.len() == 0,
            r.corpus_status is None,
            r.query_declaration_count == 0 && r.corpus_declaration_count == 0,
            r.query_eligibility.total == 0 && r.query_eligibility.eligible == 0
                && r.query_eligibility.skipped_by_reason@.len() == 0
                && r.query_eligibility.policy_id@.len() == 0,
            r.corpus_eligibility.total == 0 && r.corpus_eligibility.eligible == 0
                && r.corpus_eligibility.skipped_by_reason@.len() == 0
                && r.corpus_eligibility.policy_id@.len() == 0,
            r.query_document_content.total == 0 && r.corpus_document_content.total == 0,
            r.top_k == VECTOR_CANDIDATE_TOP_K,
            r.eligible_corpus_size == 0,
            !r.top_k_saturated,
            r.vector_generated_candidate_count == 0,
            r.corpus_build_ms == 0 && r.query_ms == 0 && r.embedding_ms == 0,
    {
        let format = SearchVectorInputFormat::default();
        SearchVectorCandidateSummary {
            version: VECTOR_CANDIDATE_POLICY_VERSION,
            status: SearchVectorCandidateStatus::Disabled,
            reason: None,
            model_id: String::new(),
            model_profile_id: String::new(),
            input_format_id: owned(format.id()),
            input_format_version: owned(format.version()),
            acquisition_policy: SearchVectorAcquisitionPolicy::CacheOnly,
            document_policy_id: String::new(),
            document_policy_version: String::new(),
            corpus_status: None,
            query_declaration_count: 0,
            corpus_declaration_count: 0,
            query_eligibility: SearchVectorEligibilitySummary::default(),
            corpus_eligibility: SearchVectorEligibilitySummary::default(),
            query_document_content: ContentAvailability::default(),
            corpus_document_content: ContentAvailability::default(),
            top_k: VECTOR_CANDIDATE_TOP_K,
            eligible_corpus_size: 0,
            top_k_saturated: false,
            vector_generated_candidate_count: 0,
            corpus_build_ms: 0,
            query_ms: 0,
            embedding_ms: 0,
        }
    }
}

/// The summary a run starts from once eligibility and documents are known:
/// skipped until the run completes, with the request's policies, the
/// document counts and content availability, and whether the top-k covers
/// the whole eligible corpus.
pub fn start_summary(
    request: &SearchVectorCandidateRequest,
    query_eligibility: SearchVectorEligibilitySummary,
    corpus_eligibility: SearchVectorEligibilitySummary,
    query_documents: &SemanticDocuments,
    corpus_documents: &SemanticDocuments,
) -> (r: SearchVectorCandidateSummary)
    ensures
        r.version@ == VECTOR_CANDIDATE_POLICY_VERSION@,
        r.status == SearchVectorCandidateStatus::Skipped,
        r.reason is None,
        r.model_id@.len() == 0,
        r.model_profile_id@ == request.profile_id@,
        r.input_format_id@ == search_input_format_id(request.input_format),
        r.input_format_version@ == "lean-dup.embedding-input-format.v1"@,
        r.acquisition_policy == request.acquisition_policy,
        r.document_policy_id@ == crate::vector_documents::document_policy_id(query_documents.policy),
        r.document_policy_version@ == crate::vector_documents::DOCUMENT_POLICY_VERSION@,
        r.corpus_status is None,
        r.query_declaration_count == query_documents.documents@.len(),
        r.corpus_declaration_count == corpus_documents.documents@.len(),
        r.query_eligibility == query_eligibility,
        r.corpus_eligibility == corpus_eligibility,
        r.query_document_content == query_documents.availability,
        r.corpus_document_content == corpus_documents.availability,
        r.top_k == VECTOR_CANDIDATE_TOP_K,
        r.eligible_corpus_size == corpus_documents.documents@.len(),
        r.top_k_saturated == (VECTOR_CANDIDATE_TOP_K >= corpus_documents.documents@.len()),
        r.vector_generated_candidate_count == 0,
        r.corpus_build_ms == 0 && r.query_ms == 0 && r.embedding_ms == 0,
{
    SearchVectorCandidateSummary {
        version: VECTOR_CANDIDATE_POLICY_VERSION,
        status: SearchVectorCandidateStatus::Skipped,
        reason: None,
        model_id: String::new(),
        model_profile_id: request.profile_id.clone(),
        input_format_id: owned(request.input_format.id()),
        input_format_version: owned(request.input_format.version()),
        acquisition_policy: request.acquisition_policy,
        document_policy_id: owned(query_documents.policy.id()),
        document_policy_version: owned(crate::vector_documents::DOCUMENT_POLICY_VERSION),
        corpus_status: None,
        query_declaration_count: query_documents.documents.len(),
        corpus_declaration_count: corpus_documents.documents.len(),
        query_eligibility,
        corpus_eligibility,
        query_document_content: query_documents.availability,
        corpus_document_content: corpus_documents.availability,
        top_k: VECTOR_CANDIDATE_TOP_K,
        eligible_corpus_size: corpus_documents.documents.len(),
        top_k_saturated: VECTOR_CANDIDATE_TOP_K >= corpus_documents.documents.len(),
        vector_generated_candidate_count: 0,
        corpus_build_ms: 0,
        query_ms: 0,
        embedding_ms: 0,
    }
}

/// Why a run stops before any model work: no input declarations at all, no
/// eligible query, or no eligible corpus declaration, in that order.
pub open spec fn input_skip_reason(
    workspace_count: nat,
    corpus_count: nat,
    query_documents: nat,
    corpus_documents: nat,
) -> Option<Seq<char>> {
    if workspace_count == 0 || corpus_count == 0 {
        Some("empty-vector-input"@)
    } else if query_documents == 0 {
        Some("no-eligible-vector-queries"@)
    } else if corpus_documents == 0 {
        Some("no-eligible-vector-corpus"@)
    } else {
        None
    }
}

/// The reason a run stops before any model work, if it does.
pub fn vector_input_skip_reason(
    workspace_count: usize,
    corpus_count: usize,
    query_documents: usize,
    corpus_documents: usize,
) -> (r: Option<&'static str>)
    ensures
        match r {
            Some(s) => input_skip_reason(
                workspace_count as nat,
                corpus_count as nat,
                query_documents as nat,
                corpus_documents as nat,
            ) == Some(s@),
            None => input_skip_reason(
                workspace_count as nat,
                corpus_count as nat,
                query_documents as nat,
                corpus_documents as nat,
            ) is None,
        },
{
    if workspace_count == 0 || corpus_count == 0 {
        Some("empty-vector-input")
    } else if query_documents == 0 {
        Some("no-eligible-vector-queries")
    } else if corpus_documents == 0 {
        Some("no-eligible-vector-corpus")
    } else {
        None
    }
}

/// The search-side name of a corpus state.
pub fn search_corpus_status(s: crate::vector_index::VectorCorpusStatus) -> (r: SearchVectorCorpusStatus)
    ensures
        r == match s {
            crate::vector_index::VectorCorpusStatus::Built => SearchVectorCorpusStatus::Built,
            crate::vector_index::VectorCorpusStatus::Reused => SearchVectorCorpusStatus::Reused,
            crate::vector_index::VectorCorpusStatus::Missing => SearchVectorCorpusStatus::Missing,
            crate::vector_index::VectorCorpusStatus::Stale => SearchVectorCorpusStatus::Stale,
            crate::vector_index::VectorCorpusStatus::Unusable => SearchVectorCorpusStatus::Unusable,
        },
{
    match s {
        crate::vector_index::VectorCorpusStatus::Built => SearchVectorCorpusStatus::Built,
        crate::vector_index::VectorCorpusStatus::Reused => SearchVectorCorpusStatus::Reused,
        crate::vector_index::VectorCorpusStatus::Missing => SearchVectorCorpusStatus::Missing,
        crate::vector_index::VectorCorpusStatus::Stale => SearchVectorCorpusStatus::Stale,
        crate::vector_index::VectorCorpusStatus::Unusable => SearchVectorCorpusStatus::Unusable,
    }
}

/// The stable reason recorded for a vector-corpus failure.
pub open spec fn vector_error_reason(e: crate::vector_index::VectorIndexError) -> Seq<char> {
    match e {
        crate::vector_index::VectorIndexError::InvalidRequest { .. } => "vector-corpus-invalid-request"@,
        crate::vector_index::VectorIndexError::CorpusUnavailable { status, .. } => match status {
            crate::vector_index::VectorCorpusStatus::Built => "vector-corpus-built-unavailable"@,
            crate::vector_index::VectorCorpusStatus::Reused => "vector-corpus-reused-unavailable"@,
            crate::vector_index::VectorCorpusStatus::Missing => "vector-corpus-missing"@,
            crate::vector_index::VectorCorpusStatus::Stale => "vector-corpus-stale"@,
            crate::vector_index::VectorCorpusStatus::Unusable => "vector-corpus-unusable"@,
        },
        crate::vector_index::VectorIndexError::Storage { .. } => "vector-corpus-storage-failed"@,
        crate::vector_index::VectorIndexError::Manifest { .. } => "vector-corpus-manifest-failed"@,
        crate::vector_index::VectorIndexError::Io { .. } => "vector-corpus-io-failed"@,
    }
}

/// The stable reason recorded for a vector-corpus failure.
pub fn stable_vector_error(e: &crate::vector_index::VectorIndexError) -> (r: String)
    ensures
        r@ == vector_error_reason(*e),
{
    let s: &'static str = match e {
        crate::vector_index::VectorIndexError::InvalidRequest { .. } => "vector-corpus-invalid-request",
        crate::vector_index::VectorIndexError::CorpusUnavailable { status, .. } => match status {
            crate::vector_index::VectorCorpusStatus::Built => "vector-corpus-built-unavailable",
            crate::vector_index::VectorCorpusStatus::Reused => "vector-corpus-reused-unavailable",
            crate::vector_index::VectorCorpusStatus::Missing => "vector-corpus-missing",
            crate::vector_index::VectorCorpusStatus::Stale => "vector-corpus-stale",
            crate::vector_index::VectorCorpusStatus::Unusable => "vector-corpus-unusable",
        },
        crate::vector_index::VectorIndexError::Storage { .. } => "vector-corpus-storage-failed",
        crate::vector_index::VectorIndexError::Manifest { .. } => "vector-corpus-manifest-failed",
        crate::vector_index::VectorIndexError::Io { .. } => "vector-corpus-io-failed",
    };
    owned(s)
}

/// A copy of an eligibility summary.
pub fn copy_eligibility_summary(s: &SearchVectorEligibilitySummary) -> (r: SearchVectorEligibilitySummary)
    ensures
        r.policy_id@ == s.policy_id@,
        r.policy_version == s.policy_version,
        r.total == s.total,
        r.eligible == s.eligible,
        reason_entries(r.skipped_by_reason@) == reason_entries(s.skipped_by_reason@),
{
    let mut skipped: Vec<(String, usize)> = Vec::new();
    let mut i: usize = 0;
    while i < s.skipped_by_reason.len()
        invariant
            i <= s.skipped_by_reason@.len(),
            skipped@.len() == i,
            reason_entries(skipped@) == reason_entries(s.skipped_by_reason@.take(i as int)),
        decreases s.skipped_by_reason@.len() - i,
    {
        let (label, count) = &s.skipped_by_reason[i];
        let ghost before = skipped@;
        skipped.push((label.clone(), *count));
        proof {
            let src = s.skipped_by_reason@;
            assert(src.take(i + 1) =~= src.take(i as int).push(src[i as int]));
            assert(skipped@ =~= before.push(skipped@[i as int]));
            assert(reason_entries(skipped@) =~= reason_entries(before).push((label@, *count as nat)));
            assert(reason_entries(src.take(i + 1)) =~= reason_entries(src.take(i as int)).push(
                (label@, *count as nat),
            ));
        }
        i = i + 1;
    }
    assert(s.skipped_by_reason@.take(i as int) =~= s.skipped_by_reason@);
    SearchVectorEligibilitySummary {
        policy_id: s.policy_id.clone(),
        policy_version: s.policy_version,
        total: s.total,
        eligible: s.eligible,
        skipped_by_reason: skipped,
    }
}

/// What a run knows before any model work: the declarations that take
/// part, their documents, and the summary so far (with the reason the run
/// stops here, when it does).
#[derive(Debug)]
pub struct VectorCandidatePlan {
    pub summary: SearchVectorCandidateSummary,
    /// The workspace declarations that query the corpus.
    pub queries: Vec<HydratedDeclaration>,
    /// The comparison declarations that form the corpus; `None` when the
    /// workspace is compared with itself and the corpus is `queries`.
    pub corpus: Option<Vec<HydratedDeclaration>>,
    pub query_documents: SemanticDocuments,
    pub corpus_documents: SemanticDocuments,
}

/// Plans a vector candidate run over `workspace` against `comparison` (or
/// against the workspace itself when `comparison` is empty): eligibility
/// under the request's policy, documents under its document policy, and the
/// starting summary, skipped with a reason when there is nothing to embed.
pub fn plan_vector_candidates(
    request: &SearchVectorCandidateRequest,
    workspace: Vec<HydratedDeclaration>,
    comparison: Vec<HydratedDeclaration>,
) -> (r: VectorCandidatePlan)
    ensures
        r.queries@ == search_eligible_of(workspace@, request.eligibility_policy),
        comparison@.len() == 0 ==> r.corpus is None,
        comparison@.len() != 0 ==> (r.corpus matches Some(c) && c@ == search_eligible_of(
            comparison@,
            request.eligibility_policy,
        )),
        crate::vector_documents::documents_ok(r.query_documents, request.document_policy, r.queries@),
        crate::vector_documents::documents_ok(
            r.corpus_documents,
            request.document_policy,
            search_eligible_of(
                if comparison@.len() == 0 {
                    workspace@
                } else {
                    comparison@
                },
                request.eligibility_policy,
            ),
        ),
        r.summary.status == SearchVectorCandidateStatus::Skipped,
        opt_label(r.summary.reason) == input_skip_reason(
            workspace@.len(),
            if comparison@.len() == 0 {
                workspace@.len()
            } else {
                comparison@.len()
            },
            r.query_documents.documents@.len(),
            r.corpus_documents.documents@.len(),
        ),
        r.summary.model_profile_id@ == request.profile_id@,
        r.summary.input_format_id@ == search_input_format_id(request.input_format),
        r.summary.acquisition_policy == request.acquisition_policy,
        r.summary.query_declaration_count == r.query_documents.documents@.len(),
        r.summary.corpus_declaration_count == r.corpus_documents.documents@.len(),
        eligibility_summary_ok(r.summary.query_eligibility, workspace@, request.eligibility_policy),
        eligibility_summary_ok(
            r.summary.corpus_eligibility,
            if comparison@.len() == 0 {
                workspace@
            } else {
                comparison@
            },
            request.eligibility_policy,
        ),
        r.summary.corpus_eligibility.eligible == r.corpus_documents.documents@.len(),
        r.summary.version@ == VECTOR_CANDIDATE_POLICY_VERSION@,
        r.summary.model_id@.len() == 0,
        r.summary.input_format_version@ == "lean-dup.embedding-input-format.v1"@,
        r.summary.document_policy_id@ == crate::vector_documents::document_policy_id(request.document_policy),
        r.summary.document_policy_version@ == crate::vector_documents::DOCUMENT_POLICY_VERSION@,
        r.summary.corpus_status is None,
        r.summary.query_document_content == r.query_documents.availability,
        r.summary.corpus_document_content == r.corpus_documents.availability,
        r.summary.vector_generated_candidate_count == 0,
        r.summary.corpus_build_ms == 0 && r.summary.query_ms == 0 && r.summary.embedding_ms == 0,
        r.summary.eligible_corpus_size == r.corpus_documents.documents@.len(),
        r.summary.top_k == VECTOR_CANDIDATE_TOP_K,
        r.summary.top_k_saturated == (VECTOR_CANDIDATE_TOP_K >= r.corpus_documents.documents@.len()),
{
    let workspace_count = workspace.len();
    let comparison_count = comparison.len();
    let query = eligible_declarations(workspace, request.eligibility_policy);
    let query_documents = crate::vector_documents::build(request.document_policy, &query.declarations);
    let (corpus, corpus_summary, corpus_documents) = if comparison_count == 0 {
        let summary = copy_eligibility_summary(&query.summary);
        let documents = crate::vector_documents::build(request.document_policy, &query.declarations);
        (None, summary, documents)
    } else {
        let eligible = eligible_declarations(comparison, request.eligibility_policy);
        let documents = crate::vector_documents::build(request.document_policy, &eligible.declarations);
        (Some(eligible.declarations), eligible.summary, documents)
    };
    let corpus_count = if comparison_count == 0 {
        workspace_count
    } else {
        comparison_count
    };
    let SearchEligibleDeclarations { summary: query_summary, declarations: queries } = query;
    let mut summary = start_summary(
        request,
        query_summary,
        corpus_summary,
        &query_documents,
        &corpus_documents,
    );
    match vector_input_skip_reason(
        workspace_count,
        corpus_count,
        query_documents.documents.len(),
        corpus_documents.documents.len(),
    ) {
        Some(reason) => {
            summary.reason = Some(owned(reason));
        },
        None => {},
    }
    VectorCandidatePlan { summary, queries, corpus, query_documents, corpus_documents }
}

/// The view of an optional reason.
pub open spec fn opt_label(o: Option<String>) -> Option<Seq<char>> {
    match o {
        Some(s) => Some(s@),
        None => None,
    }
}

/// Declarations skipped for any reason.
pub open spec fn search_skip_count_total(ds: Seq<HydratedDeclaration>, policy: SearchVectorEligibilityPolicy) -> nat {
    search_skip_count(ds, policy, 0) + search_skip_count(ds, policy, 1) + search_skip_count(ds, policy, 2) + search_skip_count(ds, policy, 3)
        + search_skip_count(ds, policy, 4) + search_skip_count(ds, policy, 5) + search_skip_count(ds, policy, 6)
}

/// Every declaration is either eligible or skipped for exactly one reason:
/// the eligible count and the skip counts add up to the total.
pub proof fn lemma_search_eligibility_counts_add_up(ds: Seq<HydratedDeclaration>, policy: SearchVectorEligibilityPolicy)
    ensures
        search_eligible_of(ds, policy).len() + search_skip_count_total(ds, policy) == ds.len(),
    decreases ds.len(),
{
    if ds.len() > 0 {
        lemma_search_eligibility_counts_add_up(ds.drop_last(), policy);
    }
}


/// Under the actionable policy, a public declaration that is neither
/// generated, synthetic, low-signal nor an instance, and has a statement, is
/// embedded exactly when its kind is a theorem, lemma, axiom, def,
/// definition or abbrev; any other kind is skipped as "unsupported-kind".
pub proof fn lemma_actionable_kinds_are_embedded(d: HydratedDeclaration)
    requires
        !views(d.status_flags@).contains("generated"@),
        d.visibility@ == "public"@,
        !has_prefix(d.declaration_id@, "synthetic:"@),
        d.module@ != "Synthetic"@,
        !has_prefix(d.qualified_name@, "Synthetic."@),
        d.low_signal_markers@.len() == 0,
        !is_blank(d.statement_text@),
        d.kind@ != "instance"@,
        !has_prefix(d.display_name@, "inst"@),
    ensures
        ({
            let supported = d.kind@ == "theorem"@ || d.kind@ == "lemma"@ || d.kind@ == "axiom"@ || d.kind@
                == "def"@ || d.kind@ == "definition"@ || d.kind@ == "abbrev"@;
            let policy = SearchVectorEligibilityPolicy::ActionablePublicStatement;
            &&& supported ==> search_skip_index(d, policy) is None
            &&& supported ==> search_eligible_of(seq![d], policy) == seq![d]
            &&& !supported ==> search_skip_index(d, policy) == Some(6int)
            &&& !supported ==> search_eligible_of(seq![d], policy).len() == 0
            &&& search_skip_labels()[6] == "unsupported-kind"@
        }),
{
    let policy = SearchVectorEligibilityPolicy::ActionablePublicStatement;
    assert(seq![d].drop_last() =~= Seq::<HydratedDeclaration>::empty());
    assert(seq![d].last() == d);
    assert(Seq::<HydratedDeclaration>::empty().push(d) =~= seq![d]);
    assert(!synthetic_declaration(d));
    assert(!not_actionable_declaration(d));
    assert(search_skip_labels()[6] == "unsupported-kind"@);
    assert(vector_kind(d.kind@) == (d.kind@ == "theorem"@ || d.kind@ == "lemma"@ || d.kind@ == "axiom"@ || d.kind@
        == "def"@ || d.kind@ == "definition"@ || d.kind@ == "abbrev"@));
    assert(search_eligible_of(Seq::<HydratedDeclaration>::empty(), policy).len() == 0);
}

/// The actionable policy only narrows the broad one: a declaration embedded
/// under it is embedded under the broad policy too.
pub proof fn lemma_actionable_narrows_broad(d: HydratedDeclaration)
    ensures
        search_skip_index(d, SearchVectorEligibilityPolicy::ActionablePublicStatement) is None ==> search_skip_index(
            d,
            SearchVectorEligibilityPolicy::Broad,
        ) is None,
{
}


/// What preparing the embedding model left in its cache.
#[derive(Debug, Clone, Copy, PartialEq, Eq, Structural)]
pub enum EmbeddingCacheStatus {
    NotPrepared,
    Unusable,
    Skipped,
    Prepared,
}

/// The reason recorded for a cache status.
pub open spec fn cache_status_reason(status: EmbeddingCacheStatus) -> Seq<char> {
    match status {
        EmbeddingCacheStatus::NotPrepared => "vector-model-not-prepared"@,
        EmbeddingCacheStatus::Unusable => "vector-model-unusable"@,
        EmbeddingCacheStatus::Skipped => "vector-model-skipped"@,
        EmbeddingCacheStatus::Prepared => "vector-model-prepared"@,
    }
}

/// Records the model cache status in the summary: a run goes on only with
/// a prepared model; otherwise the summary gets the status's reason and
/// stays skipped. Nothing else in the summary changes.
pub fn record_model_cache_status(summary: &mut SearchVectorCandidateSummary, status: EmbeddingCacheStatus) -> (proceed:
    bool)
    ensures
        proceed == (status == EmbeddingCacheStatus::Prepared),
        proceed ==> *final(summary) == *old(summary),
        !proceed ==> *final(summary) == (SearchVectorCandidateSummary {
            reason: final(summary).reason,
            ..*old(summary)
        }) && opt_label(final(summary).reason) == Some(cache_status_reason(status)),
{
    let reason = match status {
        EmbeddingCacheStatus::NotPrepared => "vector-model-not-prepared",
        EmbeddingCacheStatus::Unusable => "vector-model-unusable",
        EmbeddingCacheStatus::Skipped => "vector-model-skipped",
        EmbeddingCacheStatus::Prepared => {
            return true;
        },
    };
    summary.reason = Some(owned(reason));
    false
}

} // verus!
