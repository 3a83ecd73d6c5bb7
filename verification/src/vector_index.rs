//! The persisted declaration-vector corpus: its provenance, the facts it
//! reports, the checks on requests, and the reuse decisions.
//!
//! Storage and nearest-neighbour search run outside; this module decides
//! whether a stored corpus can be reused and what each step reports.
use vstd::prelude::*;

use crate::text::{blank, decimal, is_blank, owned, push_decimal, str_eq};

verus! {

/// Schema version written into every corpus manifest.
pub const VECTOR_INDEX_SCHEMA_VERSION: &'static str = "lean-dup.vector-index.v1";

/// Provenance that decides whether a persisted corpus can be reused.
#[derive(Debug, Clone)]
pub struct VectorCorpusProvenance {
    pub source_corpus_fingerprint: String,
    pub embedding_model_profile_id: String,
    pub embedding_model_fingerprint: String,
    pub embedding_input_format_id: String,
    pub embedding_input_format_version: String,
    pub document_policy_id: String,
    pub document_policy_version: String,
    pub vector_dimension: usize,
    pub normalization: String,
}

/// The fields of a provenance record, by value.
pub open spec fn provenance_view(p: VectorCorpusProvenance) -> (
    Seq<char>,
    Seq<char>,
    Seq<char>,
    Seq<char>,
    Seq<char>,
    Seq<char>,
    Seq<char>,
    usize,
    Seq<char>,
) {
    (
        p.source_corpus_fingerprint@,
        p.embedding_model_profile_id@,
        p.embedding_model_fingerprint@,
        p.embedding_input_format_id@,
        p.embedding_input_format_version@,
        p.document_policy_id@,
        p.document_policy_version@,
        p.vector_dimension,
        p.normalization@,
    )
}

/// Whether two provenance records hold the same values.
pub fn same_provenance(a: &VectorCorpusProvenance, b: &VectorCorpusProvenance) -> (r: bool)
    ensures
        r == (provenance_view(*a) == provenance_view(*b)),
{
    str_eq(a.source_corpus_fingerprint.as_str(), b.source_corpus_fingerprint.as_str()) && str_eq(
        a.embedding_model_profile_id.as_str(),
        b.embedding_model_profile_id.as_str(),
    ) && str_eq(a.embedding_model_fingerprint.as_str(), b.embedding_model_fingerprint.as_str())
        && str_eq(a.embedding_input_format_id.as_str(), b.embedding_input_format_id.as_str())
        && str_eq(
        a.embedding_input_format_version.as_str(),
        b.embedding_input_format_version.as_str(),
    ) && str_eq(a.document_policy_id.as_str(), b.document_policy_id.as_str()) && str_eq(
        a.document_policy_version.as_str(),
        b.document_policy_version.as_str(),
    ) && a.vector_dimension == b.vector_dimension && str_eq(
        a.normalization.as_str(),
        b.normalization.as_str(),
    )
}

/// State of a persisted corpus.
#[derive(Debug, Clone, Copy, PartialEq, Eq, Structural)]
pub enum VectorCorpusStatus {
    Built,
    Reused,
    Missing,
    Stale,
    Unusable,
}

/// Stable facts about a corpus.
#[derive(Debug, Clone)]
pub struct VectorCorpusSummary {
    pub schema_version: String,
    pub status: VectorCorpusStatus,
    pub provenance: VectorCorpusProvenance,
    pub declaration_count: usize,
    pub vector_dimension: usize,
}

/// Counters of a build (or reuse).
#[derive(Debug, Clone, Copy, PartialEq, Eq, Structural)]
pub struct VectorCorpusBuildCounters {
    pub input_declarations: usize,
    pub stored_declarations: usize,
    pub build_ms: u128,
}

impl Default for VectorCorpusBuildCounters {
    fn default() -> (r: VectorCorpusBuildCounters)
        ensures
            r.input_declarations == 0 && r.stored_declarations == 0 && r.build_ms == 0,
    {
        VectorCorpusBuildCounters { input_declarations: 0, stored_declarations: 0, build_ms: 0 }
    }
}

/// Counters of a preparation: the build's, the open time, and the state the
/// corpus was in before.
#[derive(Debug, Clone, Copy, PartialEq, Eq, Structural)]
pub struct VectorCorpusPrepareCounters {
    pub input_declarations: usize,
    pub stored_declarations: usize,
    pub build_ms: u128,
    pub open_ms: u128,
    pub previous_status: VectorCorpusStatus,
}

/// Counters of a nearest-declaration query.
#[derive(Debug, Clone, Copy, PartialEq, Eq, Structural)]
pub struct VectorCorpusQueryCounters {
    pub requested_limit: usize,
    pub returned: usize,
    pub query_ms: u128,
}

impl Default for VectorCorpusQueryCounters {
    fn default() -> (r: VectorCorpusQueryCounters)
        ensures
            r.requested_limit == 0 && r.returned == 0 && r.query_ms == 0,
    {
        VectorCorpusQueryCounters { requested_limit: 0, returned: 0, query_ms: 0 }
    }
}

/// What a build step reports.
#[derive(Debug, Clone)]
pub struct VectorCorpusBuildOutput {
    pub summary: VectorCorpusSummary,
    pub previous_status: VectorCorpusStatus,
    pub counters: VectorCorpusBuildCounters,
}

/// An opened corpus: where it lives and its facts.
#[derive(Debug, Clone)]
pub struct VectorCorpus {
    cache_root: String,
    summary: VectorCorpusSummary,
}

impl VectorCorpus {
    /// The corpus stored under `cache_root` with facts `summary`.
    pub fn new(cache_root: String, summary: VectorCorpusSummary) -> (r: VectorCorpus)
        ensures
            r.cache_root_view() == cache_root@,
            r.summary_view() == summary,
    {
        VectorCorpus { cache_root, summary }
    }

    pub closed spec fn cache_root_view(&self) -> Seq<char> {
        self.cache_root@
    }

    pub closed spec fn summary_view(&self) -> VectorCorpusSummary {
        self.summary
    }

    /// Where the corpus lives.
    pub fn cache_root(&self) -> (r: &str)
        ensures
            r@ == self.cache_root_view(),
    {
        self.cache_root.as_str()
    }

    /// The corpus facts.
    pub fn summary(&self) -> (r: &VectorCorpusSummary)
        ensures
            *r == self.summary_view(),
    {
        &self.summary
    }
}

/// A corpus prepared for queries, with what its preparation recorded.
#[derive(Debug, Clone)]
pub struct PreparedVectorCorpus {
    corpus: VectorCorpus,
    prepare_counters: VectorCorpusPrepareCounters,
}

impl PreparedVectorCorpus {
    pub closed spec fn corpus_view(&self) -> VectorCorpus {
        self.corpus
    }

    pub closed spec fn counters_view(&self) -> VectorCorpusPrepareCounters {
        self.prepare_counters
    }

    /// The opened corpus `corpus` after the build `build`, opened in
    /// `open_ms` milliseconds: the build's counters and prior state are kept.
    pub fn new(corpus: VectorCorpus, build: &VectorCorpusBuildOutput, open_ms: u128) -> (r:
        PreparedVectorCorpus)
        ensures
            r.corpus_view() == corpus,
            r.counters_view() == (VectorCorpusPrepareCounters {
                input_declarations: build.counters.input_declarations,
                stored_declarations: build.counters.stored_declarations,
                build_ms: build.counters.build_ms,
                open_ms,
                previous_status: build.previous_status,
            }),
    {
        PreparedVectorCorpus {
            corpus,
            prepare_counters: VectorCorpusPrepareCounters {
                input_declarations: build.counters.input_declarations,
                stored_declarations: build.counters.stored_declarations,
                build_ms: build.counters.build_ms,
                open_ms,
                previous_status: build.previous_status,
            },
        }
    }

    /// The stable facts of this corpus.
    pub fn summary(&self) -> (r: &VectorCorpusSummary)
        ensures
            *r == self.corpus_view().summary_view(),
    {
        self.corpus.summary()
    }

    /// What the preparation recorded.
    pub fn prepare_counters(&self) -> (r: &VectorCorpusPrepareCounters)
        ensures
            *r == self.counters_view(),
    {
        &self.prepare_counters
    }

    /// The opened corpus.
    pub fn corpus(&self) -> (r: &VectorCorpus)
        ensures
            *r == self.corpus_view(),
    {
        &self.corpus
    }
}

/// Why a corpus request failed. Storage, manifest and I/O failures carry
/// the message of the underlying error.
#[derive(Debug, Clone)]
pub enum VectorIndexError {
    InvalidRequest { reason: String },
    CorpusUnavailable { status: VectorCorpusStatus, reason: String },
    Storage { reason: String },
    Manifest { reason: String },
    Io { reason: String },
}

/// The manifest stored beside a corpus.
#[derive(Debug, Clone)]
pub struct Manifest {
    pub schema_version: String,
    pub provenance: VectorCorpusProvenance,
    pub declaration_count: usize,
    pub vector_dimension: usize,
}

/// Whether a stored manifest describes a corpus built for `requested`
/// under the current schema.
pub open spec fn manifest_matches(m: Manifest, requested: VectorCorpusProvenance) -> bool {
    m.schema_version@ == VECTOR_INDEX_SCHEMA_VERSION@ && provenance_view(m.provenance)
        == provenance_view(requested)
}

/// The state of the corpus under a cache root, from how reading its
/// manifest went: matching is `Reused`, mismatching `Stale`, unreadable
/// (I/O) `Missing`, anything else `Unusable`.
pub open spec fn corpus_status_of(
    read: Result<Manifest, VectorIndexError>,
    requested: VectorCorpusProvenance,
) -> VectorCorpusStatus {
    match read {
        Ok(m) => if manifest_matches(m, requested) {
            VectorCorpusStatus::Reused
        } else {
            VectorCorpusStatus::Stale
        },
        Err(VectorIndexError::Io { .. }) => VectorCorpusStatus::Missing,
        Err(_) => VectorCorpusStatus::Unusable,
    }
}

fn manifest_is_current(m: &Manifest, requested: &VectorCorpusProvenance) -> (r: bool)
    ensures
        r == manifest_matches(*m, *requested),
{
    str_eq(m.schema_version.as_str(), VECTOR_INDEX_SCHEMA_VERSION) && same_provenance(
        &m.provenance,
        requested,
    )
}

/// The state of a stored corpus given the result of reading its manifest.
pub fn current_status(read: &Result<Manifest, VectorIndexError>, requested: &VectorCorpusProvenance) -> (r:
    VectorCorpusStatus)
    ensures
        r == corpus_status_of(*read, *requested),
{
    match read {
        Ok(m) => if manifest_is_current(m, requested) {
            VectorCorpusStatus::Reused
        } else {
            VectorCorpusStatus::Stale
        },
        Err(VectorIndexError::Io { .. }) => VectorCorpusStatus::Missing,
        Err(_) => VectorCorpusStatus::Unusable,
    }
}

/// The corpus facts with status `status` read off `manifest`.
pub fn summary(status: VectorCorpusStatus, manifest: Manifest) -> (r: VectorCorpusSummary)
    ensures
        r.schema_version == manifest.schema_version,
        r.status == status,
        r.provenance == manifest.provenance,
        r.declaration_count == manifest.declaration_count,
        r.vector_dimension == manifest.vector_dimension,
{
    VectorCorpusSummary {
        schema_version: manifest.schema_version,
        status,
        provenance: manifest.provenance,
        declaration_count: manifest.declaration_count,
        vector_dimension: manifest.vector_dimension,
    }
}

/// The manifest written after rebuilding a corpus of `declaration_count`
/// declarations; the dimension is that of the first vector (0 with none).
pub fn rebuilt_manifest(
    provenance: VectorCorpusProvenance,
    declaration_count: usize,
    first_vector_len: Option<usize>,
) -> (r: Manifest)
    ensures
        r.schema_version@ == VECTOR_INDEX_SCHEMA_VERSION@,
        r.provenance == provenance,
        r.declaration_count == declaration_count,
        r.vector_dimension == match first_vector_len {
            Some(n) => n,
            None => 0,
        },
{
    Manifest {
        schema_version: owned(VECTOR_INDEX_SCHEMA_VERSION),
        provenance,
        declaration_count,
        vector_dimension: match first_vector_len {
            Some(n) => n,
            None => 0,
        },
    }
}

/// What a build step reports, given the corpus's prior state and the
/// manifest now in place: a reused corpus stores nothing and reports
/// `Reused`; otherwise every input declaration was stored and the corpus
/// reports `Built`.
pub fn build_output(
    previous_status: VectorCorpusStatus,
    manifest: Manifest,
    input_declarations: usize,
    build_ms: u128,
) -> (r: VectorCorpusBuildOutput)
    ensures
        r.previous_status == previous_status,
        r.summary.status == (if previous_status == VectorCorpusStatus::Reused {
            VectorCorpusStatus::Reused
        } else {
            VectorCorpusStatus::Built
        }),
        r.summary.schema_version == manifest.schema_version,
        r.summary.provenance == manifest.provenance,
        r.summary.declaration_count == manifest.declaration_count,
        r.summary.vector_dimension == manifest.vector_dimension,
        r.counters.input_declarations == input_declarations,
        r.counters.stored_declarations == (if previous_status == VectorCorpusStatus::Reused {
            0
        } else {
            input_declarations
        }),
        r.counters.build_ms == build_ms,
{
    if previous_status == VectorCorpusStatus::Reused {
        VectorCorpusBuildOutput {
            summary: summary(VectorCorpusStatus::Reused, manifest),
            previous_status,
            counters: VectorCorpusBuildCounters {
                input_declarations,
                stored_declarations: 0,
                build_ms,
            },
        }
    } else {
        VectorCorpusBuildOutput {
            summary: summary(VectorCorpusStatus::Built, manifest),
            previous_status,
            counters: VectorCorpusBuildCounters {
                input_declarations,
                stored_declarations: input_declarations,
                build_ms,
            },
        }
    }
}

/// Whether a stored corpus may be opened for `requested`, given the result
/// of reading its manifest: an unreadable manifest means the corpus is
/// missing, other read failures pass through, a mismatching manifest is
/// stale, and a matching one yields the facts of a reused corpus.
pub fn open_verdict(read: Result<Manifest, VectorIndexError>, requested: &VectorCorpusProvenance) -> (r:
    Result<VectorCorpusSummary, VectorIndexError>)
    ensures
        match read {
            Err(VectorIndexError::Io { .. }) => r matches Err(
                VectorIndexError::CorpusUnavailable { status, reason },
            ) && status == VectorCorpusStatus::Missing && reason@
                == "persisted vector corpus is missing"@,
            Err(e) => r == Err::<VectorCorpusSummary, VectorIndexError>(e),
            Ok(m) => if manifest_matches(m, *requested) {
                r matches Ok(s) && s.status == VectorCorpusStatus::Reused && s.schema_version
                    == m.schema_version && s.provenance == m.provenance && s.declaration_count
                    == m.declaration_count && s.vector_dimension == m.vector_dimension
            } else {
                r matches Err(VectorIndexError::CorpusUnavailable { status, reason }) && status
                    == VectorCorpusStatus::Stale && reason@
                    == "persisted vector corpus provenance does not match request"@
            },
        },
{
    match read {
        Err(VectorIndexError::Io { .. }) => Err(
            VectorIndexError::CorpusUnavailable {
                status: VectorCorpusStatus::Missing,
                reason: owned("persisted vector corpus is missing"),
            },
        ),
        Err(e) => Err(e),
        Ok(m) => {
            if manifest_is_current(&m, requested) {
                Ok(summary(VectorCorpusStatus::Reused, m))
            } else {
                Err(
                    VectorIndexError::CorpusUnavailable {
                        status: VectorCorpusStatus::Stale,
                        reason: owned("persisted vector corpus provenance does not match request"),
                    },
                )
            }
        },
    }
}

/// The first field, label and value, whose value is blank.
pub open spec fn first_blank_from(fields: Seq<(Seq<char>, Seq<char>)>, k: int) -> Option<Seq<char>>
    decreases fields.len() - k,
{
    if k < 0 || k >= fields.len() {
        None
    } else if is_blank(fields[k].1) {
        Some(fields[k].0)
    } else {
        first_blank_from(fields, k + 1)
    }
}

/// Labels and values of the provenance fields that must not be blank.
pub open spec fn provenance_fields(p: VectorCorpusProvenance) -> Seq<(Seq<char>, Seq<char>)> {
    seq![
        ("source corpus fingerprint"@, p.source_corpus_fingerprint@),
        ("embedding model profile id"@, p.embedding_model_profile_id@),
        ("embedding model fingerprint"@, p.embedding_model_fingerprint@),
        ("embedding input format id"@, p.embedding_input_format_id@),
        ("embedding input format version"@, p.embedding_input_format_version@),
        ("document policy id"@, p.document_policy_id@),
        ("document policy version"@, p.document_policy_version@),
        ("normalization"@, p.normalization@),
    ]
}

/// The refusal naming the first blank field of `fields`, if any.
fn check_fields(fields: &Vec<(&'static str, &str)>) -> (r: Result<(), VectorIndexError>)
    ensures
        match first_blank_from(fields@.map_values(|f: (&'static str, &str)| (f.0@, f.1@)), 0) {
            None => r is Ok,
            Some(label) => r matches Err(VectorIndexError::InvalidRequest { reason }) && reason@
                == label + " must be nonempty"@,
        },
{
    let ghost fs = fields@.map_values(|f: (&'static str, &str)| (f.0@, f.1@));
    let mut k: usize = 0;
    while k < fields.len()
        invariant
            k <= fields@.len(),
            fs == fields@.map_values(|f: (&'static str, &str)| (f.0@, f.1@)),
            first_blank_from(fs, 0) == first_blank_from(fs, k as int),
        decreases fields@.len() - k,
    {
        let (label, value) = fields[k];
        if blank(value) {
            let mut m = owned(label);
            m.append(" must be nonempty");
            return Err(VectorIndexError::InvalidRequest { reason: m });
        }
        k = k + 1;
    }
    Ok(())
}

/// Checks a provenance record: a nonzero dimension and no blank field.
pub fn validate_provenance(p: &VectorCorpusProvenance) -> (r: Result<(), VectorIndexError>)
    ensures
        p.vector_dimension == 0 ==> (r matches Err(VectorIndexError::InvalidRequest { reason })
            && reason@ == "vector dimension must be nonzero"@),
        p.vector_dimension != 0 ==> match first_blank_from(provenance_fields(*p), 0) {
            None => r is Ok,
            Some(label) => r matches Err(VectorIndexError::InvalidRequest { reason }) && reason@
                == label + " must be nonempty"@,
        },
{
    if p.vector_dimension == 0 {
        return Err(
            VectorIndexError::InvalidRequest { reason: owned("vector dimension must be nonzero") },
        );
    }
    let fields: Vec<(&'static str, &str)> = vec![
        ("source corpus fingerprint", p.source_corpus_fingerprint.as_str()),
        ("embedding model profile id", p.embedding_model_profile_id.as_str()),
        ("embedding model fingerprint", p.embedding_model_fingerprint.as_str()),
        ("embedding input format id", p.embedding_input_format_id.as_str()),
        ("embedding input format version", p.embedding_input_format_version.as_str()),
        ("document policy id", p.document_policy_id.as_str()),
        ("document policy version", p.document_policy_version.as_str()),
        ("normalization", p.normalization.as_str()),
    ];
    assert(fields@.map_values(|f: (&'static str, &str)| (f.0@, f.1@)) =~= provenance_fields(*p));
    check_fields(&fields)
}

/// The labelled text fields of one stored declaration (its vector is
/// checked by the caller).
#[derive(Debug, Clone)]
pub struct VectorDeclarationFields {
    pub declaration_id: String,
    pub declaration_name: String,
    pub module_name: String,
    pub declaration_kind: String,
    pub content_hash: String,
}

/// Labels and values of a declaration's fields that must not be blank.
pub open spec fn declaration_fields(d: VectorDeclarationFields) -> Seq<(Seq<char>, Seq<char>)> {
    seq![
        ("declaration id"@, d.declaration_id@),
        ("declaration name"@, d.declaration_name@),
        ("module name"@, d.module_name@),
        ("declaration kind"@, d.declaration_kind@),
        ("content hash"@, d.content_hash@),
    ]
}

/// Checks that no text field of a stored declaration is blank.
pub fn validate_declaration_fields(d: &VectorDeclarationFields) -> (r: Result<(), VectorIndexError>)
    ensures
        match first_blank_from(declaration_fields(*d), 0) {
            None => r is Ok,
            Some(label) => r matches Err(VectorIndexError::InvalidRequest { reason }) && reason@
                == label + " must be nonempty"@,
        },
{
    let fields: Vec<(&'static str, &str)> = vec![
        ("declaration id", d.declaration_id.as_str()),
        ("declaration name", d.declaration_name.as_str()),
        ("module name", d.module_name.as_str()),
        ("declaration kind", d.declaration_kind.as_str()),
        ("content hash", d.content_hash.as_str()),
    ];
    assert(fields@.map_values(|f: (&'static str, &str)| (f.0@, f.1@)) =~= declaration_fields(*d));
    check_fields(&fields)
}

/// A corpus needs at least one declaration.
pub fn validate_declaration_count(count: usize) -> (r: Result<(), VectorIndexError>)
    ensures
        count == 0 <==> r is Err,
        r matches Err(VectorIndexError::InvalidRequest { reason }) ==> reason@
            == "vector corpus requires at least one declaration"@,
        r is Err ==> (r matches Err(VectorIndexError::InvalidRequest { .. })),
{
    if count == 0 {
        Err(
            VectorIndexError::InvalidRequest {
                reason: owned("vector corpus requires at least one declaration"),
            },
        )
    } else {
        Ok(())
    }
}

/// A query must ask for at least one declaration.
pub fn validate_query_limit(limit: usize) -> (r: Result<(), VectorIndexError>)
    ensures
        limit == 0 <==> r is Err,
        r matches Err(VectorIndexError::InvalidRequest { reason }) ==> reason@
            == "query limit must be nonzero"@,
        r is Err ==> (r matches Err(VectorIndexError::InvalidRequest { .. })),
{
    if limit == 0 {
        Err(VectorIndexError::InvalidRequest { reason: owned("query limit must be nonzero") })
    } else {
        Ok(())
    }
}


/// A stored or query vector must have the corpus's dimension.
pub fn validate_vector_length(dimension: usize, length: usize) -> (r: Result<(), VectorIndexError>)
    ensures
        (length != dimension) <==> r is Err,
        r matches Err(VectorIndexError::InvalidRequest { reason }) ==> reason@
            == "vector dimension mismatch: expected "@ + decimal(dimension as nat) + ", got "@ + decimal(length as nat),
        r is Err ==> (r matches Err(VectorIndexError::InvalidRequest { .. })),
{
    if length != dimension {
        let mut reason = owned("vector dimension mismatch: expected ");
        push_decimal(&mut reason, dimension as u64);
        reason.append(", got ");
        push_decimal(&mut reason, length as u64);
        Err(VectorIndexError::InvalidRequest { reason })
    } else {
        Ok(())
    }
}

} // verus!
