//! The texts the vector-validation workload embeds for declarations, their
//! content hashes, and the artifact leak check.
use vstd::prelude::*;

use crate::declaration::HydratedDeclaration;
use crate::digest::{hex_of, sha256_digest, sha256_hex};
use crate::text::{concat, contains, contains_seq, normalize, normalize_space, owned, str_eq};
use crate::vector::InvalidVectorRequest;

verus! {

/// Version tag of the document texts and hashes.
pub const DOCUMENT_POLICY_VERSION: &'static str = "lean-dup.embedding-document.v1";

/// What a declaration's embedded text holds.
#[derive(Debug, Clone, Copy, PartialEq, Eq, Structural)]
pub enum DocumentPolicy {
    /// The normalized statement alone.
    Statement,
    /// The name and the statement.
    NameAndStatement,
    /// Name, statement and definition summary.
    DefinitionAware,
    /// Name, statement, docstring and definition summary.
    DocstringAugmented,
}

/// The stable id of a document policy.
pub open spec fn document_policy_id(p: DocumentPolicy) -> Seq<char> {
    match p {
        DocumentPolicy::Statement => "statement"@,
        DocumentPolicy::NameAndStatement => "name-and-statement"@,
        DocumentPolicy::DefinitionAware => "definition-aware"@,
        DocumentPolicy::DocstringAugmented => "docstring-augmented"@,
    }
}

/// The input policy handed to the embedding runtime: which parts of a
/// declaration its texts include.
#[derive(Debug, Clone)]
pub struct EmbeddingInputPolicy {
    pub policy_id: String,
    pub version: String,
    pub includes_declaration_name: bool,
    pub includes_statement: bool,
    pub includes_definition_body_summary: bool,
    pub includes_docstring: bool,
}

impl DocumentPolicy {
    /// The policy with id `id`.
    pub fn from_id(id: &str) -> (r: Result<DocumentPolicy, InvalidVectorRequest>)
        ensures
            match r {
                Ok(p) => document_policy_id(p) == id@,
                Err(e) => id@ != "statement"@ && id@ != "name-and-statement"@ && id@
                    != "definition-aware"@ && id@ != "docstring-augmented"@ && e.message@
                    == "unsupported document policy: "@ + id@,
            },
    {
        if str_eq(id, "statement") {
            Ok(DocumentPolicy::Statement)
        } else if str_eq(id, "name-and-statement") {
            Ok(DocumentPolicy::NameAndStatement)
        } else if str_eq(id, "definition-aware") {
            Ok(DocumentPolicy::DefinitionAware)
        } else if str_eq(id, "docstring-augmented") {
            Ok(DocumentPolicy::DocstringAugmented)
        } else {
            Err(InvalidVectorRequest { message: concat("unsupported document policy: ", id) })
        }
    }

    /// The stable id of this policy.
    pub fn id(self) -> (r: &'static str)
        ensures
            r@ == document_policy_id(self),
    {
        match self {
            DocumentPolicy::Statement => "statement",
            DocumentPolicy::NameAndStatement => "name-and-statement",
            DocumentPolicy::DefinitionAware => "definition-aware",
            DocumentPolicy::DocstringAugmented => "docstring-augmented",
        }
    }

    /// The embedding input policy describing this document policy.
    pub fn embedding_policy(self) -> (r: EmbeddingInputPolicy)
        ensures
            r.policy_id@ == document_policy_id(self),
            r.version@ == DOCUMENT_POLICY_VERSION@,
            r.includes_declaration_name == (self != DocumentPolicy::Statement),
            r.includes_statement,
            r.includes_definition_body_summary == (self == DocumentPolicy::DefinitionAware || self
                == DocumentPolicy::DocstringAugmented),
            r.includes_docstring == (self == DocumentPolicy::DocstringAugmented),
    {
        EmbeddingInputPolicy {
            policy_id: owned(self.id()),
            version: owned(DOCUMENT_POLICY_VERSION),
            includes_declaration_name: match self {
                DocumentPolicy::Statement => false,
                _ => true,
            },
            includes_statement: true,
            includes_definition_body_summary: match self {
                DocumentPolicy::DefinitionAware | DocumentPolicy::DocstringAugmented => true,
                _ => false,
            },
            includes_docstring: match self {
                DocumentPolicy::DocstringAugmented => true,
                _ => false,
            },
        }
    }
}

/// The normalized form of an optional text.
pub open spec fn normalized_opt(o: Option<String>) -> Option<Seq<char>> {
    match o {
        Some(t) => Some(normalize_space(t@)),
        None => None,
    }
}

/// `label` followed by `o`, when `o` holds nonempty text; nothing otherwise.
pub open spec fn section(label: Seq<char>, o: Option<Seq<char>>) -> Seq<char> {
    match o {
        Some(t) => if t.len() > 0 {
            label + t
        } else {
            Seq::empty()
        },
        None => Seq::empty(),
    }
}

/// The embedded text of a declaration named `name` with normalized
/// statement, docstring and body summary, one `label: value` line per part.
pub open spec fn document_text_of(
    policy: DocumentPolicy,
    name: Seq<char>,
    statement: Seq<char>,
    docstring: Option<Seq<char>>,
    body: Option<Seq<char>>,
) -> Seq<char> {
    match policy {
        DocumentPolicy::Statement => statement,
        DocumentPolicy::NameAndStatement => "name: "@ + name + "\nstatement: "@ + statement,
        DocumentPolicy::DefinitionAware => "name: "@ + name + "\nstatement: "@ + statement + section(
            "\ndefinition-summary: "@,
            body,
        ),
        DocumentPolicy::DocstringAugmented => "name: "@ + name + "\nstatement: "@ + statement
            + section("\ndocstring: "@, docstring) + section("\ndefinition-summary: "@, body),
    }
}

/// The embedded text of `d` under `policy`.
pub open spec fn declaration_text(policy: DocumentPolicy, d: HydratedDeclaration) -> Seq<char> {
    document_text_of(
        policy,
        d.qualified_name@,
        normalize_space(d.statement_text@),
        normalized_opt(d.docstring_text),
        normalized_opt(d.definition_body_summary),
    )
}

/// Lowercase hex SHA-256 of the UTF-8 bytes of `s`.
pub open spec fn text_digest(s: Seq<char>) -> Seq<char> {
    hex_of(sha256_digest(vstd::utf8::encode_utf8(s)))
}

/// The content hash of `d`'s text `text` under `policy`: the digest of the
/// policy version, policy id, name, kind and text, in that order.
pub open spec fn content_hash_of(policy: DocumentPolicy, d: HydratedDeclaration, text: Seq<char>) -> Seq<
    char,
> {
    text_digest(
        DOCUMENT_POLICY_VERSION@ + document_policy_id(policy) + d.qualified_name@ + d.kind@ + text,
    )
}

/// One embedded declaration text.
#[derive(Debug, Clone)]
pub struct SemanticDocument {
    pub declaration_name: String,
    pub module_name: String,
    pub declaration_kind: String,
    pub content_hash: String,
    pub text: String,
}

/// Name, module, kind, hash and text of a document.
pub open spec fn document_view(doc: SemanticDocument) -> (
    Seq<char>,
    Seq<char>,
    Seq<char>,
    Seq<char>,
    Seq<char>,
) {
    (
        doc.declaration_name@,
        doc.module_name@,
        doc.declaration_kind@,
        doc.content_hash@,
        doc.text@,
    )
}

/// The document of `d` under `policy`.
pub open spec fn document_of(policy: DocumentPolicy, d: HydratedDeclaration) -> (
    Seq<char>,
    Seq<char>,
    Seq<char>,
    Seq<char>,
    Seq<char>,
) {
    (
        d.qualified_name@,
        d.module@,
        d.kind@,
        content_hash_of(policy, d, declaration_text(policy, d)),
        declaration_text(policy, d),
    )
}

/// How many declarations had each part of their text available.
#[derive(Debug, Clone, Copy, PartialEq, Eq, Structural)]
pub struct ContentAvailability {
    pub total: usize,
    pub with_statement: usize,
    pub with_docstring: usize,
    pub with_definition_body_summary: usize,
}

/// Availability counts of no declarations.
pub open spec fn no_content(c: ContentAvailability) -> bool {
    c.total == 0 && c.with_statement == 0 && c.with_docstring == 0
        && c.with_definition_body_summary == 0
}

impl Default for ContentAvailability {
    fn default() -> (r: ContentAvailability)
        ensures
            no_content(r),
    {
        ContentAvailability { total: 0, with_statement: 0, with_docstring: 0, with_definition_body_summary: 0 }
    }
}

/// Whether an optional text is present and nonempty once normalized.
pub open spec fn has_text(o: Option<String>) -> bool {
    match normalized_opt(o) {
        Some(t) => t.len() > 0,
        None => false,
    }
}

/// Number of declarations of `ds` with a nonempty normalized statement.
pub open spec fn with_statement_count(ds: Seq<HydratedDeclaration>) -> nat
    decreases ds.len(),
{
    if ds.len() == 0 {
        0
    } else {
        with_statement_count(ds.drop_last()) + if normalize_space(ds.last().statement_text@).len()
            > 0 {
            1nat
        } else {
            0nat
        }
    }
}

/// Number of declarations of `ds` with a nonempty docstring.
pub open spec fn with_docstring_count(ds: Seq<HydratedDeclaration>) -> nat
    decreases ds.len(),
{
    if ds.len() == 0 {
        0
    } else {
        with_docstring_count(ds.drop_last()) + if has_text(ds.last().docstring_text) {
            1nat
        } else {
            0nat
        }
    }
}

/// Number of declarations of `ds` with a nonempty definition summary.
pub open spec fn with_body_count(ds: Seq<HydratedDeclaration>) -> nat
    decreases ds.len(),
{
    if ds.len() == 0 {
        0
    } else {
        with_body_count(ds.drop_last()) + if has_text(ds.last().definition_body_summary) {
            1nat
        } else {
            0nat
        }
    }
}

/// The documents of a set of declarations, with the availability counts.
#[derive(Debug, Clone)]
pub struct SemanticDocuments {
    pub policy: DocumentPolicy,
    pub documents: Vec<SemanticDocument>,
    pub availability: ContentAvailability,
}

/// The normalized form of an optional text.
fn normalize_opt(o: &Option<String>) -> (r: Option<String>)
    ensures
        opt_seq(r) == normalized_opt(*o),
{
    match o {
        Some(t) => Some(normalize(t.as_str())),
        None => None,
    }
}

/// The view of an optional string.
pub open spec fn opt_seq(o: Option<String>) -> Option<Seq<char>> {
    match o {
        Some(s) => Some(s@),
        None => None,
    }
}

/// Appends `label` and `o` to `s` when `o` holds nonempty text.
fn push_section(s: &mut String, label: &str, o: &Option<String>)
    ensures
        final(s)@ == old(s)@ + section(label@, opt_seq(*o)),
{
    match o {
        Some(t) => {
            if !t.as_str().is_empty() {
                s.append(label);
                s.append(t.as_str());
                assert(final(s)@ =~= old(s)@ + (label@ + t@));
            } else {
                assert(old(s)@ + Seq::<char>::empty() =~= old(s)@);
            }
        },
        None => {
            assert(old(s)@ + Seq::<char>::empty() =~= old(s)@);
        },
    }
}

/// The embedded text of `declaration` under `policy`.
pub fn document_text(policy: DocumentPolicy, declaration: &HydratedDeclaration) -> (r: String)
    ensures
        r@ == declaration_text(policy, *declaration),
{
    let statement = normalize(declaration.statement_text.as_str());
    let docstring = normalize_opt(&declaration.docstring_text);
    let body = normalize_opt(&declaration.definition_body_summary);
    proof {
        reveal_strlit("name: ");
        reveal_strlit("\nstatement: ");
    }
    match policy {
        DocumentPolicy::Statement => statement,
        _ => {
            let mut s = concat("name: ", declaration.qualified_name.as_str());
            s.append("\nstatement: ");
            s.append(statement.as_str());
            match policy {
                DocumentPolicy::DefinitionAware => {
                    push_section(&mut s, "\ndefinition-summary: ", &body);
                },
                DocumentPolicy::DocstringAugmented => {
                    push_section(&mut s, "\ndocstring: ", &docstring);
                    push_section(&mut s, "\ndefinition-summary: ", &body);
                },
                _ => {},
            }
            s
        },
    }
}

/// The content hash of `declaration`'s document `text` under `policy`.
pub fn content_hash_for(policy: DocumentPolicy, declaration: &HydratedDeclaration, text: &str) -> (r:
    String)
    ensures
        r@ == content_hash_of(policy, *declaration, text@),
{
    let mut s = concat(DOCUMENT_POLICY_VERSION, policy.id());
    s.append(declaration.qualified_name.as_str());
    s.append(declaration.kind.as_str());
    s.append(text);
    sha256_hex(s.as_str())
}

/// The document of `declaration` under `policy`.
pub fn document(policy: DocumentPolicy, declaration: &HydratedDeclaration) -> (r: SemanticDocument)
    ensures
        document_view(r) == document_of(policy, *declaration),
{
    let text = document_text(policy, declaration);
    let content_hash = content_hash_for(policy, declaration, text.as_str());
    SemanticDocument {
        declaration_name: declaration.qualified_name.clone(),
        module_name: declaration.module.clone(),
        declaration_kind: declaration.kind.clone(),
        content_hash,
        text,
    }
}

proof fn lemma_counts_bounded(ds: Seq<HydratedDeclaration>)
    ensures
        with_statement_count(ds) <= ds.len(),
        with_docstring_count(ds) <= ds.len(),
        with_body_count(ds) <= ds.len(),
    decreases ds.len(),
{
    if ds.len() > 0 {
        lemma_counts_bounded(ds.drop_last());
    }
}

/// `r` holds the documents of `ds` under `policy`, in order, with how many
/// had a statement, a docstring and a definition summary.
pub open spec fn documents_ok(r: SemanticDocuments, policy: DocumentPolicy, ds: Seq<HydratedDeclaration>) -> bool {
    &&& r.policy == policy
    &&& r.documents@.len() == ds.len()
    &&& forall|i: int| 0 <= i < ds.len() ==> document_view(#[trigger] r.documents@[i]) == document_of(policy, ds[i])
    &&& r.availability.total == ds.len()
    &&& r.availability.with_statement == with_statement_count(ds)
    &&& r.availability.with_docstring == with_docstring_count(ds)
    &&& r.availability.with_definition_body_summary == with_body_count(ds)
}

/// The documents of `declarations` under `policy`, in order, with how many
/// had a statement, a docstring and a definition summary.
pub fn build(policy: DocumentPolicy, declarations: &Vec<HydratedDeclaration>) -> (r: SemanticDocuments)
    ensures
        documents_ok(r, policy, declarations@),
{
    let mut documents: Vec<SemanticDocument> = Vec::new();
    let mut with_statement: usize = 0;
    let mut with_docstring: usize = 0;
    let mut with_body: usize = 0;
    let mut i: usize = 0;
    while i < declarations.len()
        invariant
            i <= declarations@.len(),
            documents@.len() == i,
            forall|j: int|
                0 <= j < i ==> document_view(#[trigger] documents@[j]) == document_of(
                    policy,
                    declarations@[j],
                ),
            with_statement == with_statement_count(declarations@.take(i as int)),
            with_docstring == with_docstring_count(declarations@.take(i as int)),
            with_body == with_body_count(declarations@.take(i as int)),
        decreases declarations@.len() - i,
    {
        let d = &declarations[i];
        proof {
            assert(declarations@.take(i + 1).drop_last() =~= declarations@.take(i as int));
            assert(declarations@.take(i + 1).last() == *d);
            lemma_counts_bounded(declarations@.take(i as int));
        }
        let statement = normalize(d.statement_text.as_str());
        if !statement.as_str().is_empty() {
            with_statement = with_statement + 1;
        }
        let docstring = normalize_opt(&d.docstring_text);
        match &docstring {
            Some(t) => {
                if !t.as_str().is_empty() {
                    with_docstring = with_docstring + 1;
                }
            },
            None => {},
        }
        let body = normalize_opt(&d.definition_body_summary);
        match &body {
            Some(t) => {
                if !t.as_str().is_empty() {
                    with_body = with_body + 1;
                }
            },
            None => {},
        }
        documents.push(document(policy, d));
        i = i + 1;
    }
    assert(declarations@.take(i as int) =~= declarations@);
    SemanticDocuments {
        policy,
        documents,
        availability: ContentAvailability {
            total: i,
            with_statement,
            with_docstring,
            with_definition_body_summary: with_body,
        },
    }
}

/// The embedding input layout the runtime applies.
#[derive(Debug, Clone, Copy, PartialEq, Eq, Structural)]
pub enum EmbeddingInputFormat {
    /// Queries and documents embedded the same way.
    SymmetricDocument,
    /// Queries and documents embedded with their own prefixes.
    AsymmetricQueryDocument,
}

/// The id of an input format.
pub open spec fn input_format_id(f: EmbeddingInputFormat) -> Seq<char> {
    match f {
        EmbeddingInputFormat::SymmetricDocument => "symmetric-document"@,
        EmbeddingInputFormat::AsymmetricQueryDocument => "asymmetric-query-document"@,
    }
}

/// The input format with id `id`.
pub fn input_format(id: &str) -> (r: Result<EmbeddingInputFormat, InvalidVectorRequest>)
    ensures
        match r {
            Ok(f) => input_format_id(f) == id@,
            Err(e) => id@ != "symmetric-document"@ && id@ != "asymmetric-query-document"@
                && e.message@ == "unsupported input format: "@ + id@,
        },
{
    if str_eq(id, "symmetric-document") {
        Ok(EmbeddingInputFormat::SymmetricDocument)
    } else if str_eq(id, "asymmetric-query-document") {
        Ok(EmbeddingInputFormat::AsymmetricQueryDocument)
    } else {
        Err(InvalidVectorRequest { message: concat("unsupported input format: ", id) })
    }
}

/// Name and content hash of each document, concatenated in order.
pub open spec fn names_and_hashes(docs: Seq<SemanticDocument>) -> Seq<char>
    decreases docs.len(),
{
    if docs.len() == 0 {
        Seq::empty()
    } else {
        names_and_hashes(docs.drop_last()) + docs.last().declaration_name@
            + docs.last().content_hash@
    }
}

/// The fingerprint of an embedded corpus: the digest of the policy id, the
/// policy version, and each document's name and content hash.
pub fn source_corpus_fingerprint(documents: &SemanticDocuments) -> (r: String)
    ensures
        r@ == text_digest(
            document_policy_id(documents.policy) + DOCUMENT_POLICY_VERSION@ + names_and_hashes(
                documents.documents@,
            ),
        ),
{
    let mut s = concat(documents.policy.id(), DOCUMENT_POLICY_VERSION);
    let ghost head = s@;
    let mut i: usize = 0;
    while i < documents.documents.len()
        invariant
            i <= documents.documents@.len(),
            s@ == head + names_and_hashes(documents.documents@.take(i as int)),
        decreases documents.documents@.len() - i,
    {
        let d = &documents.documents[i];
        s.append(d.declaration_name.as_str());
        s.append(d.content_hash.as_str());
        proof {
            assert(documents.documents@.take(i + 1).drop_last() =~= documents.documents@.take(i as int));
            assert(s@ =~= head + names_and_hashes(documents.documents@.take(i + 1)));
        }
        i = i + 1;
    }
    assert(documents.documents@.take(i as int) =~= documents.documents@);
    sha256_hex(s.as_str())
}

/// The fingerprint of a model without one of its own: the digest of its id
/// and revision (`default` when none).
pub fn fallback_model_fingerprint(id: &str, revision: Option<&str>) -> (r: String)
    ensures
        r@ == text_digest(
            id@ + match revision {
                Some(rev) => rev@,
                None => "default"@,
            },
        ),
{
    let s = match revision {
        Some(rev) => concat(id, rev),
        None => concat(id, "default"),
    };
    sha256_hex(s.as_str())
}

/// Text patterns an artifact must never hold: local paths, embedding
/// prefixes, storage and runtime names.
pub open spec fn forbidden_patterns() -> Seq<Seq<char>> {
    seq![
        "/Users/"@,
        "query:"@,
        "passage:"@,
        "LanceDB"@,
        "lancedb"@,
        "\"table\""@,
        "worker row"@,
        "worker_rows"@,
        "retrieval_key"@,
        "sqlite"@,
        "posting"@,
        "tokenizer"@,
        "onnx"@,
        "FastEmbed"@,
        "fastembed"@,
    ]
}

/// The first forbidden pattern, from index `k` on, that `json` contains.
pub open spec fn first_forbidden_from(json: Seq<char>, k: int) -> Option<Seq<char>>
    decreases 15 - k,
{
    if k < 0 || k >= 15 {
        None
    } else if contains_seq(json, forbidden_patterns()[k]) {
        Some(forbidden_patterns()[k])
    } else {
        first_forbidden_from(json, k + 1)
    }
}

/// An artifact refused by the leak check.
#[derive(Debug)]
pub struct ArtifactLeak {
    pub message: String,
}

fn forbidden_pattern(k: usize) -> (r: &'static str)
    requires
        k < 15,
    ensures
        r@ == forbidden_patterns()[k as int],
{
    let patterns: [&'static str; 15] = [
        "/Users/",
        "query:",
        "passage:",
        "LanceDB",
        "lancedb",
        "\"table\"",
        "worker row",
        "worker_rows",
        "retrieval_key",
        "sqlite",
        "posting",
        "tokenizer",
        "onnx",
        "FastEmbed",
        "fastembed",
    ];
    patterns[k]
}

/// Refuses an artifact text holding a forbidden pattern, naming the first.
pub fn check(json: &str) -> (r: Result<(), ArtifactLeak>)
    ensures
        match r {
            Ok(()) => first_forbidden_from(json@, 0) is None,
            Err(e) => first_forbidden_from(json@, 0) matches Some(p) && e.message@
                == "artifact contains forbidden pattern `"@ + p + "`"@,
        },
{
    let mut k: usize = 0;
    while k < 15
        invariant
            k <= 15,
            first_forbidden_from(json@, 0) == first_forbidden_from(json@, k as int),
        decreases 15 - k,
    {
        let p = forbidden_pattern(k);
        if contains(json, p) {
            let mut m = concat("artifact contains forbidden pattern `", p);
            m.append("`");
            return Err(ArtifactLeak { message: m });
        }
        k = k + 1;
    }
    Ok(())
}

} // verus!
