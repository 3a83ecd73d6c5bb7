//! Facts learned from workspace source files for review guidance: which
//! modules a file imports, a whitespace-insensitive fingerprint of each
//! declaration's source, and a bounded list of caller references found by
//! token-aware scanning. File contents are handed in by the caller; this
//! module owns the scanning.
use vstd::prelude::*;

use crate::declaration::HydratedDeclaration;
use crate::digest::{hex_of, sha256_digest, sha256_hex};
use crate::lean_text::{
    first_occ, first_token, first_token_match, imports_in, lemma_first_occ_found, lemma_first_occ_none,
    lines_of, parse_imports, short_name, short_of, split_lines, strip_comments_by_line, strip_lines,
};
use crate::sets::{contains_str, is_ordered_set, set_insert, set_new, views};
use crate::text::{
    chars_of, join, join_strings, lemma_lex_irreflexive, lemma_lex_transitive, lemma_lex_trichotomy,
    lex_lt, normalize, normalize_space, occurs_at, opt_view, str_eq, str_lt, string_of, sub_chars, trim,
    trimmed, find_from,
};
use crate::worker::clone_opt_string;

verus! {

/// Files larger than this many bytes are not read.
pub const DEFAULT_MAX_FILE_BYTES: u64 = 1_000_000;

/// At most this many caller references are kept per declaration.
pub const DEFAULT_MAX_REFERENCES_PER_DECLARATION: usize = 256;

/// Import availability for replacing a local declaration with a target module.
#[derive(Debug, Clone, Copy, PartialEq, Eq, Structural)]
pub enum ImportStatus {
    Direct,
    Missing,
    Unknown,
}

/// One bounded caller reference discovered by token-aware scanning: the file,
/// the 1-based line, the 1-based byte column and the trimmed line text.
#[derive(Debug)]
pub struct SourceReference {
    pub file: String,
    pub line: usize,
    pub column: usize,
    pub text: String,
}

impl View for SourceReference {
    type V = (Seq<char>, int, int, Seq<char>);

    open spec fn view(&self) -> (Seq<char>, int, int, Seq<char>) {
        (self.file@, self.line as int, self.column as int, self.text@)
    }
}

impl Clone for SourceReference {
    fn clone(&self) -> (r: Self)
        ensures
            r@ == self@,
    {
        SourceReference {
            file: self.file.clone(),
            line: self.line,
            column: self.column,
            text: self.text.clone(),
        }
    }
}

/// Order of references: by file, then line, then column, then text.
pub open spec fn ref_lt(a: (Seq<char>, int, int, Seq<char>), b: (Seq<char>, int, int, Seq<char>)) -> bool {
    ||| lex_lt(a.0, b.0)
    ||| (a.0 == b.0 && a.1 < b.1)
    ||| (a.0 == b.0 && a.1 == b.1 && a.2 < b.2)
    ||| (a.0 == b.0 && a.1 == b.1 && a.2 == b.2 && lex_lt(a.3, b.3))
}

proof fn lemma_ref_trichotomy(a: (Seq<char>, int, int, Seq<char>), b: (Seq<char>, int, int, Seq<char>))
    ensures
        ref_lt(a, b) || a == b || ref_lt(b, a),
        !(ref_lt(a, b) && ref_lt(b, a)),
        !ref_lt(a, a),
{
    lemma_lex_trichotomy(a.0, b.0);
    lemma_lex_trichotomy(a.3, b.3);
    lemma_lex_irreflexive(a.0);
    lemma_lex_irreflexive(a.3);
    lemma_lex_irreflexive(b.0);
    lemma_lex_irreflexive(b.3);
}

proof fn lemma_ref_transitive(
    a: (Seq<char>, int, int, Seq<char>),
    b: (Seq<char>, int, int, Seq<char>),
    c: (Seq<char>, int, int, Seq<char>),
)
    requires
        ref_lt(a, b),
        ref_lt(b, c),
    ensures
        ref_lt(a, c),
{
    if lex_lt(a.0, b.0) && lex_lt(b.0, c.0) {
        lemma_lex_transitive(a.0, b.0, c.0);
    }
    if a.0 == b.0 && b.0 == c.0 && a.1 == b.1 && b.1 == c.1 && a.2 == b.2 && b.2 == c.2 && lex_lt(
        a.3,
        b.3,
    ) && lex_lt(b.3, c.3) {
        lemma_lex_transitive(a.3, b.3, c.3);
    }
}

/// The views of a sequence of references.
pub open spec fn ref_views(v: Seq<SourceReference>) -> Seq<(Seq<char>, int, int, Seq<char>)> {
    v.map_values(|r: SourceReference| r@)
}

/// Strictly increasing in reference order (sorted, no duplicates).
pub open spec fn refs_sorted(s: Seq<(Seq<char>, int, int, Seq<char>)>) -> bool {
    forall|i: int, j: int| 0 <= i < j < s.len() ==> ref_lt(#[trigger] s[i], #[trigger] s[j])
}

fn ref_less(a: &SourceReference, b: &SourceReference) -> (r: bool)
    ensures
        r == ref_lt(a@, b@),
{
    if str_lt(a.file.as_str(), b.file.as_str()) {
        return true;
    }
    if !str_eq(a.file.as_str(), b.file.as_str()) {
        return false;
    }
    if a.line != b.line {
        return a.line < b.line;
    }
    if a.column != b.column {
        return a.column < b.column;
    }
    str_lt(a.text.as_str(), b.text.as_str())
}

fn ref_same(a: &SourceReference, b: &SourceReference) -> (r: bool)
    ensures
        r == (a@ == b@),
{
    str_eq(a.file.as_str(), b.file.as_str()) && a.line == b.line && a.column == b.column && str_eq(
        a.text.as_str(),
        b.text.as_str(),
    )
}

/// Inserts `x` into the sorted duplicate-free vector `v`.
fn insert_ref(v: &mut Vec<SourceReference>, x: SourceReference)
    requires
        refs_sorted(ref_views(old(v)@)),
    ensures
        refs_sorted(ref_views(final(v)@)),
        ref_views(final(v)@).to_set() == ref_views(old(v)@).to_set().insert(x@),
{
    let ghost old_views = ref_views(v@);
    let mut p: usize = 0;
    while p < v.len() && ref_less(&v[p], &x)
        invariant
            p <= v@.len(),
            ref_views(v@) == old_views,
            refs_sorted(old_views),
            forall|k: int| 0 <= k < p ==> ref_lt(#[trigger] old_views[k], x@),
        decreases v@.len() - p,
    {
        p = p + 1;
    }
    if p < v.len() && ref_same(&v[p], &x) {
        assert(old_views[p as int] == x@);
        assert(old_views.to_set().insert(x@) =~= old_views.to_set());
        return;
    }
    proof {
        if p < old_views.len() {
            lemma_ref_trichotomy(old_views[p as int], x@);
        }
    }
    let ghost xv = x@;
    v.insert(p, x);
    proof {
        let nv = ref_views(v@);
        assert(nv =~= old_views.insert(p as int, xv));
        assert forall|i: int, j: int| 0 <= i < j < nv.len() implies ref_lt(
            #[trigger] nv[i],
            #[trigger] nv[j],
        ) by {
            if j < p {
            } else if j == p {
            } else if i < p {
                lemma_ref_transitive(nv[i], xv, old_views[p as int]);
                if j > p + 1 {
                    lemma_ref_transitive(nv[i], old_views[p as int], nv[j]);
                }
            } else if i == p {
                if j > p + 1 {
                    lemma_ref_transitive(xv, old_views[p as int], nv[j]);
                }
            } else {
            }
        }
        assert(nv.to_set() =~= old_views.to_set().insert(xv)) by {
            assert forall|s| nv.to_set().contains(s) implies old_views.to_set().insert(xv).contains(
                s,
            ) by {
                let k = choose|k: int| 0 <= k < nv.len() && nv[k] == s;
                if k < p {
                    assert(old_views[k] == s);
                } else if k > p {
                    assert(old_views[k - 1] == s);
                }
            }
            assert forall|s| old_views.to_set().insert(xv).contains(s) implies nv.to_set().contains(
                s,
            ) by {
                if s == xv {
                    assert(nv[p as int] == s);
                } else {
                    let k = choose|k: int| 0 <= k < old_views.len() && old_views[k] == s;
                    if k < p {
                        assert(nv[k] == s);
                    } else {
                        assert(nv[k + 1] == s);
                    }
                }
            }
        }
    }
}

/// References sorted in reference order with duplicates dropped
/// (`sort` then `dedup`).
pub fn sort_dedup_refs(items: Vec<SourceReference>) -> (r: Vec<SourceReference>)
    ensures
        refs_sorted(ref_views(r@)),
        ref_views(r@).to_set() == ref_views(items@).to_set(),
{
    let mut r: Vec<SourceReference> = Vec::new();
    let mut i: usize = 0;
    assert(ref_views(items@.take(0)).to_set() =~= Set::empty());
    assert(ref_views(r@).to_set() =~= Set::empty());
    while i < items.len()
        invariant
            i <= items@.len(),
            refs_sorted(ref_views(r@)),
            ref_views(r@).to_set() == ref_views(items@.take(i as int)).to_set(),
        decreases items@.len() - i,
    {
        insert_ref(&mut r, items[i].clone());
        proof {
            assert(ref_views(items@.take(i + 1)) =~= ref_views(items@.take(i as int)).push(
                items@[i as int]@,
            ));
            ref_views(items@.take(i as int)).lemma_push_to_set_commute(items@[i as int]@);
        }
        i = i + 1;
    }
    assert(items@.take(items@.len() as int) =~= items@);
    r
}

/// Source-level facts for one declaration.
#[derive(Debug)]
pub struct DeclarationSourceFact {
    pub declaration_id: String,
    pub qualified_name: String,
    pub module: String,
    pub source_file: Option<String>,
    pub source_fingerprint: Option<String>,
    pub references: Vec<SourceReference>,
}

/// Source-level facts for one loaded (or unavailable) file.
#[derive(Debug, Clone)]
pub struct SourceFileFact {
    pub path: String,
    pub imports: Vec<String>,
    pub unavailable: bool,
}

/// Facts learned from workspace source files, keyed by declaration id and
/// by file path: a lookup finds the last entry recorded under its key.
#[derive(Debug)]
pub struct SourceFacts {
    pub declarations: Vec<DeclarationSourceFact>,
    pub files: Vec<SourceFileFact>,
    pub diagnostics: Vec<String>,
}

/// The last fact recorded for `id`.
pub open spec fn decl_fact(v: Seq<DeclarationSourceFact>, id: Seq<char>) -> Option<DeclarationSourceFact>
    decreases v.len(),
{
    if v.len() == 0 {
        None
    } else if v.last().declaration_id@ == id {
        Some(v.last())
    } else {
        decl_fact(v.drop_last(), id)
    }
}

/// The last file fact recorded for `path`.
pub open spec fn file_fact(v: Seq<SourceFileFact>, path: Seq<char>) -> Option<SourceFileFact>
    decreases v.len(),
{
    if v.len() == 0 {
        None
    } else if v.last().path@ == path {
        Some(v.last())
    } else {
        file_fact(v.drop_last(), path)
    }
}

/// Import status of `target` for the declaration `id` as the facts show it:
/// direct when the declaration lives in `target` or its file imports it,
/// missing when its readable file does not import it, unknown otherwise.
pub open spec fn import_status(facts: SourceFacts, id: Seq<char>, target: Seq<char>) -> ImportStatus {
    match decl_fact(facts.declarations@, id) {
        None => ImportStatus::Unknown,
        Some(d) => {
            if d.module@ == target {
                ImportStatus::Direct
            } else {
                match d.source_file {
                    None => ImportStatus::Unknown,
                    Some(path) => match file_fact(facts.files@, path@) {
                        None => ImportStatus::Unknown,
                        Some(f) => {
                            if f.unavailable {
                                ImportStatus::Unknown
                            } else if views(f.imports@).contains(target) {
                                ImportStatus::Direct
                            } else {
                                ImportStatus::Missing
                            }
                        },
                    },
                }
            }
        },
    }
}

fn find_decl_fact<'a>(v: &'a Vec<DeclarationSourceFact>, id: &str) -> (r: Option<&'a DeclarationSourceFact>)
    ensures
        r matches Some(f) ==> decl_fact(v@, id@) == Some(*f),
        r is None ==> decl_fact(v@, id@) is None,
{
    let mut i: usize = v.len();
    assert(v@.take(v@.len() as int) =~= v@);
    while i > 0
        invariant
            i <= v@.len(),
            decl_fact(v@, id@) == decl_fact(v@.take(i as int), id@),
        decreases i,
    {
        proof {
            assert(v@.take(i as int).drop_last() =~= v@.take(i - 1));
        }
        if str_eq(v[i - 1].declaration_id.as_str(), id) {
            return Some(&v[i - 1]);
        }
        i = i - 1;
    }
    None
}

fn find_file_fact<'a>(v: &'a Vec<SourceFileFact>, path: &str) -> (r: Option<&'a SourceFileFact>)
    ensures
        r matches Some(f) ==> file_fact(v@, path@) == Some(*f),
        r is None ==> file_fact(v@, path@) is None,
{
    let mut i: usize = v.len();
    assert(v@.take(v@.len() as int) =~= v@);
    while i > 0
        invariant
            i <= v@.len(),
            file_fact(v@, path@) == file_fact(v@.take(i as int), path@),
        decreases i,
    {
        proof {
            assert(v@.take(i as int).drop_last() =~= v@.take(i - 1));
        }
        if str_eq(v[i - 1].path.as_str(), path) {
            return Some(&v[i - 1]);
        }
        i = i - 1;
    }
    None
}

impl SourceFacts {
    /// No facts at all.
    pub fn empty() -> (r: SourceFacts)
        ensures
            r.declarations@.len() == 0,
            r.files@.len() == 0,
            r.diagnostics@.len() == 0,
    {
        SourceFacts { declarations: Vec::new(), files: Vec::new(), diagnostics: Vec::new() }
    }

    /// The facts recorded for a declaration.
    pub fn declaration(&self, declaration_id: &str) -> (r: Option<&DeclarationSourceFact>)
        ensures
            r matches Some(f) ==> decl_fact(self.declarations@, declaration_id@) == Some(*f),
            r is None ==> decl_fact(self.declarations@, declaration_id@) is None,
    {
        proof {
            assert(self.declarations@.take(self.declarations@.len() as int) =~= self.declarations@);
        }
        find_decl_fact(&self.declarations, declaration_id)
    }

    /// Number of caller references recorded for a declaration (0 when it
    /// has no facts).
    pub fn caller_count(&self, declaration_id: &str) -> (r: usize)
        ensures
            r == match decl_fact(self.declarations@, declaration_id@) {
                Some(f) => f.references@.len(),
                None => 0,
            },
    {
        match self.declaration(declaration_id) {
            Some(f) => f.references.len(),
            None => 0,
        }
    }

    /// The source fingerprint recorded for a declaration, if any.
    pub fn source_fingerprint(&self, declaration_id: &str) -> (r: Option<String>)
        ensures
            opt_view(r) == match decl_fact(self.declarations@, declaration_id@) {
                Some(f) => opt_view(f.source_fingerprint),
                None => None,
            },
    {
        match self.declaration(declaration_id) {
            Some(f) => clone_opt_string(&f.source_fingerprint),
            None => None,
        }
    }

    /// Whether replacing the declaration by one in `target_module` needs a
    /// new import.
    pub fn import_status_for(&self, declaration_id: &str, target_module: &str) -> (r: ImportStatus)
        ensures
            r == import_status(*self, declaration_id@, target_module@),
    {
        let d = match self.declaration(declaration_id) {
            None => {
                return ImportStatus::Unknown;
            },
            Some(d) => d,
        };
        if str_eq(d.module.as_str(), target_module) {
            return ImportStatus::Direct;
        }
        let path = match &d.source_file {
            None => {
                return ImportStatus::Unknown;
            },
            Some(p) => p,
        };
        let file = match find_file_fact(&self.files, path.as_str()) {
            None => {
                return ImportStatus::Unknown;
            },
            Some(f) => f,
        };
        if file.unavailable {
            return ImportStatus::Unknown;
        }
        if contains_str(&file.imports, target_module) {
            ImportStatus::Direct
        } else {
            ImportStatus::Missing
        }
    }
}

/// Which declarations get caller references scanned.
#[derive(Debug, Clone)]
pub enum SourceReferenceScope {
    All,
    Nothing,
    /// Only the declarations whose ids are listed.
    Only(Vec<String>),
}

/// Whether the scope asks for references of `id`.
pub open spec fn scope_includes(scope: SourceReferenceScope, id: Seq<char>) -> bool {
    match scope {
        SourceReferenceScope::All => true,
        SourceReferenceScope::Nothing => false,
        SourceReferenceScope::Only(ids) => views(ids@).contains(id),
    }
}

impl SourceReferenceScope {
    /// Whether references of `declaration_id` are scanned.
    pub fn includes(&self, declaration_id: &str) -> (r: bool)
        ensures
            r == scope_includes(*self, declaration_id@),
    {
        match self {
            SourceReferenceScope::All => true,
            SourceReferenceScope::Nothing => false,
            SourceReferenceScope::Only(ids) => contains_str(ids, declaration_id),
        }
    }
}

/// Input for bounded source fact collection. Imports and fingerprints are
/// gathered for every declaration; caller references only for those the
/// scope includes.
#[derive(Debug, Clone)]
pub struct SourceFactInput {
    pub declarations: Vec<HydratedDeclaration>,
    pub max_file_bytes: u64,
    pub max_references_per_declaration: usize,
    pub reference_scope: SourceReferenceScope,
}

impl SourceFactInput {
    /// Input with the default bounds, scanning references of every
    /// declaration.
    pub fn new(declarations: Vec<HydratedDeclaration>) -> (r: SourceFactInput)
        ensures
            r.declarations == declarations,
            r.max_file_bytes == DEFAULT_MAX_FILE_BYTES,
            r.max_references_per_declaration == DEFAULT_MAX_REFERENCES_PER_DECLARATION,
            r.reference_scope is All,
    {
        SourceFactInput {
            declarations,
            max_file_bytes: DEFAULT_MAX_FILE_BYTES,
            max_references_per_declaration: DEFAULT_MAX_REFERENCES_PER_DECLARATION,
            reference_scope: SourceReferenceScope::All,
        }
    }

    /// The same input with no reference scanning.
    pub fn without_references(self) -> (r: SourceFactInput)
        ensures
            r.declarations == self.declarations,
            r.max_file_bytes == self.max_file_bytes,
            r.max_references_per_declaration == self.max_references_per_declaration,
            r.reference_scope is Nothing,
    {
        SourceFactInput { reference_scope: SourceReferenceScope::Nothing, ..self }
    }

    /// The same input scanning references only for the given declarations.
    pub fn with_reference_declarations(self, declaration_ids: Vec<String>) -> (r: SourceFactInput)
        ensures
            r.declarations == self.declarations,
            r.max_file_bytes == self.max_file_bytes,
            r.max_references_per_declaration == self.max_references_per_declaration,
            r.reference_scope == SourceReferenceScope::Only(declaration_ids),
    {
        SourceFactInput { reference_scope: SourceReferenceScope::Only(declaration_ids), ..self }
    }
}


/// Byte-length-first order of reference tokens: longer names first, equal
/// lengths in string order.
pub open spec fn tok_lt(a: Seq<char>, b: Seq<char>) -> bool {
    let la = vstd::utf8::encode_utf8(a).len();
    let lb = vstd::utf8::encode_utf8(b).len();
    la > lb || (la == lb && lex_lt(a, b))
}

/// `x` added to the token list `s` kept in `tok_lt` order, unless present.
pub open spec fn insert_tok(s: Seq<Seq<char>>, x: Seq<char>) -> Seq<Seq<char>>
    decreases s.len(),
{
    if s.len() == 0 {
        seq![x]
    } else if s[0] == x {
        s
    } else if tok_lt(x, s[0]) {
        seq![x] + s
    } else {
        seq![s[0]] + insert_tok(s.drop_first(), x)
    }
}

/// The names a caller may use for a declaration: its qualified name, its
/// display name and the last component of its qualified name (the empty
/// ones left out), longest first; none when it has no qualified name.
pub open spec fn tokens_of(d: HydratedDeclaration) -> Option<Seq<Seq<char>>> {
    let q = d.qualified_name@;
    if q.len() == 0 {
        None
    } else {
        let t1 = seq![q];
        let t2 = if d.display_name@.len() > 0 {
            insert_tok(t1, d.display_name@)
        } else {
            t1
        };
        let sh = short_of(q);
        Some(
            if sh.len() > 0 {
                insert_tok(t2, sh)
            } else {
                t2
            },
        )
    }
}

fn tok_less(a: &String, b: &String) -> (r: bool)
    ensures
        r == tok_lt(a@, b@),
{
    let la = a.as_str().as_bytes().len();
    let lb = b.as_str().as_bytes().len();
    la > lb || (la == lb && str_lt(a.as_str(), b.as_str()))
}

fn insert_token(v: &mut Vec<String>, x: String)
    ensures
        views(final(v)@) == insert_tok(views(old(v)@), x@),
{
    let ghost s0 = views(v@);
    let mut p: usize = 0;
    assert(s0.take(0) + s0.skip(0) =~= s0);
    while p < v.len()
        invariant
            p <= v@.len(),
            views(v@) == s0,
            s0 == views(old(v)@),
            insert_tok(s0, x@) == s0.take(p as int) + insert_tok(s0.skip(p as int), x@),
        decreases v@.len() - p,
    {
        let ghost rest = s0.skip(p as int);
        proof {
            assert(rest[0] == v@[p as int]@);
        }
        if str_eq(v[p].as_str(), x.as_str()) {
            assert(insert_tok(rest, x@) == rest);
            assert(s0.take(p as int) + rest =~= s0);
            return;
        }
        if tok_less(&x, &v[p]) {
            let ghost xv = x@;
            v.insert(p, x);
            proof {
                assert(insert_tok(rest, xv) == seq![xv] + rest);
                assert(views(v@) =~= s0.take(p as int) + (seq![xv] + rest));
            }
            return;
        }
        proof {
            assert(rest.drop_first() =~= s0.skip(p + 1));
            assert(s0.take(p + 1) =~= s0.take(p as int) + seq![rest[0]]);
            assert(s0.take(p as int) + (seq![rest[0]] + insert_tok(s0.skip(p + 1), x@))
                =~= s0.take(p + 1) + insert_tok(s0.skip(p + 1), x@));
        }
        p = p + 1;
    }
    let ghost xv = x@;
    v.push(x);
    proof {
        assert(s0.skip(p as int) =~= Seq::<Seq<char>>::empty());
        assert(s0.take(p as int) =~= s0);
        assert(views(v@) =~= s0 + seq![xv]);
    }
}

/// The tokens a caller may use for a declaration, longest first.
pub fn reference_tokens(d: &HydratedDeclaration) -> (r: Option<Vec<String>>)
    ensures
        r matches Some(v) ==> tokens_of(*d) == Some(views(v@)),
        r is None ==> tokens_of(*d) is None,
        r matches Some(v) ==> forall|k: int| 0 <= k < v@.len() ==> #[trigger] v@[k]@.len() > 0,
{
    if d.qualified_name.as_str().is_empty() {
        return None;
    }
    let mut v: Vec<String> = Vec::new();
    v.push(d.qualified_name.clone());
    proof {
        assert(views(v@) =~= seq![d.qualified_name@]);
    }
    if !d.display_name.as_str().is_empty() {
        insert_token(&mut v, d.display_name.clone());
    }
    let sh = short_name(d.qualified_name.as_str());
    if !sh.as_str().is_empty() {
        insert_token(&mut v, sh);
    }
    proof {
        assert forall|k: int| 0 <= k < v@.len() implies #[trigger] v@[k]@.len() > 0 by {
            let t1 = seq![d.qualified_name@];
            if d.display_name@.len() > 0 {
                lemma_insert_tok_nonempty(t1, d.display_name@);
            }
            let t2 = if d.display_name@.len() > 0 {
                insert_tok(t1, d.display_name@)
            } else {
                t1
            };
            if short_of(d.qualified_name@).len() > 0 {
                lemma_insert_tok_nonempty(t2, short_of(d.qualified_name@));
            }
            assert(views(v@)[k] == v@[k]@);
        }
    }
    Some(v)
}

proof fn lemma_insert_tok_nonempty(s: Seq<Seq<char>>, x: Seq<char>)
    requires
        forall|k: int| 0 <= k < s.len() ==> #[trigger] s[k].len() > 0,
        x.len() > 0,
    ensures
        forall|k: int| 0 <= k < insert_tok(s, x).len() ==> #[trigger] insert_tok(s, x)[k].len() > 0,
    decreases s.len(),
{
    if s.len() > 0 && s[0] != x && !tok_lt(x, s[0]) {
        let t = s.drop_first();
        assert forall|k: int| 0 <= k < t.len() implies #[trigger] t[k].len() > 0 by {
            assert(t[k] == s[k + 1]);
        }
        lemma_insert_tok_nonempty(t, x);
        let r = insert_tok(s, x);
        assert(r == seq![s[0]] + insert_tok(t, x));
        assert forall|k: int| 0 <= k < r.len() implies #[trigger] r[k].len() > 0 by {
            if k > 0 {
                assert(r[k] == insert_tok(t, x)[k - 1]);
            }
        }
    }
}

/// The file of a workspace declaration with a source span.
pub open spec fn workspace_file(d: HydratedDeclaration) -> Option<Seq<char>> {
    if d.origin@ == workspace_origin() {
        match d.source_span {
            Some(sp) => Some(sp.file@),
            None => None,
        }
    } else {
        None
    }
}

/// The files of workspace declarations: those whose contents
/// `collect_source_facts` wants.
pub open spec fn source_file_set(ds: Seq<HydratedDeclaration>) -> Set<Seq<char>> {
    Set::new(|f: Seq<char>| exists|i: int| 0 <= i < ds.len() && #[trigger] workspace_file(ds[i]) == Some(f))
}

/// The origin of declarations that live in the workspace.
pub open spec fn workspace_origin() -> Seq<char> {
    seq!['w', 'o', 'r', 'k', 's', 'p', 'a', 'c', 'e']
}

pub(crate) fn is_workspace(origin: &str) -> (r: bool)
    ensures
        r == (origin@ == workspace_origin()),
{
    let w = "workspace";
    proof {
        reveal_strlit("workspace");
        assert(w@ =~= workspace_origin());
    }
    str_eq(origin, w)
}

proof fn lemma_source_files_step(ds: Seq<HydratedDeclaration>, i: int)
    requires
        0 <= i < ds.len(),
    ensures
        source_file_set(ds.take(i + 1)) == match workspace_file(ds[i]) {
            Some(f) => source_file_set(ds.take(i)).insert(f),
            None => source_file_set(ds.take(i)),
        },
{
    let a = source_file_set(ds.take(i + 1));
    let b = source_file_set(ds.take(i));
    let target = match workspace_file(ds[i]) {
        Some(f) => b.insert(f),
        None => b,
    };
    assert forall|f| a.contains(f) implies target.contains(f) by {
        let j = choose|j: int| 0 <= j < i + 1 && #[trigger] workspace_file(ds.take(i + 1)[j]) == Some(f);
        if j < i {
            assert(ds.take(i)[j] == ds.take(i + 1)[j]);
        }
    }
    assert forall|f| target.contains(f) implies a.contains(f) by {
        if workspace_file(ds[i]) == Some(f) {
            assert(ds.take(i + 1)[i] == ds[i]);
        } else {
            let j = choose|j: int| 0 <= j < i && #[trigger] workspace_file(ds.take(i)[j]) == Some(f);
            assert(ds.take(i + 1)[j] == ds.take(i)[j]);
        }
    }
    assert(a =~= target);
}

/// The files (in string order, each once) holding workspace declarations.
pub fn source_files(declarations: &Vec<HydratedDeclaration>) -> (r: Vec<String>)
    ensures
        is_ordered_set(r@, source_file_set(declarations@)),
{
    let mut r = set_new();
    let mut i: usize = 0;
    assert(source_file_set(declarations@.take(0)) =~= Set::empty());
    while i < declarations.len()
        invariant
            i <= declarations@.len(),
            is_ordered_set(r@, source_file_set(declarations@.take(i as int))),
        decreases declarations@.len() - i,
    {
        let d = &declarations[i];
        proof {
            lemma_source_files_step(declarations@, i as int);
        }
        if is_workspace(d.origin.as_str()) {
            match &d.source_span {
                Some(sp) => {
                    set_insert(&mut r, sp.file.clone());
                },
                None => {},
            }
        }
        i = i + 1;
    }
    assert(declarations@.take(declarations@.len() as int) =~= declarations@);
    r
}

/// A file's contents as the caller read them, or the message saying why it
/// could not be read.
#[derive(Debug)]
pub struct LoadedSource {
    pub path: String,
    pub text: Result<String, String>,
}

/// Whether line `line` (1-based) of `path` lies inside the declaration's own
/// source span (a declaration does not reference itself there).
pub open spec fn in_own_span(d: HydratedDeclaration, path: Seq<char>, line: int) -> bool {
    match d.source_span {
        Some(sp) => sp.file@ == path && sp.start.line <= line && line <= sp.end.line,
        None => false,
    }
}

/// The reference found on line `i` (0-based) of a file, if any: the first
/// token found free-standing in the comment-free line, its 1-based byte
/// column there, and the trimmed given line.
pub open spec fn line_ref(
    path: Seq<char>,
    lines: Seq<Seq<char>>,
    stripped: Seq<Seq<char>>,
    tokens: Seq<Seq<char>>,
    d: HydratedDeclaration,
    i: int,
) -> Option<(Seq<char>, int, int, Seq<char>)> {
    if in_own_span(d, path, i + 1) {
        None
    } else {
        match first_token(stripped[i], tokens) {
            Some(p) => Some(
                (path, i + 1, vstd::utf8::encode_utf8(stripped[i].take(p)).len() as int + 1, trim(lines[i])),
            ),
            None => None,
        }
    }
}

/// The references found on the first `n` lines of a file, in line order.
pub open spec fn file_refs(
    path: Seq<char>,
    lines: Seq<Seq<char>>,
    stripped: Seq<Seq<char>>,
    tokens: Seq<Seq<char>>,
    d: HydratedDeclaration,
    n: int,
) -> Seq<(Seq<char>, int, int, Seq<char>)>
    decreases n,
{
    if n <= 0 {
        Seq::empty()
    } else {
        file_refs(path, lines, stripped, tokens, d, n - 1) + match line_ref(
            path,
            lines,
            stripped,
            tokens,
            d,
            n - 1,
        ) {
            Some(r) => seq![r],
            None => Seq::empty(),
        }
    }
}

/// All references found in the readable sources, file by file in the order
/// given, line by line.
pub open spec fn source_refs_in(srcs: Seq<LoadedSource>, tokens: Seq<Seq<char>>, d: HydratedDeclaration) -> Seq<
    (Seq<char>, int, int, Seq<char>),
>
    decreases srcs.len(),
{
    if srcs.len() == 0 {
        Seq::empty()
    } else {
        source_refs_in(srcs.drop_last(), tokens, d) + match srcs.last().text {
            Ok(t) => {
                let ls = lines_of(t@);
                file_refs(srcs.last().path@, ls, strip_lines(ls, 0), tokens, d, ls.len() as int)
            },
            Err(_) => Seq::empty(),
        }
    }
}

/// The first `n` elements of `s` (all of them when it is shorter).
pub open spec fn first_n<A>(s: Seq<A>, n: int) -> Seq<A> {
    if s.len() <= n {
        s
    } else {
        s.take(n)
    }
}

/// The caller references gathered for `d` before sorting: the first `max`
/// found, for a workspace declaration the scope includes and that has a
/// name; none otherwise.
pub open spec fn decl_refs(
    d: HydratedDeclaration,
    srcs: Seq<LoadedSource>,
    scope: SourceReferenceScope,
    max: int,
) -> Seq<(Seq<char>, int, int, Seq<char>)> {
    if scope_includes(scope, d.declaration_id@) && d.origin@ == workspace_origin() {
        match tokens_of(d) {
            Some(ts) => first_n(source_refs_in(srcs, ts, d), max),
            None => Seq::empty(),
        }
    } else {
        Seq::empty()
    }
}

/// The text of the last readable source for `path`.
pub open spec fn loaded_text(srcs: Seq<LoadedSource>, path: Seq<char>) -> Option<Seq<char>>
    decreases srcs.len(),
{
    if srcs.len() == 0 {
        None
    } else if srcs.last().path@ == path && srcs.last().text is Ok {
        Some(srcs.last().text->Ok_0@)
    } else {
        loaded_text(srcs.drop_last(), path)
    }
}

/// Placeholder that stands for the declaration's own short name in a
/// fingerprinted snippet.
pub open spec fn decl_placeholder() -> Seq<char> {
    seq!['_', 'd', 'e', 'c', 'l']
}

/// `s` with the first occurrence of `pat` replaced by `rep` (`replacen(.., 1)`).
pub open spec fn replace_first(s: Seq<char>, pat: Seq<char>, rep: Seq<char>) -> Seq<char> {
    match first_occ(s, pat, 0) {
        Some(p) => s.take(p) + rep + s.skip(p + pat.len()),
        None => s,
    }
}

/// The fingerprint of lines `start..=end` (1-based) of a comment-free file:
/// the lines joined by newlines, the first occurrence of the short name
/// replaced by `_decl`, white space normalised, then hashed (SHA-256, lower
/// hex). None for an empty or invalid range.
pub open spec fn fingerprint_of(stripped: Seq<Seq<char>>, qname: Seq<char>, start: int, end: int) -> Option<
    Seq<char>,
> {
    if start == 0 || end < start || end > stripped.len() {
        None
    } else {
        let snippet = join(stripped.subrange(start - 1, end), seq!['\n']);
        let sh = short_of(qname);
        let replaced = if sh.len() > 0 {
            replace_first(snippet, sh, decl_placeholder())
        } else {
            snippet
        };
        let normalized = normalize_space(replaced);
        if normalized.len() == 0 {
            None
        } else {
            Some(hex_of(sha256_digest(vstd::utf8::encode_utf8(normalized))))
        }
    }
}

/// The fingerprint of a declaration whose file was read.
pub open spec fn decl_fingerprint(d: HydratedDeclaration, srcs: Seq<LoadedSource>) -> Option<Seq<char>> {
    match d.source_span {
        Some(sp) => match loaded_text(srcs, sp.file@) {
            Some(t) => fingerprint_of(strip_lines(lines_of(t), 0), d.qualified_name@, sp.start.line as int, sp.end.line as int),
            None => None,
        },
        None => None,
    }
}

fn fingerprint_for(stripped: &Vec<String>, qname: &str, start: u64, end: u64) -> (r: Option<String>)
    ensures
        opt_view(r) == fingerprint_of(views(stripped@), qname@, start as int, end as int),
{
    let n = stripped.len();
    if start == 0 || end < start || end > n as u64 {
        return None;
    }
    let a = (start - 1) as usize;
    let b = end as usize;
    let mut part: Vec<String> = Vec::new();
    let mut i = a;
    while i < b
        invariant
            a <= i <= b <= stripped@.len(),
            views(part@) == views(stripped@).subrange(a as int, i as int),
        decreases b - i,
    {
        let ghost prev = views(part@);
        part.push(stripped[i].clone());
        proof {
            assert(views(part@) =~= prev.push(stripped@[i as int]@));
            assert(views(stripped@).subrange(a as int, i + 1) =~= views(stripped@).subrange(a as int, i as int).push(
                stripped@[i as int]@,
            ));
        }
        i = i + 1;
    }
    let nl = "\n";
    let snippet = join_strings(&part, nl);
    proof {
        reveal_strlit("\n");
        assert(nl@ =~= seq!['\n']);
        assert(part@.map_values(|p: String| p@) =~= views(part@));
    }
    let sh = short_name(qname);
    let replaced = if sh.as_str().is_empty() {
        snippet
    } else {
        let cs = chars_of(snippet.as_str());
        let pc = chars_of(sh.as_str());
        let _cl = cs.len();
        match find_from(&cs, &pc, 0) {
            Some(p) => {
                proof {
                    lemma_first_occ_found(cs@, pc@, 0, p as int);
                    assert(occurs_at(cs@, pc@, p as int));
                    assert(p + pc@.len() <= cs@.len());
                }
                let head = sub_chars(&cs, 0, p);
                let tail = sub_chars(&cs, p + pc.len(), cs.len());
                let hs = string_of(head.as_slice());
                let ts = string_of(tail.as_slice());
                let placeholder = "_decl";
                proof {
                    reveal_strlit("_decl");
                    assert(placeholder@ =~= decl_placeholder());
                    assert(cs@.take(p as int) =~= cs@.subrange(0, p as int));
                    assert(cs@.skip(p + pc@.len()) =~= cs@.subrange(p + pc@.len(), cs@.len() as int));
                }
                crate::text::concat3(hs.as_str(), placeholder, ts.as_str())
            },
            None => {
                proof {
                    lemma_first_occ_none(cs@, pc@, 0);
                }
                snippet
            },
        }
    };
    let normalized = normalize(replaced.as_str());
    if normalized.as_str().is_empty() {
        None
    } else {
        Some(sha256_hex(normalized.as_str()))
    }
}

/// A readable source split into lines, with and without comments.
struct ParsedSource {
    path: String,
    lines: Vec<String>,
    stripped: Vec<String>,
}

spec fn parsed_matches(p: Option<ParsedSource>, src: LoadedSource) -> bool {
    match src.text {
        Ok(t) => p matches Some(ps) && ps.path@ == src.path@ && views(ps.lines@) == lines_of(t@) && views(
            ps.stripped@,
        ) == strip_lines(lines_of(t@), 0),
        Err(_) => p is None,
    }
}

proof fn lemma_strip_lines_len(ls: Seq<Seq<char>>, depth: nat)
    ensures
        strip_lines(ls, depth).len() == ls.len(),
    decreases ls.len(),
{
    if ls.len() > 0 {
        let r = crate::lean_text::strip_from(ls[0], 0, depth, Seq::empty());
        lemma_strip_lines_len(ls.drop_first(), r.1);
    }
}

proof fn lemma_file_refs_prefix(
    path: Seq<char>,
    lines: Seq<Seq<char>>,
    stripped: Seq<Seq<char>>,
    tokens: Seq<Seq<char>>,
    d: HydratedDeclaration,
    i: int,
    n: int,
)
    requires
        0 <= i <= n,
    ensures
        file_refs(path, lines, stripped, tokens, d, i).is_prefix_of(
            file_refs(path, lines, stripped, tokens, d, n),
        ),
    decreases n - i,
{
    if i < n {
        lemma_file_refs_prefix(path, lines, stripped, tokens, d, i, n - 1);
        let a = file_refs(path, lines, stripped, tokens, d, i);
        let b = file_refs(path, lines, stripped, tokens, d, n - 1);
        let c = file_refs(path, lines, stripped, tokens, d, n);
        assert(c.take(b.len() as int) =~= b);
        assert(c.take(a.len() as int) =~= b.take(a.len() as int));
    } else {
        let a = file_refs(path, lines, stripped, tokens, d, i);
        assert(a.take(a.len() as int) =~= a);
    }
}

proof fn lemma_take_absorb<A>(x: Seq<A>, y: Seq<A>, m: int)
    requires
        0 <= m,
    ensures
        first_n(first_n(x, m) + y, m) == first_n(x + y, m),
{
    if x.len() >= m {
        assert(first_n(first_n(x, m) + y, m) =~= x.take(m));
        assert(first_n(x + y, m) =~= x.take(m));
    }
}

/// Appends to `acc` the references of one file, stopping once `acc` holds
/// `max` references.
fn file_references(
    ps: &ParsedSource,
    tokens: &Vec<String>,
    d: &HydratedDeclaration,
    acc: &mut Vec<SourceReference>,
    max: usize,
)
    requires
        forall|k: int| 0 <= k < tokens@.len() ==> #[trigger] tokens@[k]@.len() > 0,
        ps.stripped@.len() == ps.lines@.len(),
        old(acc)@.len() <= max,
    ensures
        ref_views(final(acc)@) == first_n(
            ref_views(old(acc)@) + file_refs(
                ps.path@,
                views(ps.lines@),
                views(ps.stripped@),
                views(tokens@),
                *d,
                ps.lines@.len() as int,
            ),
            max as int,
        ),
        final(acc)@.len() <= max,
{
    let ghost a0 = ref_views(acc@);
    let ghost lines = views(ps.lines@);
    let ghost stripped = views(ps.stripped@);
    let ghost ts = views(tokens@);
    let n = ps.stripped.len();
    let mut i: usize = 0;
    proof {
        assert(a0 + Seq::<(Seq<char>, int, int, Seq<char>)>::empty() =~= a0);
        assert(first_n(a0, max as int) =~= a0);
    }
    while i < n && acc.len() < max
        invariant
            i <= n,
            n == ps.stripped@.len(),
            n == ps.lines@.len(),
            a0.len() <= max,
            lines == views(ps.lines@),
            stripped == views(ps.stripped@),
            ts == views(tokens@),
            forall|k: int| 0 <= k < tokens@.len() ==> #[trigger] tokens@[k]@.len() > 0,
            ref_views(acc@) == first_n(a0 + file_refs(ps.path@, lines, stripped, ts, *d, i as int), max as int),
            acc@.len() <= max,
        decreases n - i,
    {
        let line = i + 1;
        let own = match &d.source_span {
            Some(sp) => str_eq(sp.file.as_str(), ps.path.as_str()) && (line as u64) >= sp.start.line && (line
                as u64) <= sp.end.line,
            None => false,
        };
        let ghost before = file_refs(ps.path@, lines, stripped, ts, *d, i as int);
        proof {
            assert(own == in_own_span(*d, ps.path@, i + 1));
            assert(stripped[i as int] == ps.stripped@[i as int]@);
            assert(lines[i as int] == ps.lines@[i as int]@);
        }
        if !own {
            match first_token_match(ps.stripped[i].as_str(), tokens) {
                Some(col) => {
                    let text = trimmed(ps.lines[i].as_str());
                    let r = SourceReference { file: ps.path.clone(), line, column: col, text };
                    let ghost rv = r@;
                    let ghost prev = ref_views(acc@);
                    acc.push(r);
                    proof {
                        assert(line_ref(ps.path@, lines, stripped, ts, *d, i as int) == Some(rv));
                        assert(ref_views(acc@) =~= prev.push(rv));
                        assert(a0 + file_refs(ps.path@, lines, stripped, ts, *d, i + 1) =~= (a0 + before).push(rv));
                        assert(first_n(a0 + before, max as int) =~= a0 + before);
                    }
                },
                None => {
                    proof {
                        assert(line_ref(ps.path@, lines, stripped, ts, *d, i as int) is None);
                        assert(file_refs(ps.path@, lines, stripped, ts, *d, i + 1) =~= before);
                    }
                },
            }
        } else {
            proof {
                assert(file_refs(ps.path@, lines, stripped, ts, *d, i + 1) =~= before);
            }
        }
        i = i + 1;
    }
    proof {
        let cur = file_refs(ps.path@, lines, stripped, ts, *d, i as int);
        let full = file_refs(ps.path@, lines, stripped, ts, *d, n as int);
        if i < n {
            lemma_file_refs_prefix(ps.path@, lines, stripped, ts, *d, i as int, n as int);
            assert((a0 + cur).len() >= max);
            assert((a0 + full).take((a0 + cur).len() as int) =~= a0 + cur);
            assert(first_n(a0 + cur, max as int) =~= first_n(a0 + full, max as int));
        }
    }
}

/// The last readable parsed source for `path`.
fn find_parsed<'a>(parsed: &'a Vec<Option<ParsedSource>>, srcs: &Vec<LoadedSource>, path: &str) -> (r: Option<
    &'a ParsedSource,
>)
    requires
        parsed@.len() == srcs@.len(),
        forall|k: int| 0 <= k < srcs@.len() ==> parsed_matches(#[trigger] parsed@[k], srcs@[k]),
    ensures
        r matches Some(ps) ==> loaded_text(srcs@, path@) matches Some(t) && views(ps.stripped@) == strip_lines(
            lines_of(t),
            0,
        ) && views(ps.lines@) == lines_of(t),
        r is None ==> loaded_text(srcs@, path@) is None,
{
    let mut i: usize = parsed.len();
    assert(srcs@.take(srcs@.len() as int) =~= srcs@);
    while i > 0
        invariant
            i <= parsed@.len(),
            parsed@.len() == srcs@.len(),
            forall|k: int| 0 <= k < srcs@.len() ==> parsed_matches(#[trigger] parsed@[k], srcs@[k]),
            loaded_text(srcs@, path@) == loaded_text(srcs@.take(i as int), path@),
        decreases i,
    {
        proof {
            assert(srcs@.take(i as int).drop_last() =~= srcs@.take(i - 1));
            assert(srcs@.take(i as int).last() == srcs@[i - 1]);
            assert(parsed_matches(parsed@[i - 1], srcs@[i - 1]));
        }
        match &parsed[i - 1] {
            Some(ps) => {
                if str_eq(ps.path.as_str(), path) {
                    return Some(ps);
                }
            },
            None => {},
        }
        i = i - 1;
    }
    None
}

/// The sorted, duplicate-free caller references of one declaration.
fn declaration_references(
    d: &HydratedDeclaration,
    parsed: &Vec<Option<ParsedSource>>,
    srcs: &Vec<LoadedSource>,
    scope: &SourceReferenceScope,
    max: usize,
) -> (r: Vec<SourceReference>)
    requires
        parsed@.len() == srcs@.len(),
        forall|k: int| 0 <= k < srcs@.len() ==> parsed_matches(#[trigger] parsed@[k], srcs@[k]),
    ensures
        refs_sorted(ref_views(r@)),
        ref_views(r@).to_set() == decl_refs(*d, srcs@, *scope, max as int).to_set(),
{
    if !scope.includes(d.declaration_id.as_str()) || !is_workspace(d.origin.as_str()) {
        let r: Vec<SourceReference> = Vec::new();
        assert(ref_views(r@) =~= Seq::<(Seq<char>, int, int, Seq<char>)>::empty());
        assert(ref_views(r@).to_set() =~= Set::empty());
        assert(decl_refs(*d, srcs@, *scope, max as int).to_set() =~= Set::empty());
        return r;
    }
    let tokens = match reference_tokens(d) {
        Some(t) => t,
        None => {
            let r: Vec<SourceReference> = Vec::new();
            assert(ref_views(r@) =~= Seq::<(Seq<char>, int, int, Seq<char>)>::empty());
            assert(ref_views(r@).to_set() =~= Set::empty());
            assert(decl_refs(*d, srcs@, *scope, max as int).to_set() =~= Set::empty());
            return r;
        },
    };
    let ghost ts = views(tokens@);
    let mut acc: Vec<SourceReference> = Vec::new();
    let mut k: usize = 0;
    proof {
        assert(ref_views(acc@) =~= first_n(source_refs_in(srcs@.take(0), ts, *d), max as int));
    }
    while k < parsed.len()
        invariant
            k <= parsed@.len(),
            parsed@.len() == srcs@.len(),
            forall|q: int| 0 <= q < srcs@.len() ==> parsed_matches(#[trigger] parsed@[q], srcs@[q]),
            forall|q: int| 0 <= q < tokens@.len() ==> #[trigger] tokens@[q]@.len() > 0,
            ts == views(tokens@),
            ref_views(acc@) == first_n(source_refs_in(srcs@.take(k as int), ts, *d), max as int),
            acc@.len() <= max,
        decreases parsed@.len() - k,
    {
        let ghost prev = source_refs_in(srcs@.take(k as int), ts, *d);
        proof {
            assert(srcs@.take(k + 1).drop_last() =~= srcs@.take(k as int));
            assert(srcs@.take(k + 1).last() == srcs@[k as int]);
            assert(parsed_matches(parsed@[k as int], srcs@[k as int]));
        }
        match &parsed[k] {
            Some(ps) => {
                proof {
                    lemma_strip_lines_len(views(ps.lines@), 0);
                    assert(ps.stripped@.len() == views(ps.stripped@).len());
                }
                let ghost before = ref_views(acc@);
                file_references(ps, &tokens, d, &mut acc, max);
                proof {
                    let full = file_refs(ps.path@, views(ps.lines@), views(ps.stripped@), ts, *d, ps.lines@.len() as int);
                    lemma_take_absorb(prev, full, max as int);
                    assert(source_refs_in(srcs@.take(k + 1), ts, *d) == prev + full);
                }
            },
            None => {
                proof {
                    assert(source_refs_in(srcs@.take(k + 1), ts, *d) =~= prev);
                }
            },
        }
        k = k + 1;
    }
    proof {
        assert(srcs@.take(srcs@.len() as int) =~= srcs@);
    }
    sort_dedup_refs(acc)
}

/// What a declaration's source fact holds.
pub open spec fn decl_fact_ok(
    f: DeclarationSourceFact,
    d: HydratedDeclaration,
    srcs: Seq<LoadedSource>,
    scope: SourceReferenceScope,
    max: int,
) -> bool {
    &&& f.declaration_id@ == d.declaration_id@
    &&& f.qualified_name@ == d.qualified_name@
    &&& f.module@ == d.module@
    &&& opt_view(f.source_file) == match d.source_span {
        Some(sp) => Some(sp.file@),
        None => None,
    }
    &&& opt_view(f.source_fingerprint) == decl_fingerprint(d, srcs)
    &&& refs_sorted(ref_views(f.references@))
    &&& ref_views(f.references@).to_set() == decl_refs(d, srcs, scope, max).to_set()
}

/// What a file's fact holds: its imports when it was read, or that it was
/// unavailable.
pub open spec fn file_fact_ok(f: SourceFileFact, src: LoadedSource) -> bool {
    &&& f.path@ == src.path@
    &&& match src.text {
        Ok(t) => !f.unavailable && is_ordered_set(f.imports@, imports_in(strip_lines(lines_of(t@), 0)).to_set()),
        Err(_) => f.unavailable && f.imports@.len() == 0,
    }
}

/// The messages of the sources that could not be read, in order.
pub open spec fn load_errors(srcs: Seq<LoadedSource>) -> Seq<Seq<char>>
    decreases srcs.len(),
{
    if srcs.len() == 0 {
        Seq::empty()
    } else {
        load_errors(srcs.drop_last()) + match srcs.last().text {
            Err(m) => seq![m@],
            Ok(_) => Seq::empty(),
        }
    }
}

/// Collects source facts for the declarations from the workspace files the
/// caller read (normally those of `source_files`, in that order, each once):
/// one file fact per source, the read errors as diagnostics, and one
/// declaration fact per declaration.
pub fn collect_source_facts(input: &SourceFactInput, sources: &Vec<LoadedSource>) -> (r: SourceFacts)
    ensures
        r.files@.len() == sources@.len(),
        forall|k: int| 0 <= k < sources@.len() ==> file_fact_ok(#[trigger] r.files@[k], sources@[k]),
        views(r.diagnostics@) == load_errors(sources@),
        r.declarations@.len() == input.declarations@.len(),
        forall|k: int|
            0 <= k < input.declarations@.len() ==> decl_fact_ok(
                #[trigger] r.declarations@[k],
                input.declarations@[k],
                sources@,
                input.reference_scope,
                input.max_references_per_declaration as int,
            ),
{
    let mut files: Vec<SourceFileFact> = Vec::new();
    let mut diagnostics: Vec<String> = Vec::new();
    let mut parsed: Vec<Option<ParsedSource>> = Vec::new();
    let mut k: usize = 0;
    proof {
        assert(views(diagnostics@) =~= load_errors(sources@.take(0)));
    }
    while k < sources.len()
        invariant
            k <= sources@.len(),
            files@.len() == k,
            parsed@.len() == k,
            forall|q: int| 0 <= q < k ==> file_fact_ok(#[trigger] files@[q], sources@[q]),
            forall|q: int| 0 <= q < k ==> parsed_matches(#[trigger] parsed@[q], sources@[q]),
            views(diagnostics@) == load_errors(sources@.take(k as int)),
        decreases sources@.len() - k,
    {
        let src = &sources[k];
        proof {
            assert(sources@.take(k + 1).drop_last() =~= sources@.take(k as int));
            assert(sources@.take(k + 1).last() == sources@[k as int]);
        }
        match &src.text {
            Ok(text) => {
                let lines = split_lines(text.as_str());
                let stripped = strip_comments_by_line(&lines);
                let imports = parse_imports(&stripped);
                files.push(SourceFileFact { path: src.path.clone(), imports, unavailable: false });
                parsed.push(Some(ParsedSource { path: src.path.clone(), lines, stripped }));
                proof {
                    assert(load_errors(sources@.take(k + 1)) =~= load_errors(sources@.take(k as int)));
                }
            },
            Err(message) => {
                let ghost prev = views(diagnostics@);
                diagnostics.push(message.clone());
                files.push(SourceFileFact { path: src.path.clone(), imports: Vec::new(), unavailable: true });
                parsed.push(None);
                proof {
                    assert(views(diagnostics@) =~= prev.push(message@));
                    assert(load_errors(sources@.take(k + 1)) =~= prev + seq![message@]);
                }
            },
        }
        proof {
            assert(file_fact_ok(files@[k as int], sources@[k as int]));
            assert(parsed_matches(parsed@[k as int], sources@[k as int]));
        }
        k = k + 1;
    }
    proof {
        assert(sources@.take(sources@.len() as int) =~= sources@);
    }
    let mut declarations: Vec<DeclarationSourceFact> = Vec::new();
    let mut i: usize = 0;
    while i < input.declarations.len()
        invariant
            i <= input.declarations@.len(),
            declarations@.len() == i,
            parsed@.len() == sources@.len(),
            forall|q: int| 0 <= q < sources@.len() ==> parsed_matches(#[trigger] parsed@[q], sources@[q]),
            forall|q: int|
                0 <= q < i ==> decl_fact_ok(
                    #[trigger] declarations@[q],
                    input.declarations@[q],
                    sources@,
                    input.reference_scope,
                    input.max_references_per_declaration as int,
                ),
        decreases input.declarations@.len() - i,
    {
        let d = &input.declarations[i];
        let source_file = match &d.source_span {
            Some(sp) => Some(sp.file.clone()),
            None => None,
        };
        let source_fingerprint = match &d.source_span {
            Some(sp) => match find_parsed(&parsed, sources, sp.file.as_str()) {
                Some(ps) => fingerprint_for(&ps.stripped, d.qualified_name.as_str(), sp.start.line, sp.end.line),
                None => None,
            },
            None => None,
        };
        let references = declaration_references(
            d,
            &parsed,
            sources,
            &input.reference_scope,
            input.max_references_per_declaration,
        );
        declarations.push(
            DeclarationSourceFact {
                declaration_id: d.declaration_id.clone(),
                qualified_name: d.qualified_name.clone(),
                module: d.module.clone(),
                source_file,
                source_fingerprint,
                references,
            },
        );
        i = i + 1;
    }
    SourceFacts { declarations, files, diagnostics }
}

proof fn lemma_decl_fact_member(v: Seq<DeclarationSourceFact>, id: Seq<char>)
    ensures
        decl_fact(v, id) matches Some(f) ==> exists|k: int| 0 <= k < v.len() && v[k] == f && f.declaration_id@ == id,
    decreases v.len(),
{
    if v.len() > 0 && v.last().declaration_id@ != id {
        lemma_decl_fact_member(v.drop_last(), id);
        if decl_fact(v.drop_last(), id) is Some {
            let k = choose|k: int| 0 <= k < v.drop_last().len() && v.drop_last()[k] == decl_fact(v.drop_last(), id)->Some_0;
            assert(v[k] == v.drop_last()[k]);
        }
    } else if v.len() > 0 {
        assert(v[v.len() - 1] == v.last());
    }
}

proof fn lemma_sorted_refs_len(s: Seq<(Seq<char>, int, int, Seq<char>)>)
    requires
        refs_sorted(s),
    ensures
        s.to_set().len() == s.len(),
{
    assert forall|i: int, j: int| 0 <= i < s.len() && 0 <= j < s.len() && i != j implies s[i] != s[j] by {
        if i < j {
            lemma_ref_trichotomy(s[i], s[j]);
        } else {
            lemma_ref_trichotomy(s[j], s[i]);
        }
    }
    s.unique_seq_to_set();
}

/// In collected source facts a declaration's caller count is at most the
/// reference limit, and 0 for a declaration outside the reference scope.
pub proof fn lemma_caller_count_bounded(
    facts: SourceFacts,
    input: SourceFactInput,
    sources: Seq<LoadedSource>,
    id: Seq<char>,
)
    requires
        facts.declarations@.len() == input.declarations@.len(),
        forall|k: int|
            0 <= k < input.declarations@.len() ==> decl_fact_ok(
                #[trigger] facts.declarations@[k],
                input.declarations@[k],
                sources,
                input.reference_scope,
                input.max_references_per_declaration as int,
            ),
    ensures
        decl_fact(facts.declarations@, id) matches Some(f) ==> f.references@.len()
            <= input.max_references_per_declaration && (!scope_includes(input.reference_scope, id)
            ==> f.references@.len() == 0),
{
    let v = facts.declarations@;
    lemma_decl_fact_member(v, id);
    if decl_fact(v, id) is Some {
        let f = decl_fact(v, id)->Some_0;
        let k = choose|k: int| 0 <= k < v.len() && v[k] == f && f.declaration_id@ == id;
        let d = input.declarations@[k];
        assert(decl_fact_ok(v[k], d, sources, input.reference_scope, input.max_references_per_declaration as int));
        let refs = decl_refs(d, sources, input.reference_scope, input.max_references_per_declaration as int);
        lemma_sorted_refs_len(ref_views(f.references@));
        refs.lemma_cardinality_of_set();
        assert(refs.len() <= input.max_references_per_declaration);
        if !scope_includes(input.reference_scope, id) {
            assert(refs =~= Seq::<(Seq<char>, int, int, Seq<char>)>::empty());
            assert(refs.to_set() =~= Set::empty());
        }
    }
}

} // verus!
