//! Which per-workspace snapshot files a cleanup sweep keeps and which it
//! removes.
//!
//! The caller lists the `last-snapshot` and `last-audit-detail` directories
//! and removes the files this module selects; the sweep decides from the
//! file names alone and tallies the sizes.
use vstd::prelude::*;

use crate::sets::{contains_str, views};

verus! {

/// Subdirectory of the latest audit snapshots.
pub const KIND_LAST_SNAPSHOT: &'static str = "last-snapshot";

/// Subdirectory of the latest audit details.
pub const KIND_LAST_AUDIT_DETAIL: &'static str = "last-audit-detail";

/// Whether a cleanup removes files or only reports what it would remove.
#[derive(Debug, Clone, Copy, PartialEq, Eq, Structural)]
pub struct CleanupPolicy {
    pub execute: bool,
}

/// One file found in a snapshot directory: its path, its name without the
/// extension and its extension (each `None` when not valid UTF-8 or
/// absent), and its size on disk (0 when unknown).
#[derive(Debug, Clone)]
pub struct DirectoryFile {
    pub path: String,
    pub stem: Option<String>,
    pub extension: Option<String>,
    pub disk_bytes: u64,
}

/// A snapshot file the sweep kept or removes.
#[derive(Debug, Clone)]
pub struct WorkspaceFileCleanupEntry {
    /// Subdirectory the file lives in.
    pub kind: &'static str,
    /// The workspace fingerprint the file belongs to (its file stem).
    pub fingerprint: String,
    pub path: String,
    pub disk_bytes: u64,
}

/// What a sweep kept and removed, with the sizes involved.
#[derive(Debug, Clone)]
pub struct WorkspaceFileCleanupReport {
    pub removable_count: usize,
    pub protected_count: usize,
    pub bytes_to_remove: u64,
    pub bytes_removed: u64,
    pub removed: Vec<WorkspaceFileCleanupEntry>,
    pub protected: Vec<WorkspaceFileCleanupEntry>,
}

/// Whether a file is a per-workspace snapshot (a `.json` file with a
/// readable stem).
pub open spec fn snapshot_file(f: DirectoryFile) -> bool {
    &&& f.stem is Some
    &&& f.extension matches Some(e) && e@ == "json"@
}

/// Whether a snapshot file belongs to a protected fingerprint.
pub open spec fn protected_file(f: DirectoryFile, protected: Seq<Seq<char>>) -> bool {
    match f.stem {
        Some(s) => protected.contains(s@),
        None => false,
    }
}

/// Kind, fingerprint, path and size of an entry.
pub open spec fn entry_view(e: WorkspaceFileCleanupEntry) -> (Seq<char>, Seq<char>, Seq<char>, u64) {
    (e.kind@, e.fingerprint@, e.path@, e.disk_bytes)
}

/// The entry a snapshot file of kind `kind` becomes.
pub open spec fn file_entry(kind: Seq<char>, f: DirectoryFile) -> (Seq<char>, Seq<char>, Seq<char>, u64) {
    (
        kind,
        match f.stem {
            Some(s) => s@,
            None => Seq::empty(),
        },
        f.path@,
        f.disk_bytes,
    )
}

/// The snapshot files of `files` that the sweep keeps (`keep`) or removes
/// (`!keep`), as entries of kind `kind`, in order.
pub open spec fn swept(
    kind: Seq<char>,
    files: Seq<DirectoryFile>,
    protected: Seq<Seq<char>>,
    keep: bool,
) -> Seq<(Seq<char>, Seq<char>, Seq<char>, u64)>
    decreases files.len(),
{
    if files.len() == 0 {
        Seq::empty()
    } else {
        let f = files.last();
        let rest = swept(kind, files.drop_last(), protected, keep);
        if snapshot_file(f) && protected_file(f, protected) == keep {
            rest.push(file_entry(kind, f))
        } else {
            rest
        }
    }
}

/// Total size of a list of entries.
pub open spec fn total_bytes(es: Seq<(Seq<char>, Seq<char>, Seq<char>, u64)>) -> nat
    decreases es.len(),
{
    if es.len() == 0 {
        0
    } else {
        total_bytes(es.drop_last()) + es.last().3 as nat
    }
}

/// What one directory sweep found.
#[derive(Debug)]
pub struct DirectorySweep {
    pub removed: Vec<WorkspaceFileCleanupEntry>,
    pub protected: Vec<WorkspaceFileCleanupEntry>,
    pub bytes_to_remove: u64,
}

/// Sorts the files of one snapshot directory of kind `kind` into those
/// kept (their fingerprint is protected) and those removed, skipping files
/// that are not snapshots; the removed files' sizes must fit a `u64` total.
pub fn sweep_directory(kind: &'static str, files: &Vec<DirectoryFile>, protected: &Vec<String>) -> (r:
    DirectorySweep)
    requires
        total_bytes(swept(kind@, files@, views(protected@), false)) <= u64::MAX,
    ensures
        r.removed@.map_values(|e: WorkspaceFileCleanupEntry| entry_view(e)) == swept(
            kind@,
            files@,
            views(protected@),
            false,
        ),
        r.protected@.map_values(|e: WorkspaceFileCleanupEntry| entry_view(e)) == swept(
            kind@,
            files@,
            views(protected@),
            true,
        ),
        r.bytes_to_remove == total_bytes(swept(kind@, files@, views(protected@), false)),
{
    let ghost ps = views(protected@);
    let mut removed: Vec<WorkspaceFileCleanupEntry> = Vec::new();
    let mut kept: Vec<WorkspaceFileCleanupEntry> = Vec::new();
    let mut bytes: u64 = 0;
    let mut i: usize = 0;
    while i < files.len()
        invariant
            i <= files@.len(),
            ps == views(protected@),
            total_bytes(swept(kind@, files@, ps, false)) <= u64::MAX,
            removed@.map_values(|e: WorkspaceFileCleanupEntry| entry_view(e)) == swept(
                kind@,
                files@.take(i as int),
                ps,
                false,
            ),
            kept@.map_values(|e: WorkspaceFileCleanupEntry| entry_view(e)) == swept(
                kind@,
                files@.take(i as int),
                ps,
                true,
            ),
            bytes == total_bytes(swept(kind@, files@.take(i as int), ps, false)),
        decreases files@.len() - i,
    {
        let f = &files[i];
        proof {
            assert(files@.take(i + 1).drop_last() =~= files@.take(i as int));
            assert(files@.take(i + 1).last() == *f);
            lemma_swept_prefix_bytes(kind@, files@, ps, i + 1);
            lemma_total_push(swept(kind@, files@.take(i as int), ps, false), file_entry(kind@, *f));
        }
        let is_json = match &f.extension {
            Some(e) => crate::text::str_eq(e.as_str(), "json"),
            None => false,
        };
        match &f.stem {
            Some(stem) => {
                if is_json {
                    let entry = WorkspaceFileCleanupEntry {
                        kind,
                        fingerprint: stem.clone(),
                        path: f.path.clone(),
                        disk_bytes: f.disk_bytes,
                    };
                    if contains_str(protected, stem.as_str()) {
                        kept.push(entry);
                        proof {
                            assert(kept@.map_values(|e: WorkspaceFileCleanupEntry| entry_view(e))
                                =~= swept(kind@, files@.take(i + 1), ps, true));
                            assert(removed@.map_values(|e: WorkspaceFileCleanupEntry| entry_view(e))
                                =~= swept(kind@, files@.take(i + 1), ps, false));
                        }
                    } else {
                        bytes = bytes + f.disk_bytes;
                        removed.push(entry);
                        proof {
                            assert(kept@.map_values(|e: WorkspaceFileCleanupEntry| entry_view(e))
                                =~= swept(kind@, files@.take(i + 1), ps, true));
                            assert(removed@.map_values(|e: WorkspaceFileCleanupEntry| entry_view(e))
                                =~= swept(kind@, files@.take(i + 1), ps, false));
                        }
                    }
                }
            },
            None => {},
        }
        i = i + 1;
    }
    assert(files@.take(i as int) =~= files@);
    DirectorySweep { removed, protected: kept, bytes_to_remove: bytes }
}

proof fn lemma_total_push(es: Seq<(Seq<char>, Seq<char>, Seq<char>, u64)>, e: (Seq<char>, Seq<char>, Seq<char>, u64))
    ensures
        total_bytes(es.push(e)) == total_bytes(es) + e.3,
{
    assert(es.push(e).drop_last() =~= es);
}

/// The removed bytes of a prefix never exceed those of the whole listing.
proof fn lemma_swept_prefix_bytes(kind: Seq<char>, files: Seq<DirectoryFile>, protected: Seq<Seq<char>>, n: int)
    requires
        0 <= n <= files.len(),
    ensures
        total_bytes(swept(kind, files.take(n), protected, false)) <= total_bytes(
            swept(kind, files, protected, false),
        ),
    decreases files.len() - n,
{
    if n < files.len() {
        lemma_swept_prefix_bytes(kind, files, protected, n + 1);
        assert(files.take(n + 1).drop_last() =~= files.take(n));
        let f = files.take(n + 1).last();
        lemma_total_push(swept(kind, files.take(n), protected, false), file_entry(kind, f));
    } else {
        assert(files.take(n) =~= files);
    }
}

/// The report of a cleanup over the snapshot and detail directories:
/// everything either sweep removes and keeps, the bytes to remove, and
/// those removed when the policy executes (none on a dry run).
pub fn cleanup_report(snapshot: DirectorySweep, detail: DirectorySweep, policy: CleanupPolicy) -> (r:
    WorkspaceFileCleanupReport)
    requires
        snapshot.bytes_to_remove + detail.bytes_to_remove <= u64::MAX,
    ensures
        r.removed@ == snapshot.removed@ + detail.removed@,
        r.protected@ == snapshot.protected@ + detail.protected@,
        r.removable_count == r.removed@.len(),
        r.protected_count == r.protected@.len(),
        r.bytes_to_remove == snapshot.bytes_to_remove + detail.bytes_to_remove,
        r.bytes_removed == (if policy.execute {
            r.bytes_to_remove
        } else {
            0
        }),
{
    let bytes_to_remove = snapshot.bytes_to_remove + detail.bytes_to_remove;
    let mut removed = snapshot.removed;
    let mut more_removed = detail.removed;
    removed.append(&mut more_removed);
    let mut protected = snapshot.protected;
    let mut more_protected = detail.protected;
    protected.append(&mut more_protected);
    WorkspaceFileCleanupReport {
        removable_count: removed.len(),
        protected_count: protected.len(),
        bytes_to_remove,
        bytes_removed: if policy.execute {
            bytes_to_remove
        } else {
            0
        },
        removed,
        protected,
    }
}

} // verus!
