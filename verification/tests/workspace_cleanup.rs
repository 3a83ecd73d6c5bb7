use lean_dup::workspace_cleanup::{
    cleanup_report, sweep_directory, CleanupPolicy, DirectoryFile, KIND_LAST_AUDIT_DETAIL, KIND_LAST_SNAPSHOT,
};

fn file(dir: &str, stem: &str, ext: &str, bytes: u64) -> DirectoryFile {
    DirectoryFile {
        path: dir.to_owned() + "/" + stem + "." + ext,
        stem: Some(stem.to_owned()),
        extension: Some(ext.to_owned()),
        disk_bytes: bytes,
    }
}

fn protected(names: &[&str]) -> Vec<String> {
    names.iter().map(|s| s.to_string()).collect()
}

#[test]
fn keeps_protected_fingerprints_and_removes_others() {
    let snap = "/cache/last-snapshot";
    let detail = "/cache/last-audit-detail";
    let snap_files = ["alive", "stale-1", "stale-2"].iter().map(|fp| file(snap, fp, "json", 2)).collect::<Vec<_>>();
    let detail_files = ["alive", "stale-1", "stale-2"].iter().map(|fp| file(detail, fp, "json", 2)).collect::<Vec<_>>();
    let keep = protected(&["alive"]);

    let report = cleanup_report(
        sweep_directory(KIND_LAST_SNAPSHOT, &snap_files, &keep),
        sweep_directory(KIND_LAST_AUDIT_DETAIL, &detail_files, &keep),
        CleanupPolicy { execute: true },
    );

    assert_eq!(report.protected_count, 2);
    assert_eq!(report.removable_count, 4);
    assert!(report.bytes_removed > 0);
    assert_eq!(report.bytes_removed, report.bytes_to_remove);
    assert!(report.protected.iter().all(|e| e.fingerprint == "alive"));
    assert!(report.removed.iter().any(|e| e.path == "/cache/last-snapshot/stale-1.json"));
    assert!(report.removed.iter().any(|e| e.path == "/cache/last-audit-detail/stale-2.json"));
    assert!(report.removed.iter().all(|e| e.fingerprint != "alive"));
}

#[test]
fn dry_run_reports_without_removing() {
    let files = vec![file("/cache/last-snapshot", "stale", "json", 2)];
    let report = cleanup_report(
        sweep_directory(KIND_LAST_SNAPSHOT, &files, &Vec::new()),
        sweep_directory(KIND_LAST_AUDIT_DETAIL, &Vec::new(), &Vec::new()),
        CleanupPolicy { execute: false },
    );

    assert_eq!(report.removable_count, 1);
    assert_eq!(report.bytes_removed, 0);
    assert!(report.bytes_to_remove > 0);
}

#[test]
fn missing_directories_are_not_an_error() {
    let keep = protected(&["any"]);
    let report = cleanup_report(
        sweep_directory(KIND_LAST_SNAPSHOT, &Vec::new(), &keep),
        sweep_directory(KIND_LAST_AUDIT_DETAIL, &Vec::new(), &keep),
        CleanupPolicy { execute: true },
    );
    assert_eq!(report.removable_count, 0);
    assert_eq!(report.protected_count, 0);
}

#[test]
fn non_snapshot_files_are_left_alone() {
    let files = vec![
        file("/c/last-snapshot", "notes", "txt", 9),
        DirectoryFile {
            path: "/c/last-snapshot/odd".to_owned(),
            stem: None,
            extension: Some("json".to_owned()),
            disk_bytes: 9,
        },
        file("/c/last-snapshot", "stale", "json", 3),
    ];
    let sweep = sweep_directory(KIND_LAST_SNAPSHOT, &files, &Vec::new());
    assert_eq!(sweep.removed.len(), 1);
    assert_eq!(sweep.bytes_to_remove, 3);
    assert_eq!(sweep.removed[0].kind, "last-snapshot");
}
