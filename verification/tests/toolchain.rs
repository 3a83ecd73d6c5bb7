use lean_dup::toolchain::{
    install_cmd, install_dir_with, install_root_in, lean_header_digest, resolve_in, resolve_installed_worker,
    worker_is_current, ProvisionError, SmokeOutcome, ToolchainError, ToolchainId, WorkerSidecar,
    PINNED_TOOLCHAIN, WORKER_FILE_NAME,
};

fn sidecar(id: &ToolchainId, digest: &str, sysroot: &str, smoke: SmokeOutcome) -> WorkerSidecar {
    WorkerSidecar::new(
        id,
        digest.to_owned(),
        "4.32.0".to_owned(),
        "0.1.0".to_owned(),
        sysroot.to_owned(),
        sysroot.to_owned() + "/capability-artifacts.json",
        sysroot.to_owned() + "/LeanDup.dylib",
        smoke,
    )
}

#[test]
fn parse_accepts_elan_prefix_and_bare_short_form() {
    assert_eq!(
        ToolchainId::parse("leanprover/lean4:v4.32.0-rc1").unwrap().as_str(),
        "v4.32.0-rc1"
    );
    assert_eq!(ToolchainId::parse("  v4.31.0\n").unwrap().as_str(), "v4.31.0");
}

#[test]
fn parse_rejects_garbage() {
    assert!(matches!(ToolchainId::parse(""), Err(ToolchainError::Unparseable(_))));
    assert!(matches!(
        ToolchainId::parse("acme/lean5:v6"),
        Err(ToolchainError::Unparseable(_))
    ));
}

#[test]
fn pinned_matches_the_constant() {
    assert_eq!(ToolchainId::pinned().as_str(), "v4.32.0-rc1");
    assert_eq!(ToolchainId::pinned().elan_label(), PINNED_TOOLCHAIN);
}

#[test]
fn from_lake_root_reads_workspace_pin() {
    let id = ToolchainId::for_workspace(Some("leanprover/lean4:v4.31.0\n"));
    assert_eq!(id.as_str(), "v4.31.0");
}

#[test]
fn sidecar_round_trips() {
    let id = ToolchainId::pinned();
    let written = sidecar(&id, "abc123", "/tmp/sysroot", SmokeOutcome::Passed);
    let loaded = WorkerSidecar::from_record(
        written.toolchain().to_owned(),
        written.header_digest().to_owned(),
        written.lean_version().to_owned(),
        written.host_version().to_owned(),
        written.lean_sysroot().to_owned(),
        written.capability_manifest().to_owned(),
        written.capability_dylib().to_owned(),
        written.smoke().cloned(),
    );
    assert!(loaded.header_matches("abc123"));
    assert!(!loaded.header_matches("other"));
    assert_eq!(loaded.smoke(), Some(&SmokeOutcome::Passed));
    assert_eq!(loaded.host_version(), "0.1.0");
}

#[test]
fn resolve_missing_sidecar_is_not_installed() {
    let id = ToolchainId::pinned();
    let err = resolve_in("/tmp/workers", &id, None, false, None).unwrap_err();
    let ProvisionError::NotInstalled { install_cmd, .. } = err else {
        panic!("expected NotInstalled, got {:?}", err);
    };
    assert!(install_cmd.contains("install-worker --toolchain v4.32.0-rc1"));
}

#[test]
fn resolve_failed_smoke_is_unusable() {
    let id = ToolchainId::pinned();
    let recorded = sidecar(
        &id,
        "digest",
        "/tmp/workers",
        SmokeOutcome::Failed {
            detail: "SIGSEGV".to_owned(),
        },
    );
    // No readable lean.h under the recorded sysroot: the drift check is
    // skipped and the smoke verdict decides.
    let err = resolve_in("/tmp/workers", &id, Some(&recorded), true, None).unwrap_err();
    let ProvisionError::Unusable { detail, .. } = err else {
        panic!("expected Unusable, got {:?}", err);
    };
    assert!(detail.contains("SIGSEGV"));
}

#[test]
fn resolve_ready_returns_artifacts() {
    let id = ToolchainId::pinned();
    let recorded = sidecar(&id, "digest", "/tmp/workers", SmokeOutcome::Passed);
    let installed = resolve_in("/tmp/workers", &id, Some(&recorded), true, None).expect("resolves");
    assert_eq!(installed.worker_child, "/tmp/workers/".to_owned() + WORKER_FILE_NAME);
    assert_eq!(installed.capability_manifest, "/tmp/workers/capability-artifacts.json");
    assert_eq!(installed.lean_sysroot, "/tmp/workers");
}

#[test]
fn header_drift_makes_an_install_stale() {
    let id = ToolchainId::pinned();
    let recorded = sidecar(&id, "old-digest", "/tmp/workers", SmokeOutcome::Passed);
    let err = resolve_in("/tmp/workers", &id, Some(&recorded), true, Some("new-digest".to_owned()))
        .unwrap_err();
    assert!(matches!(err, ProvisionError::Stale { .. }));
    let ok = resolve_in("/tmp/workers", &id, Some(&recorded), true, Some("old-digest".to_owned()));
    assert!(ok.is_ok());
}

#[test]
fn missing_binary_is_not_installed() {
    let id = ToolchainId::pinned();
    let recorded = sidecar(&id, "digest", "/tmp/workers", SmokeOutcome::Passed);
    let err = resolve_in("/tmp/workers", &id, Some(&recorded), false, None).unwrap_err();
    assert!(matches!(err, ProvisionError::NotInstalled { .. }));
}

#[test]
fn workspace_pin_falls_back_to_the_development_pin() {
    assert_eq!(ToolchainId::for_workspace(None).as_str(), "v4.32.0-rc1");
    assert_eq!(ToolchainId::for_workspace(Some("acme/lean5:v6")).as_str(), "v4.32.0-rc1");
    let err = resolve_installed_worker(Some("v4.31.0"), None, "/w", None, false, None).unwrap_err();
    let ProvisionError::NotInstalled { toolchain, install_cmd } = err else {
        panic!("expected NotInstalled");
    };
    assert_eq!(toolchain.as_str(), "v4.31.0");
    assert_eq!(install_cmd, "lean-dup install-worker --toolchain v4.31.0");
}

#[test]
fn elan_and_install_paths() {
    let id = ToolchainId::pinned();
    assert_eq!(
        id.elan_dir_in("/home/u"),
        "/home/u/.elan/toolchains/leanprover--lean4---v4.32.0-rc1"
    );
    match id.elan_dir_for_home(None) {
        Err(ToolchainError::ElanMissing { elan_dir, .. }) => {
            assert_eq!(elan_dir, "~/.elan/toolchains/leanprover--lean4---v4.32.0-rc1")
        }
        other => panic!("unexpected {:?}", other),
    }
    assert_eq!(install_root_in(Some("/data".to_owned())), "/data/lean-dup/workers");
    assert_eq!(install_root_in(None), "./lean-dup/workers");
    assert_eq!(install_dir_with(&id, None, "/data/lean-dup/workers"), "/data/lean-dup/workers/v4.32.0-rc1");
    assert_eq!(install_dir_with(&id, Some("/ci/worker".to_owned()), "/data"), "/ci/worker");
    let missing = id.elan_dir(|_: &String| false);
    assert!(matches!(missing, Err(ToolchainError::ElanMissing { .. })));
}

#[test]
fn current_worker_needs_passed_smoke_and_matching_header() {
    let id = ToolchainId::pinned();
    let passed = sidecar(&id, "d", "/s", SmokeOutcome::Passed);
    assert!(worker_is_current(Some(&passed), true, Some("d".to_owned())));
    assert!(!worker_is_current(Some(&passed), true, Some("e".to_owned())));
    assert!(!worker_is_current(Some(&passed), true, None));
    assert!(!worker_is_current(Some(&passed), false, Some("d".to_owned())));
    assert!(!worker_is_current(None, true, Some("d".to_owned())));
    let failed = sidecar(&id, "d", "/s", SmokeOutcome::Failed { detail: "x".to_owned() });
    assert!(!worker_is_current(Some(&failed), true, Some("d".to_owned())));
}

#[test]
fn header_digest_is_lowercase_hex_sha256() {
    assert_eq!(
        lean_header_digest(b"abc"),
        "ba7816bf8f01cfea414140de5dae2223b00361a396177a9cb410ff61f20015ad"
    );
}

#[test]
fn resolution_reads_the_toolchain_directory_under_the_install_root() {
    let id = ToolchainId::parse("v4.31.0").unwrap();
    let recorded = sidecar(&id, "digest", "/sys", SmokeOutcome::Passed);
    let worker = resolve_installed_worker(Some("v4.31.0"), None, "/root", Some(&recorded), true, None).unwrap();
    assert_eq!(worker.worker_child, "/root/v4.31.0/lean-dup-worker-child");
    let worker =
        resolve_installed_worker(Some("v4.31.0"), Some("/dev".to_owned()), "/root", Some(&recorded), true, None).unwrap();
    assert_eq!(worker.worker_child, "/dev/lean-dup-worker-child");
}

#[test]
fn every_provision_error_message_names_the_install_command() {
    let err = resolve_installed_worker(None, None, "/root", None, false, None).unwrap_err();
    assert_eq!(
        err.message(),
        "no lean-dup worker is installed for toolchain v4.32.0-rc1; run: lean-dup install-worker --toolchain v4.32.0-rc1"
    );
    let id = ToolchainId::pinned();
    let stale = ProvisionError::Stale { toolchain: id.clone(), install_cmd: install_cmd(&id) };
    assert!(stale.message().contains("is stale (its lean.h changed since it was built); rebuild it: lean-dup install-worker --toolchain v4.32.0-rc1"));
    let unusable = ProvisionError::Unusable { toolchain: id.clone(), detail: "crash".to_owned(), install_cmd: install_cmd(&id) };
    assert_eq!(
        unusable.message(),
        "the lean-dup worker for toolchain v4.32.0-rc1 failed its smoke test (crash); rebuild it: lean-dup install-worker --toolchain v4.32.0-rc1"
    );
}

#[test]
fn toolchain_error_messages() {
    assert_eq!(
        ToolchainError::Unparseable("a \"b\"".to_owned()).message(),
        "could not parse lean-toolchain string: \"a \\\"b\\\"\""
    );
    assert_eq!(ToolchainError::FileMissing("/w/lean-toolchain".to_owned()).message(), "lean-toolchain file not found at /w/lean-toolchain");
    let id = ToolchainId::pinned();
    let err = ToolchainError::ElanMissing { toolchain: id, elan_dir: "/e".to_owned() };
    assert_eq!(
        err.message(),
        "elan toolchain v4.32.0-rc1 is not installed (expected /e); install it with: elan toolchain install leanprover/lean4:v4.32.0-rc1"
    );
}
