use lean_dup::worker::{format_worker_diagnostics, modules_are_uniform, ModuleDescriptor, WorkerDiagnostic, WorkerError, WorkerVersion};

fn module(name: &str, origin: &str, source_root: Option<&str>) -> ModuleDescriptor {
    ModuleDescriptor {
        module: name.to_owned(),
        origin: origin.to_owned(),
        source_root: source_root.map(str::to_owned),
    }
}

fn version(capabilities: Vec<&str>) -> WorkerVersion {
    WorkerVersion {
        protocol_version: "lean-dup.worker.v1".to_owned(),
        worker_version: "0.1.0".to_owned(),
        lean_version: None,
        extract_version: "e".to_owned(),
        features_version: "f".to_owned(),
        probe_version: "p".to_owned(),
        supported_commands: vec!["version".to_owned()],
        supported_capabilities: capabilities.into_iter().map(str::to_owned).collect(),
    }
}

#[test]
fn unknown_required_capability_is_rejected_before_command_use() {
    let required = vec!["future-capability".to_owned()];
    assert!(matches!(
        version(vec![]).require_capabilities(&required),
        Err(WorkerError::Protocol { .. })
    ));
}

#[test]
fn missing_capabilities_are_named_in_order() {
    let required = vec!["a".to_owned(), "b".to_owned(), "c".to_owned()];
    match version(vec!["b"]).require_capabilities(&required) {
        Err(WorkerError::Protocol { message }) => {
            assert_eq!(message, "worker is missing required capabilities: a, c")
        }
        other => panic!("unexpected {:?}", other),
    }
    assert!(version(vec!["a", "b", "c", "d"]).require_capabilities(&required).is_ok());
}

#[test]
fn uniform_modules_hoist_constants_and_stream_names() {
    let modules = vec![
        module("Mathlib.A", "mathlib", Some("/pkgs/mathlib")),
        module("Mathlib.B", "mathlib", Some("/pkgs/mathlib")),
    ];
    assert!(modules_are_uniform(&modules));
}

#[test]
fn workspace_modules_without_source_root_omit_the_hoisted_key() {
    let modules = vec![module("Tiny.Basic", "workspace", None)];
    assert!(modules_are_uniform(&modules));
}

#[test]
fn mixed_descriptors_fall_back_to_per_object_entries() {
    let modules = vec![
        module("A", "mathlib", Some("/pkgs/mathlib")),
        module("B", "workspace", None),
    ];
    assert!(!modules_are_uniform(&modules));
    assert!(!modules_are_uniform(&Vec::new()));
}

#[test]
fn diagnostics_are_joined_for_error_messages() {
    assert_eq!(format_worker_diagnostics(&vec![]), "no structured diagnostic payload");
    let diagnostics = vec![
        WorkerDiagnostic {
            code: "E1".to_owned(),
            message: "boom".to_owned(),
            fatal: true,
            details: None,
        },
        WorkerDiagnostic {
            code: "W2".to_owned(),
            message: "careful".to_owned(),
            fatal: false,
            details: Some("more".to_owned()),
        },
    ];
    assert_eq!(format_worker_diagnostics(&diagnostics), "E1 fatal: boom; W2: careful");
}
