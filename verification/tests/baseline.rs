use lean_dup::baseline::{baseline_path, diff, safe_name, BaselineGroup, BaselineSnapshot, BASELINE_SCHEMA_VERSION};

fn group(id: &str, digest: &str) -> BaselineGroup {
    BaselineGroup {
        id: id.to_owned(),
        relation: "exact-statement".to_owned(),
        review_priority: "high".to_owned(),
        recommended_action: "local-alias".to_owned(),
        member_ids: vec!["a".to_owned(), "b".to_owned()],
        evidence_summary: vec!["statement-fingerprint".to_owned()],
        evidence_digest: digest.to_owned(),
    }
}

fn snapshot(groups: Vec<BaselineGroup>) -> BaselineSnapshot {
    BaselineSnapshot {
        schema_version: BASELINE_SCHEMA_VERSION.to_owned(),
        workspace_fingerprint: "ws".to_owned(),
        groups,
    }
}

#[test]
fn diff_reports_appeared_disappeared_and_changed_groups() {
    let before = snapshot(vec![group("g1", "d1"), group("g2", "d2"), group("g3", "d3")]);
    let after = snapshot(vec![group("g2", "d2"), group("g3", "changed"), group("g4", "d4")]);
    let d = diff("main".to_owned(), "/c/baselines/main.json".to_owned(), before, after);
    assert_eq!(d.baseline, "main");
    assert_eq!(d.appeared.iter().map(|g| g.id.as_str()).collect::<Vec<_>>(), vec!["g4"]);
    assert_eq!(d.disappeared.iter().map(|g| g.id.as_str()).collect::<Vec<_>>(), vec!["g1"]);
    assert_eq!(d.changed.len(), 1);
    assert_eq!(d.changed[0].id, "g3");
    assert_eq!(d.changed[0].before.evidence_digest, "d3");
    assert_eq!(d.changed[0].after.evidence_digest, "changed");
}

#[test]
fn diff_of_identical_snapshots_is_empty() {
    let d = diff(
        "same".to_owned(),
        "p".to_owned(),
        snapshot(vec![group("g1", "d1"), group("g2", "d2")]),
        snapshot(vec![group("g1", "d1"), group("g2", "d2")]),
    );
    assert!(d.appeared.is_empty() && d.disappeared.is_empty() && d.changed.is_empty());
}

#[test]
fn baseline_names_are_validated_and_trimmed() {
    assert_eq!(safe_name("  main-1.x_y ").unwrap(), "main-1.x_y");
    for bad in ["", "  ", ".", "..", "a/b", "ünïcode", "has space"] {
        let err = safe_name(bad).unwrap_err();
        assert_eq!(err.message, "invalid baseline name: ".to_owned() + bad);
    }
    assert_eq!(baseline_path("/cache", " main ").unwrap(), "/cache/baselines/main.json");
    assert!(baseline_path("/cache", "../x").is_err());
}

#[test]
fn diff_against_a_copy_and_swapped_runs() {
    let a = snapshot(vec![group("g1", "d1"), group("g2", "d2")]);
    let b = snapshot(vec![group("g2", "d3"), group("g3", "d4")]);
    let same = diff("n".to_owned(), "p".to_owned(), a.copy(), a.clone());
    assert!(same.appeared.is_empty() && same.disappeared.is_empty() && same.changed.is_empty());
    let forward = diff("n".to_owned(), "p".to_owned(), a.clone(), b.clone());
    let backward = diff("n".to_owned(), "p".to_owned(), b, a);
    assert_eq!(forward.appeared, backward.disappeared);
    assert_eq!(forward.disappeared, backward.appeared);
    assert_eq!(forward.changed.len(), 1);
    assert_eq!(forward.changed[0].before, backward.changed[0].after);
    assert_eq!(forward.changed[0].after, backward.changed[0].before);
}
