use mod_manager::conflict::{check_conflict, ConflictIdentity};
use mod_manager::entry::{PackageEntry, RemoteVersionInfo};
use mod_manager::version::{cmp_versions, reconcile};

fn entry(id: &str, version: &str) -> PackageEntry {
    PackageEntry {
        id: id.to_string(),
        name: id.to_string(),
        author: String::new(),
        local_version: version.to_string(),
        game_version: "0.95a".to_string(),
        description: String::new(),
        enabled: false,
        path: format!("mods/{}", id),
        remote_version: None,
        version_checker_url: None,
        highlighted: false,
    }
}

#[test]
fn id_collision_wins_over_path_collision() {
    let known = vec!["modA".to_string(), "modB".to_string()];
    let r = check_conflict(&"modA".to_string(), &known, &"mods/modA".to_string(), true);
    match r {
        Some(ConflictIdentity::ById(id)) => assert_eq!(id, "modA"),
        other => panic!("expected ById, got {:?}", other.is_some()),
    }
}

#[test]
fn path_collision_without_id_collision_is_by_path() {
    let known = vec!["somethingElse".to_string()];
    let r = check_conflict(&"modA".to_string(), &known, &"mods/modA".to_string(), true);
    match r {
        Some(ConflictIdentity::ByPath(p)) => assert_eq!(p, "mods/modA"),
        _ => panic!("expected ByPath"),
    }
}

#[test]
fn no_collision_gives_none() {
    let known = vec!["other".to_string()];
    let r = check_conflict(&"modA".to_string(), &known, &"mods/modA".to_string(), false);
    assert!(r.is_none());
}

#[test]
fn version_order_is_componentwise_numeric() {
    assert!(cmp_versions("1.1", "1.0") > 0);
    assert!(cmp_versions("1.0", "1.1") < 0);
    assert_eq!(cmp_versions("1.0", "1.0"), 0);
    assert!(cmp_versions("1.0", "1.0.1") < 0);
    assert!(cmp_versions("1.10", "1.9") > 0);
    assert_eq!(cmp_versions("1.010", "1.10"), 0);
    assert!(cmp_versions("2", "1.9.9") > 0);
}

#[test]
fn non_numeric_components_compare_by_characters() {
    assert!(cmp_versions("0.95a", "0.95") > 0);
    assert!(cmp_versions("0.95a-RC6", "0.95a-RC5") > 0);
    assert_eq!(cmp_versions("0.95a", "0.95a"), 0);
}

#[test]
fn strictly_newer_remote_yields_update_signal() {
    let e = entry("modB", "1.0");
    let remote = RemoteVersionInfo { version: "1.1".to_string() };
    let sig = reconcile(&e, &remote).unwrap();
    assert_eq!(sig.id, "modB");
    assert_eq!(sig.local_version, "1.0");
    assert_eq!(sig.remote_version, "1.1");
}

#[test]
fn equal_or_older_remote_yields_no_signal() {
    let e = entry("modB", "1.0");
    assert!(reconcile(&e, &RemoteVersionInfo { version: "1.0".to_string() }).is_none());
    assert!(reconcile(&e, &RemoteVersionInfo { version: "0.9".to_string() }).is_none());
}
