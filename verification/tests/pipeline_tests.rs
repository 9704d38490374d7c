use mod_manager::conflict::ConflictIdentity;
use mod_manager::entry::{PackageEntry, RemoteVersionInfo};
use mod_manager::locate::DirTree;
use mod_manager::pipeline::{
    accept_update, start_download, start_resumed, start_task, step, InstallError, InstallIntent,
    InstallMessage, PendingDestination, Source, SourceKind, TaskAction, TaskCtx, TaskEvent,
    TaskState,
};
use mod_manager::version::reconcile;

const MOD_A: &str =
    "{\"id\": \"modA\", \"name\": \"Mod A\", \"version\": \"1.0\", \"gameVersion\": \"0.95a\"}";

fn ctx(known: &[&str]) -> TaskCtx {
    TaskCtx {
        mods_dir: "mods".to_string(),
        known_ids: known.iter().map(|s| s.to_string()).collect(),
    }
}

fn file(name: &str) -> DirTree {
    DirTree::File { name: name.to_string() }
}

fn dir(name: &str, children: Vec<DirTree>) -> DirTree {
    DirTree::Dir { name: name.to_string(), children }
}

fn wrapped_mod_a_tree() -> DirTree {
    dir(
        "temp_1",
        vec![dir("wrapper", vec![dir("ModA", vec![file("mod_info.json")])])],
    )
}

#[test]
fn archive_with_wrapper_installs_to_mods_mod_a() {
    let c = ctx(&[]);
    let (s, acts) = start_task(
        Source { path: "downloads/ModA.zip".to_string(), kind: SourceKind::Archive },
        "mods/temp_1".to_string(),
    );
    match &acts[..] {
        [TaskAction::Extract { archive, dest }] => {
            assert_eq!(archive, "downloads/ModA.zip");
            assert_eq!(dest, "mods/temp_1");
        },
        _ => panic!("expected one Extract action"),
    }

    let (s, acts) = step(s, TaskEvent::Extracted(Ok(())), &c);
    match &acts[..] {
        [TaskAction::ReadTree { dir }] => assert_eq!(dir, "mods/temp_1"),
        _ => panic!("expected one ReadTree action"),
    }

    // The locator skips the wrapper level.
    let (s, acts) = step(s, TaskEvent::TreeRead(Ok(wrapped_mod_a_tree())), &c);
    match &acts[..] {
        [TaskAction::ReadFile { path }] => {
            assert_eq!(path, "mods/temp_1/wrapper/ModA/mod_info.json")
        },
        _ => panic!("expected one ReadFile action"),
    }

    let (s, acts) = step(s, TaskEvent::FileRead(Ok(MOD_A.to_string())), &c);
    match &acts[..] {
        [TaskAction::CheckDest { path }] => assert_eq!(path, "mods/modA"),
        _ => panic!("expected one CheckDest action"),
    }

    let (s, acts) = step(s, TaskEvent::DestChecked(false), &c);
    match &acts[..] {
        [TaskAction::Rename { from, to }] => {
            assert_eq!(from, "mods/temp_1/wrapper/ModA");
            assert_eq!(to, "mods/modA");
        },
        _ => panic!("expected one Rename action"),
    }

    let (s, acts) = step(s, TaskEvent::Renamed(Ok(())), &c);
    match &acts[..] {
        [TaskAction::CleanupTemp { path }, TaskAction::ReadFile { path: p2 }] => {
            assert_eq!(path, "mods/temp_1");
            assert_eq!(p2, "mods/modA/mod_info.json");
        },
        _ => panic!("expected CleanupTemp then ReadFile"),
    }

    let (s, acts) = step(s, TaskEvent::FileRead(Ok(MOD_A.to_string())), &c);
    match &acts[..] {
        [TaskAction::Emit(InstallMessage::Success(entry))] => {
            assert_eq!(entry.id, "modA");
            assert_eq!(entry.path, "mods/modA");
            assert!(!entry.enabled);
        },
        _ => panic!("expected one Success message"),
    }

    // The task is finished: further events are absorbed silently.
    let (_, acts) = step(s, TaskEvent::DestChecked(true), &c);
    assert!(acts.is_empty());
}

#[test]
fn folder_source_skips_extraction() {
    let c = ctx(&[]);
    let (_, acts) = start_task(
        Source { path: "downloads/ModA".to_string(), kind: SourceKind::Folder },
        "mods/temp_unused".to_string(),
    );
    match &acts[..] {
        [TaskAction::ReadTree { dir }] => assert_eq!(dir, "downloads/ModA"),
        _ => panic!("expected one ReadTree action"),
    }
}

#[test]
fn known_id_emits_duplicate_by_id_and_no_success() {
    let c = ctx(&["modA", "other"]);
    let (s, _) = start_task(
        Source { path: "downloads/ModA.zip".to_string(), kind: SourceKind::Archive },
        "mods/temp_1".to_string(),
    );
    let (s, _) = step(s, TaskEvent::Extracted(Ok(())), &c);
    let (s, _) = step(s, TaskEvent::TreeRead(Ok(wrapped_mod_a_tree())), &c);
    let (s, acts) = step(s, TaskEvent::FileRead(Ok(MOD_A.to_string())), &c);
    match &acts[..] {
        [TaskAction::Emit(InstallMessage::Duplicate(
            ConflictIdentity::ById(id),
            PendingDestination::Resolved(dest),
            entry,
        ))] => {
            assert_eq!(id, "modA");
            assert_eq!(dest, "mods/modA");
            assert_eq!(entry.id, "modA");
            assert_eq!(entry.path, "mods/temp_1/wrapper/ModA");
        },
        _ => panic!("expected one Duplicate(ById) message"),
    }
    // Suspended: the pipeline says nothing further.
    let (_, acts) = step(s, TaskEvent::FileRead(Ok(MOD_A.to_string())), &c);
    assert!(acts.is_empty());
}

#[test]
fn occupied_destination_emits_duplicate_by_path() {
    let c = ctx(&["somethingElse"]);
    let (s, _) = start_task(
        Source { path: "downloads/ModA.zip".to_string(), kind: SourceKind::Archive },
        "mods/temp_1".to_string(),
    );
    let (s, _) = step(s, TaskEvent::Extracted(Ok(())), &c);
    let (s, _) = step(s, TaskEvent::TreeRead(Ok(wrapped_mod_a_tree())), &c);
    let (s, _) = step(s, TaskEvent::FileRead(Ok(MOD_A.to_string())), &c);
    let (_, acts) = step(s, TaskEvent::DestChecked(true), &c);
    match &acts[..] {
        [TaskAction::Emit(InstallMessage::Duplicate(
            ConflictIdentity::ByPath(p),
            PendingDestination::Resolved(dest),
            _,
        ))] => {
            assert_eq!(p, "mods/modA");
            assert_eq!(dest, "mods/modA");
        },
        _ => panic!("expected one Duplicate(ByPath) message"),
    }
}

fn staged_mod_a_entry() -> PackageEntry {
    PackageEntry {
        id: "modA".to_string(),
        name: "Mod A".to_string(),
        author: String::new(),
        local_version: "1.0".to_string(),
        game_version: "0.95a".to_string(),
        description: String::new(),
        enabled: false,
        path: "mods/temp_1/wrapper/ModA".to_string(),
        remote_version: None,
        version_checker_url: None,
        highlighted: false,
    }
}

#[test]
fn resume_removes_conflict_then_places_then_succeeds() {
    let c = ctx(&["modA"]);
    let (s, acts) = start_resumed(
        staged_mod_a_entry(),
        "mods/modA".to_string(),
        ConflictIdentity::ById("modA".to_string()),
        "mods/modA".to_string(),
    );
    match &acts[..] {
        [TaskAction::RemovePath { path }] => assert_eq!(path, "mods/modA"),
        _ => panic!("expected one RemovePath action"),
    }

    let (s, acts) = step(s, TaskEvent::Removed(Ok(())), &c);
    match &acts[..] {
        [TaskAction::Rename { from, to }] => {
            assert_eq!(from, "mods/temp_1/wrapper/ModA");
            assert_eq!(to, "mods/modA");
        },
        _ => panic!("expected one Rename action"),
    }

    let (s, acts) = step(s, TaskEvent::Renamed(Ok(())), &c);
    match &acts[..] {
        [TaskAction::ReadFile { path }] => assert_eq!(path, "mods/modA/mod_info.json"),
        _ => panic!("expected one ReadFile action"),
    }

    let (_, acts) = step(s, TaskEvent::FileRead(Ok(MOD_A.to_string())), &c);
    match &acts[..] {
        [TaskAction::Emit(InstallMessage::Success(entry))] => {
            assert_eq!(entry.id, "modA");
            assert_eq!(entry.path, "mods/modA");
        },
        _ => panic!("expected one Success message"),
    }
}

#[test]
fn removal_failure_is_terminal_and_keeps_staged_dir() {
    let c = ctx(&["modA"]);
    let (s, _) = start_resumed(
        staged_mod_a_entry(),
        "mods/modA".to_string(),
        ConflictIdentity::ById("modA".to_string()),
        "mods/modA".to_string(),
    );
    let (s, acts) = step(s, TaskEvent::Removed(Err("permission denied".to_string())), &c);
    match &acts[..] {
        [TaskAction::Emit(InstallMessage::Error(InstallError::ConflictRemovalFailed(e)))] => {
            assert_eq!(e, "permission denied")
        },
        _ => panic!("expected one ConflictRemovalFailed error"),
    }
    // No cleanup of the staged directory was requested: it stays for
    // diagnostics.
    let (_, acts) = step(s, TaskEvent::Removed(Ok(())), &c);
    assert!(acts.is_empty());
}

#[test]
fn second_resume_hits_placement_failure_not_second_success() {
    // Simulate a duplicated resume click: the first resume already moved the
    // staged directory into place, so the second one's rename fails.
    let c = ctx(&["modA"]);
    let (s, _) = start_resumed(
        staged_mod_a_entry(),
        "mods/modA".to_string(),
        ConflictIdentity::ById("modA".to_string()),
        "mods/modA".to_string(),
    );
    let (s, _) = step(s, TaskEvent::Removed(Ok(())), &c);
    let (s, acts) = step(
        s,
        TaskEvent::Renamed(Err("source no longer exists".to_string())),
        &c,
    );
    match &acts[..] {
        [TaskAction::Emit(InstallMessage::Error(InstallError::PlacementFailed(e)))] => {
            assert_eq!(e, "source no longer exists")
        },
        _ => panic!("expected one PlacementFailed error"),
    }
    let (_, acts) = step(s, TaskEvent::Renamed(Ok(())), &c);
    assert!(acts.is_empty());
}

#[test]
fn duplicate_resumes_do_not_duplicate_registry_entries() {
    // The registry inserts by id: even if two resumes both delivered an
    // entry, the second replaces the first instead of adding a row.
    let mut reg = mod_manager::registry::ModList::new();
    reg.insert(staged_mod_a_entry());
    reg.insert(staged_mod_a_entry());
    assert_eq!(reg.len(), 1);
}

#[test]
fn corrupted_archive_fails_with_cleanup_and_no_other_action() {
    let c = ctx(&[]);
    let (s, _) = start_task(
        Source { path: "downloads/Broken.zip".to_string(), kind: SourceKind::Archive },
        "mods/temp_9".to_string(),
    );
    let (s, acts) = step(s, TaskEvent::Extracted(Err("unsupported format".to_string())), &c);
    match &acts[..] {
        [TaskAction::CleanupTemp { path }, TaskAction::Emit(InstallMessage::Error(
            InstallError::ExtractionFailed(e),
        ))] => {
            assert_eq!(path, "mods/temp_9");
            assert_eq!(e, "unsupported format");
        },
        _ => panic!("expected CleanupTemp then ExtractionFailed"),
    }
    // No rename, removal or further messages: the filesystem was never
    // touched beyond the temp directory.
    let (_, acts) = step(s, TaskEvent::Extracted(Ok(())), &c);
    assert!(acts.is_empty());
}

#[test]
fn no_package_in_tree_is_terminal_with_cleanup() {
    let c = ctx(&[]);
    let (s, _) = start_task(
        Source { path: "downloads/Empty.zip".to_string(), kind: SourceKind::Archive },
        "mods/temp_2".to_string(),
    );
    let (s, _) = step(s, TaskEvent::Extracted(Ok(())), &c);
    let empty_tree = dir("temp_2", vec![dir("docs", vec![file("readme.txt")])]);
    let (_, acts) = step(s, TaskEvent::TreeRead(Ok(empty_tree)), &c);
    match &acts[..] {
        [TaskAction::CleanupTemp { path }, TaskAction::Emit(InstallMessage::Error(
            InstallError::NoPackageFound,
        ))] => assert_eq!(path, "mods/temp_2"),
        _ => panic!("expected CleanupTemp then NoPackageFound"),
    }
}

#[test]
fn unexpected_event_ends_task_with_io_error() {
    let c = ctx(&[]);
    let (s, _) = start_task(
        Source { path: "downloads/ModA.zip".to_string(), kind: SourceKind::Archive },
        "mods/temp_1".to_string(),
    );
    let (s, acts) = step(s, TaskEvent::Renamed(Ok(())), &c);
    match &acts[..] {
        [TaskAction::Emit(InstallMessage::Error(InstallError::IoError(e)))] => {
            assert_eq!(e, "unexpected event")
        },
        _ => panic!("expected one IoError"),
    }
    match s {
        TaskState::Done => {},
        _ => panic!("expected the task to be done"),
    }
}

#[test]
fn accepted_update_flows_through_same_conflict_path_as_reinstall() {
    // Reconciliation: local 1.0 against remote 1.1 warrants a signal.
    let mut local = staged_mod_a_entry();
    local.id = "modB".to_string();
    local.path = "mods/modB".to_string();
    local.version_checker_url = Some("https://example.invalid/modB.json".to_string());
    let sig = reconcile(&local, &RemoteVersionInfo { version: "1.1".to_string() }).unwrap();
    assert_eq!(sig.id, "modB");

    // Accepting the signal produces a Download intent for the entry.
    let intent = accept_update(local);
    let entry = match intent {
        InstallIntent::Download(e) => e,
        _ => panic!("expected a Download intent"),
    };
    assert_eq!(entry.id, "modB");

    // The downloaded payload then runs as an archive install and meets the
    // identical ById conflict a manual reinstall would.
    let c = ctx(&["modB"]);
    let manifest =
        "{\"id\": \"modB\", \"name\": \"Mod B\", \"version\": \"1.1\", \"gameVersion\": \"0.95a\"}";
    let (s, _) = start_download("downloads/modB-1.1.zip".to_string(), "mods/temp_3".to_string());
    let (s, _) = step(s, TaskEvent::Extracted(Ok(())), &c);
    let tree = dir("temp_3", vec![dir("modB", vec![file("mod_info.json")])]);
    let (s, _) = step(s, TaskEvent::TreeRead(Ok(tree)), &c);
    let (_, acts) = step(s, TaskEvent::FileRead(Ok(manifest.to_string())), &c);
    match &acts[..] {
        [TaskAction::Emit(InstallMessage::Duplicate(
            ConflictIdentity::ById(id),
            PendingDestination::Resolved(dest),
            _,
        ))] => {
            assert_eq!(id, "modB");
            assert_eq!(dest, "mods/modB");
        },
        _ => panic!("expected one Duplicate(ById) message"),
    }
}

#[test]
fn error_descriptions_name_the_failure() {
    assert_eq!(
        InstallError::ExtractionFailed("bad".to_string()).describe(),
        "could not extract archive: bad"
    );
    assert_eq!(InstallError::NoPackageFound.describe(), "no package found");
    assert_eq!(
        InstallError::PlacementFailed("busy".to_string()).describe(),
        "could not move package into place: busy"
    );
}
