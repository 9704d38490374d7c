use mod_manager::enabled::EnabledMods;
use mod_manager::entry::{
    InstallOptions, ModDescription, ModDescriptionMessage, ModEntryMessage, PackageEntry,
    RemoteVersionInfo,
};
use mod_manager::conflict::ConflictIdentity;
use mod_manager::pipeline::conflict_path;
use mod_manager::registry::{ModList, ScanItem};

fn entry(id: &str) -> PackageEntry {
    PackageEntry {
        id: id.to_string(),
        name: format!("{} name", id),
        author: String::new(),
        local_version: "1.0".to_string(),
        game_version: "0.95a".to_string(),
        description: format!("about {}", id),
        enabled: false,
        path: format!("mods/{}", id),
        remote_version: None,
        version_checker_url: None,
        highlighted: false,
    }
}

#[test]
fn insert_keeps_ids_unique_and_replaces_wholesale() {
    let mut reg = ModList::new();
    reg.insert(entry("a"));
    reg.insert(entry("b"));
    assert_eq!(reg.len(), 2);

    let mut newer = entry("a");
    newer.local_version = "2.0".to_string();
    reg.insert(newer);
    assert_eq!(reg.len(), 2);
    assert_eq!(reg.get(&"a".to_string()).unwrap().local_version, "2.0");
    // Order is kept: "a" still comes first.
    assert_eq!(reg.mods[0].id, "a");
    assert_eq!(reg.mods[1].id, "b");
}

#[test]
fn get_finds_only_known_ids() {
    let mut reg = ModList::new();
    reg.insert(entry("a"));
    assert!(reg.get(&"a".to_string()).is_some());
    assert!(reg.get(&"zzz".to_string()).is_none());
}

#[test]
fn set_enabled_flips_one_entry() {
    let mut reg = ModList::new();
    reg.insert(entry("a"));
    reg.insert(entry("b"));
    assert!(reg.set_enabled(&"b".to_string(), true));
    assert!(!reg.get(&"a".to_string()).unwrap().enabled);
    assert!(reg.get(&"b".to_string()).unwrap().enabled);
    assert!(!reg.set_enabled(&"zzz".to_string(), true));
}

#[test]
fn enabled_ids_feed_the_enabled_set_file() {
    let mut reg = ModList::new();
    reg.insert(entry("a"));
    reg.insert(entry("b"));
    reg.insert(entry("c"));
    reg.set_enabled(&"a".to_string(), true);
    reg.set_enabled(&"c".to_string(), true);
    let ids = reg.enabled_ids();
    assert_eq!(ids, vec!["a".to_string(), "c".to_string()]);
    let em = EnabledMods::from_ids(ids);
    assert_eq!(em.to_json(), "{\"enabledMods\": [\"a\", \"c\"]}");
}

#[test]
fn set_all_enabled_is_the_bulk_toggle() {
    let mut reg = ModList::new();
    reg.insert(entry("a"));
    reg.insert(entry("b"));
    reg.set_all_enabled(true);
    assert_eq!(reg.enabled_ids().len(), 2);
    reg.set_all_enabled(false);
    assert!(reg.enabled_ids().is_empty());
}

#[test]
fn set_remote_version_records_reconciliation() {
    let mut reg = ModList::new();
    reg.insert(entry("a"));
    assert!(reg.set_remote_version(&"a".to_string(), RemoteVersionInfo {
        version: "1.1".to_string(),
    }));
    let got = reg.get(&"a".to_string()).unwrap();
    assert_eq!(got.remote_version.as_ref().unwrap().version, "1.1");
}

#[test]
fn highlight_selects_exactly_one_entry() {
    let mut reg = ModList::new();
    reg.insert(entry("a"));
    reg.insert(entry("b"));
    reg.highlight(&"a".to_string());
    assert!(reg.get(&"a".to_string()).unwrap().highlighted);
    assert!(!reg.get(&"b".to_string()).unwrap().highlighted);
    reg.highlight(&"b".to_string());
    assert!(!reg.get(&"a".to_string()).unwrap().highlighted);
    assert!(reg.get(&"b".to_string()).unwrap().highlighted);
}

#[test]
fn from_scan_parses_manifests_and_applies_enabled_set() {
    let items = vec![
        ScanItem {
            path: "mods/a".to_string(),
            text: "{\"id\": \"a\", \"name\": \"A\", \"version\": \"1\", \"gameVersion\": \"0.9\"}"
                .to_string(),
        },
        ScanItem {
            path: "mods/broken".to_string(),
            text: "not a manifest".to_string(),
        },
        ScanItem {
            path: "mods/b".to_string(),
            text: "{\"id\": \"b\", \"name\": \"B\", \"version\": \"1\", \"gameVersion\": \"0.9\"}"
                .to_string(),
        },
    ];
    let en = EnabledMods::from_ids(vec!["b".to_string()]);
    let reg = ModList::from_scan(&items, &en);
    assert_eq!(reg.len(), 2);
    assert!(!reg.get(&"a".to_string()).unwrap().enabled);
    assert!(reg.get(&"b".to_string()).unwrap().enabled);
    assert_eq!(reg.get(&"a".to_string()).unwrap().path, "mods/a");
}

#[test]
fn conflict_path_resolves_through_registry() {
    let mut reg = ModList::new();
    reg.insert(entry("a"));
    let by_id = conflict_path(&reg, &ConflictIdentity::ById("a".to_string()));
    assert_eq!(by_id.unwrap(), "mods/a");
    assert!(conflict_path(&reg, &ConflictIdentity::ById("zzz".to_string())).is_none());
    let by_path = conflict_path(&reg, &ConflictIdentity::ByPath("mods/x".to_string()));
    assert_eq!(by_path.unwrap(), "mods/x");
}

#[test]
fn entry_update_applies_row_messages() {
    let mut e = entry("a");
    e.update(ModEntryMessage::ToggleEnabled(true));
    assert!(e.enabled);
    e.update(ModEntryMessage::EntryHighlighted);
    assert!(e.highlighted);
    e.update(ModEntryMessage::EntryCleared);
    assert!(!e.highlighted);
}

#[test]
fn description_panel_shows_selected_entry() {
    let mut d = ModDescription::new();
    assert_eq!(d.shown_text(), "No mod selected.");
    d.update(ModDescriptionMessage::ModChanged(entry("a")));
    assert_eq!(d.shown_text(), "about a");
}

#[test]
fn install_options_offer_archive_and_folder() {
    let opts = InstallOptions::show();
    assert_eq!(opts.len(), 2);
    assert_eq!(opts[0].label(), "From Archive");
    assert_eq!(opts[1].label(), "From Folder");
    assert_eq!(InstallOptions::Default.label(), "Install Mod");
}
