use mod_manager::enabled::{parse_enabled, EnabledMods};
use mod_manager::manifest::{MissingKey, ParseError};

#[test]
fn writes_canonical_text() {
    let em = EnabledMods::from_ids(vec!["modA".to_string(), "modB".to_string()]);
    assert_eq!(em.to_json(), "{\"enabledMods\": [\"modA\", \"modB\"]}");
}

#[test]
fn writes_empty_set() {
    let em = EnabledMods::empty();
    assert_eq!(em.to_json(), "{\"enabledMods\": []}");
}

#[test]
fn reads_canonical_text() {
    let em = parse_enabled("{\"enabledMods\": [\"modA\", \"modB\"]}").unwrap();
    assert_eq!(em.enabled_mods, vec!["modA".to_string(), "modB".to_string()]);
}

#[test]
fn round_trips_through_text() {
    let ids = vec!["a".to_string(), "b".to_string(), "c".to_string()];
    let em = EnabledMods::from_ids(ids.clone());
    let back = parse_enabled(&em.to_json()).unwrap();
    assert_eq!(back.enabled_mods, ids);
}

#[test]
fn tolerates_extra_members_and_trivia() {
    let text = "// file\n{ other: 3, \"enabledMods\": [ 'x' , \"y\", ], tail: [1,2] }";
    let em = parse_enabled(text).unwrap();
    assert_eq!(em.enabled_mods, vec!["x".to_string(), "y".to_string()]);
}

#[test]
fn missing_key_is_reported() {
    assert!(matches!(
        parse_enabled("{ \"somethingElse\": [] }"),
        Err(ParseError::MissingField(MissingKey::EnabledMods))
    ));
}

#[test]
fn non_array_value_is_malformed() {
    assert!(matches!(
        parse_enabled("{ \"enabledMods\": \"modA\" }"),
        Err(ParseError::Malformed)
    ));
}

#[test]
fn contains_id_sees_listed_ids_only() {
    let em = EnabledMods::from_ids(vec!["a".to_string()]);
    assert!(em.contains_id(&"a".to_string()));
    assert!(!em.contains_id(&"b".to_string()));
}
