use mod_manager::manifest::{parse_manifest, MissingKey, ParseError};

#[test]
fn parses_full_manifest_with_comments_and_bare_keys() {
    let text = "// header comment\n{\n  \"id\": \"modA\", /* block\n comment */\n  name: 'Mod A Name',\n  \"version\": \"1.0\",\n  gameVersion: \"0.95a\",\n  \"author\": \"someone\",\n  \"description\": \"A mod\",\n  extra: [1, {nested: \"br]ackets\"}, true],\n}\n";
    let entry = parse_manifest(text, "mods/modA").unwrap();
    assert_eq!(entry.id, "modA");
    assert_eq!(entry.name, "Mod A Name");
    assert_eq!(entry.local_version, "1.0");
    assert_eq!(entry.game_version, "0.95a");
    assert_eq!(entry.author, "someone");
    assert_eq!(entry.description, "A mod");
    assert_eq!(entry.path, "mods/modA");
    assert!(!entry.enabled);
    assert!(!entry.highlighted);
    assert!(entry.remote_version.is_none());
    assert!(entry.version_checker_url.is_none());
}

#[test]
fn author_and_description_default_to_empty() {
    let text = "{\"id\": \"m\", \"name\": \"M\", \"version\": \"2\", \"gameVersion\": \"0.9\"}";
    let entry = parse_manifest(text, "p").unwrap();
    assert_eq!(entry.author, "");
    assert_eq!(entry.description, "");
}

#[test]
fn version_checker_url_is_read_when_present() {
    let text = "{\"id\": \"m\", \"name\": \"M\", \"version\": \"2\", \"gameVersion\": \"0.9\", \"versionChecker\": \"https://example.invalid/m.json\"}";
    let entry = parse_manifest(text, "p").unwrap();
    assert_eq!(
        entry.version_checker_url.as_deref(),
        Some("https://example.invalid/m.json")
    );
}

#[test]
fn missing_id_is_reported_first() {
    let text = "{\"name\": \"M\", \"version\": \"2\", \"gameVersion\": \"0.9\"}";
    assert!(matches!(
        parse_manifest(text, "p"),
        Err(ParseError::MissingField(MissingKey::Id))
    ));
}

#[test]
fn missing_game_version_is_reported() {
    let text = "{\"id\": \"m\", \"name\": \"M\", \"version\": \"2\"}";
    assert!(matches!(
        parse_manifest(text, "p"),
        Err(ParseError::MissingField(MissingKey::GameVersion))
    ));
}

#[test]
fn garbage_is_malformed() {
    assert!(matches!(parse_manifest("not a manifest", "p"), Err(ParseError::Malformed)));
    assert!(matches!(parse_manifest("", "p"), Err(ParseError::Malformed)));
    assert!(matches!(parse_manifest("{\"id\": \"m\"", "p"), Err(ParseError::Malformed)));
    assert!(matches!(parse_manifest("{} trailing", "p"), Err(ParseError::Malformed)));
}

#[test]
fn non_string_required_value_is_malformed() {
    let text = "{\"id\": 5, \"name\": \"M\", \"version\": \"2\", \"gameVersion\": \"0.9\"}";
    assert!(matches!(parse_manifest(text, "p"), Err(ParseError::Malformed)));
}

#[test]
fn first_occurrence_of_a_key_wins() {
    let text = "{\"id\": \"first\", \"id\": \"second\", \"name\": \"M\", \"version\": \"2\", \"gameVersion\": \"0.9\"}";
    let entry = parse_manifest(text, "p").unwrap();
    assert_eq!(entry.id, "first");
}

#[test]
fn trailing_comma_and_whitespace_are_tolerated() {
    let text = "  \r\n{\n\"id\": \"m\",\n\"name\": \"M\",\n\"version\": \"2\",\n\"gameVersion\": \"0.9\",\n}\n  ";
    assert!(parse_manifest(text, "p").is_ok());
}

#[test]
fn reparse_of_same_text_gives_identical_entry() {
    let text = "{\"id\": \"m\", \"name\": \"M\", \"version\": \"2\", \"gameVersion\": \"0.9\"}";
    let a = parse_manifest(text, "mods/m").unwrap();
    let b = parse_manifest(text, "mods/m").unwrap();
    assert_eq!(a.id, b.id);
    assert_eq!(a.name, b.name);
    assert_eq!(a.local_version, b.local_version);
    assert_eq!(a.game_version, b.game_version);
    assert_eq!(a.author, b.author);
    assert_eq!(a.description, b.description);
    assert_eq!(a.path, b.path);
}
