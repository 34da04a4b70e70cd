//! Executable policies.

use turbo_capture::config::SelectionProfileConfig;
use turbo_capture::names::NameMap;
use turbo_capture::profiles::{
    bounded_document, PolicyError, SelectorDocument, SelectorPolicy, SelectorPolicyStore,
    MAX_CONFIG_BYTES,
};

/// Representative policy used by parsing and retention tests.
const CODE_POLICY: &str = r#"
[profiles]
enabled = ["code"]

[profiles.code]
include = ["Code.exe", "D:/Tools/Zed/"]
"#;

/// The texts of an array.
fn texts(value: Option<&toml::Value>) -> Vec<String> {
    let Some(value) = value else {
        return vec![];
    };
    value.as_array().unwrap().iter().map(|text| text.as_str().unwrap().to_owned()).collect()
}

/// Reads a document the way the host does.
fn read(document: &str) -> Result<SelectorDocument, PolicyError> {
    let document = toml::from_str::<toml::Table>(document)
        .map_err(|error| PolicyError::Unreadable { reason: format!("invalid selector TOML: {error}") })?;
    let section = document["profiles"].as_table().unwrap();
    let mut definitions = NameMap::new();
    for (name, value) in section {
        if let Some(profile) = value.as_table() {
            definitions.insert(
                name.clone(),
                SelectionProfileConfig {
                    includes: texts(profile.get("include")),
                    excludes: texts(profile.get("exclude")),
                },
            );
        }
    }
    Ok(SelectorDocument { enabled: texts(section.get("enabled")), definitions })
}

/// Parses a document into a policy.
fn parse(document: &str) -> Result<SelectorPolicy, PolicyError> {
    SelectorPolicy::parse(&read(document)?)
}

#[test]
fn empty_enabled_profiles_select_nothing() {
    let policy = parse(
        r#"
[profiles]
enabled = []

[profiles.code]
include = ["Code.exe"]
"#,
    )
    .unwrap();
    assert!(!policy.allows_executable("C:/Apps/Code.exe"));
}

#[test]
fn unknown_enabled_profiles_are_reported_by_name() {
    let error = parse(
        r#"
[profiles]
enabled = ["missing", "also-missing"]

[profiles.code]
include = ["Code.exe"]
"#,
    )
    .unwrap_err()
    .message();
    assert!(error.contains("also-missing"));
    assert!(error.contains("missing"));
    assert_eq!(error, "unknown enabled profiles: also-missing, missing");
}

#[test]
fn enabled_profile_includes_form_a_union() {
    let policy = parse(
        r#"
[profiles]
enabled = ["code", "game"]

[profiles.code]
include = ["Code.exe"]

[profiles.game]
include = ["D:/Games/"]
"#,
    )
    .unwrap();
    assert!(policy.allows_executable("C:/Apps/Code.exe"));
    assert!(policy.allows_executable("D:/Games/example.exe"));
    assert!(!policy.allows_executable("C:/Windows/notepad.exe"));
}

#[test]
fn exclusions_veto_includes_across_profiles() {
    let policy = parse(
        r#"
[profiles]
enabled = ["games", "privacy"]

[profiles.games]
include = ["D:/Games/"]

[profiles.privacy]
exclude = ["D:/Games/unsafe-overlay.exe"]
"#,
    )
    .unwrap();
    assert!(policy.allows_executable("D:/Games/safe.exe"));
    assert!(!policy.allows_executable("D:/Games/unsafe-overlay.exe"));
}

#[test]
fn matching_normalizes_slashes_and_case() {
    let policy = parse(CODE_POLICY).unwrap();
    assert!(policy.allows_executable("c:\\apps\\CODE.EXE"));
    assert!(policy.allows_executable("d:\\tools\\zed\\Zed.exe"));
}

#[test]
fn overlapping_profiles_report_first_enabled_name() {
    let policy = parse(
        r#"
[profiles]
enabled = ["specific", "broad"]

[profiles.specific]
include = ["D:/Games/example.exe"]

[profiles.broad]
include = ["D:/Games/"]
"#,
    )
    .unwrap();
    assert_eq!(policy.matching_profile("d:\\games\\example.exe"), Some("specific"));
}

#[test]
fn invalid_reload_retains_last_valid_policy() {
    let mut store = SelectorPolicyStore::default();
    assert!(store.reload_document(read(CODE_POLICY)).unwrap());
    store.reload_document(read("[profiles")).unwrap_err();
    assert!(store.active().is_some_and(|policy| policy.allows_executable("C:/Apps/Code.exe")));
}

#[test]
fn missing_initial_file_leaves_policy_inactive() {
    let mut store = SelectorPolicyStore::default();
    let missing = PolicyError::Unreadable {
        reason: "failed to open selector config selector-config-that-does-not-exist.toml".to_owned(),
    };
    store.reload_document(Err(missing)).unwrap_err();
    assert!(store.active().is_none());
}

#[test]
fn empty_rules_are_rejected() {
    let error = parse(
        r#"
[profiles]
enabled = ["unsafe"]

[profiles.unsafe]
include = ["  "]
"#,
    )
    .unwrap_err()
    .message();
    assert!(error.contains("empty include rule"));
    assert_eq!(error, "profile \"unsafe\" contains an empty include rule");
}

#[test]
fn malformed_document_is_rejected() {
    let error = parse("[profiles\nenabled = []").unwrap_err().message();
    assert!(error.contains("invalid selector TOML"));
}

#[test]
fn reloading_the_same_policy_changes_nothing() {
    let mut store = SelectorPolicyStore::default();
    assert_eq!(store.reload_document(read(CODE_POLICY)), Ok(true));
    assert_eq!(store.reload_document(read(CODE_POLICY)), Ok(false));
    assert_eq!(
        store.reload_document(read("[profiles]\nenabled = [\"x\"]")),
        Err(PolicyError::UnknownProfiles { names: vec!["x".to_owned()] })
    );
    assert!(store.active().is_some());
}

#[test]
fn oversized_and_undecodable_documents_are_refused() {
    let large = vec![b' '; MAX_CONFIG_BYTES + 1];
    let error = bounded_document(large, "a.toml").unwrap_err();
    assert_eq!(error.message(), "selector config a.toml exceeds the 1048576 byte limit");
    let error = bounded_document(vec![0xC3, 0x28], "b.toml").unwrap_err();
    assert_eq!(error.message(), "selector config b.toml is not UTF-8");
    assert_eq!(bounded_document("é".as_bytes().to_vec(), "c.toml").unwrap(), "é");
    assert_eq!(bounded_document(vec![b' '; MAX_CONFIG_BYTES], "d.toml").unwrap().len(), MAX_CONFIG_BYTES);
}
