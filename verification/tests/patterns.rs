//! Preset patterns.

use turbo_capture::names::NameMap;
use turbo_capture::patterns::{matches_parsed, parse_pattern, should_capture, PresetConfig};
use turbo_capture::preview;

#[test]
fn parse_simple_exe() {
    let p = parse_pattern("devenv.exe");
    assert!(p.mode.is_none());
    assert_eq!(p.exe_path, "devenv.exe");
    assert!(p.title.is_none());
}

#[test]
fn parse_mode_prefix() {
    let p = parse_pattern("@code devenv.exe");
    assert_eq!(p.mode.as_deref(), Some("code"));
    assert_eq!(p.exe_path, "devenv.exe");
}

#[test]
fn parse_exe_with_title() {
    let p = parse_pattern("@code Code.exe@LiveUI");
    assert_eq!(p.mode.as_deref(), Some("code"));
    assert_eq!(p.exe_path, "Code.exe");
    assert_eq!(p.title.as_deref(), Some("LiveUI"));
}

#[test]
fn parse_exclude() {
    let p = parse_pattern("@exclude gogh.exe");
    assert_eq!(p.mode.as_deref(), Some("exclude"));
    assert_eq!(p.exe_path, "gogh.exe");
}

#[test]
fn matches_exe_path_substring() {
    let p = parse_pattern("devenv.exe");
    assert!(matches_parsed(&p, "C:\\Program Files\\devenv.exe", "Window", false));
    assert!(!matches_parsed(&p, "C:\\Program Files\\code.exe", "Window", false));
}

#[test]
fn matches_path_separator_normalization() {
    let p = parse_pattern("C:/Program Files/JetBrains/");
    assert!(matches_parsed(&p, "C:\\Program Files\\JetBrains\\idea64.exe", "", false));
}

#[test]
fn matches_title_case_insensitive() {
    let p = parse_pattern("Code.exe@liveui");
    assert!(matches_parsed(&p, "C:\\Code.exe", "Nekomaru LiveUI", false));
    assert!(!matches_parsed(&p, "C:\\Code.exe", "Some Other Window", false));
}

#[test]
fn should_capture_include_and_exclude() {
    let patterns = vec!["@code devenv.exe".into(), "@exclude gogh.exe".into()];
    let result = should_capture(&patterns, "C:\\devenv.exe", "Test");
    assert!(result.is_some());
    assert_eq!(result.unwrap().mode, Some("code".into()));

    assert!(should_capture(&patterns, "C:\\gogh.exe", "Test").is_none());
    assert!(should_capture(&patterns, "C:\\notepad.exe", "Test").is_none());
}

#[test]
fn exclude_takes_priority() {
    let patterns = vec!["@game D:/7-Games/".into(), "@exclude vtube studio.exe".into()];
    assert!(should_capture(&patterns, "D:/7-Games/vtube studio.exe", "VTube").is_none());
}

#[test]
fn exclusions_hold_in_any_order() {
    let patterns = vec!["@exclude vtube studio.exe".into(), "@game D:/7-Games/".into()];
    assert!(should_capture(&patterns, "D:/7-Games/VTube Studio.exe", "VTube").is_none());
}

#[test]
fn the_first_matching_pattern_gives_the_mode() {
    let patterns = vec!["@code .exe".into(), "@game devenv.exe".into()];
    assert_eq!(should_capture(&patterns, "C:/devenv.exe", "").unwrap().mode, Some("code".into()));
    let patterns = vec!["devenv.exe".into(), "@game devenv.exe".into()];
    assert_eq!(should_capture(&patterns, "C:/devenv.exe", "").unwrap().mode, None);
}

#[test]
fn active_patterns_returns_selected_preset() {
    let mut presets = NameMap::new();
    presets.insert("main".into(), vec!["Code.exe".into()]);
    let config = PresetConfig { preset: "main".into(), presets };
    assert_eq!(config.active_patterns(), Some(&vec!["Code.exe".into()]));
}

#[test]
fn unknown_presets_have_no_patterns() {
    let config = PresetConfig { preset: "main".into(), presets: NameMap::new() };
    assert_eq!(config.active_patterns(), None);
}

#[test]
fn parse_simple_executable() {
    let pattern = parse_pattern("devenv.exe");
    assert!(pattern.mode.is_none());
    assert_eq!(pattern.exe_path, "devenv.exe");
    assert!(pattern.title.is_none());
}

#[test]
fn parse_mode_and_title() {
    let pattern = parse_pattern("@code Code.exe@LiveUI");
    assert_eq!(pattern.mode.as_deref(), Some("code"));
    assert_eq!(pattern.exe_path, "Code.exe");
    assert_eq!(pattern.title.as_deref(), Some("LiveUI"));
}

#[test]
fn executable_matching_normalizes_path_separators() {
    let pattern = parse_pattern("C:/Program Files/JetBrains/");
    assert!(matches_parsed(
        &pattern,
        "C:\\Program Files\\JetBrains\\idea64.exe",
        "",
        false
    ));
}

#[test]
fn title_matching_is_case_insensitive() {
    let pattern = parse_pattern("Code.exe@liveui");
    assert!(matches_parsed(&pattern, "C:\\Code.exe", "Nekomaru LiveUI", false));
    assert!(!matches_parsed(&pattern, "C:\\Code.exe", "Some Other Window", false));
}

#[test]
fn include_accepts_match_and_rejects_unmatched_window() {
    let patterns = vec!["@code devenv.exe".into()];
    assert!(preview::should_capture(&patterns, "C:\\devenv.exe", "Test"));
    assert!(!preview::should_capture(&patterns, "C:\\notepad.exe", "Test"));
}

#[test]
fn exclusion_takes_priority_over_include() {
    let patterns = vec!["@game D:/7-Games/".into(), "@exclude vtube studio.exe".into()];
    assert!(!preview::should_capture(&patterns, "D:/7-Games/vtube studio.exe", "VTube"));
}
