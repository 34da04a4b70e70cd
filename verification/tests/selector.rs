//! Window selection.

use turbo_capture::config::{
    InstanceConfig, RenderProfiles, SelectionConfig, SelectionProfileConfig, SourceConfig,
    VideoConfig,
};
use turbo_capture::names::NameMap;
use turbo_capture::selector::{
    select_window, validate_selection, ObservationId, ObservedWindow, SelectionDecision,
    SelectorPolicy, WindowBounds,
};

/// One profile of a catalog.
fn profile(includes: &[&str], excludes: &[&str]) -> SelectionProfileConfig {
    SelectionProfileConfig {
        includes: includes.iter().map(|rule| (*rule).to_owned()).collect(),
        excludes: excludes.iter().map(|rule| (*rule).to_owned()).collect(),
    }
}

/// A catalog of named profiles.
fn catalog(entries: Vec<(&str, SelectionProfileConfig)>) -> NameMap<SelectionProfileConfig> {
    let mut profiles = NameMap::new();
    for (name, profile) in entries {
        profiles.insert(name.to_owned(), profile);
    }
    profiles
}

/// Build a policy whose enabled order is the public priority contract.
fn policy(prefer_foreground: bool) -> SelectorPolicy {
    InstanceConfig {
        selection: SelectionConfig {
            prefer_foreground,
            enabled: vec!["code".to_owned(), "games".to_owned()],
            profiles: catalog(vec![
                ("code", profile(&["Code.exe"], &[])),
                ("games", profile(&["D:/Games/"], &["private.exe"])),
            ]),
        },
        source: SourceConfig::default(),
        video: VideoConfig {
            width: 1920,
            height: 1200,
            frame_rate: 60,
            bit_rate: Some(8_000_000),
        },
        render: RenderProfiles::default(),
    }
    .validate()
    .unwrap()
    .selector()
    .clone()
}

/// Construct one visible non-empty observation with concise call sites.
fn window(id: u64, executable: &str, title: &str, foreground: bool) -> ObservedWindow {
    ObservedWindow {
        id: ObservationId(id),
        process_id: id as u32,
        executable_name: executable.to_owned(),
        executable_path: Some(format!("C:/Apps/{executable}")),
        title: title.to_owned(),
        visible: true,
        foreground,
        bounds: WindowBounds { left: 0, top: 0, width: 1280, height: 720 },
    }
}

#[test]
fn selector_should_apply_global_exclusions() {
    let observations = [window(1, "private.exe", "Private", true)];
    assert_eq!(select_window(&policy(true), &observations, None), SelectionDecision::Wait);
}

#[test]
fn selector_should_rank_profile_before_foreground_preference() {
    let policy = policy(true);
    let observations = [window(2, "game.exe", "Game", true), window(1, "Code.exe", "Code", false)];
    let SelectionDecision::Switch(selection) = select_window(&policy, &observations, None) else {
        panic!("expected a selected target");
    };
    assert_eq!(selection.window.id, ObservationId(1));
}

#[test]
fn selector_should_prefer_foreground_within_one_profile() {
    let policy = policy(true);
    let observations =
        [window(1, "Code.exe", "Alpha", false), window(2, "Code.exe", "Beta", true)];
    let SelectionDecision::Switch(selection) = select_window(&policy, &observations, None) else {
        panic!("expected a selected target");
    };
    assert_eq!(selection.window.id, ObservationId(2));
}

#[test]
fn selector_should_keep_a_still_eligible_current_target() {
    let policy = policy(true);
    let observations =
        [window(1, "Code.exe", "Current", false), window(2, "Code.exe", "Foreground", true)];
    let SelectionDecision::Keep(selection) =
        select_window(&policy, &observations, Some(ObservationId(1)))
    else {
        panic!("expected sticky current target");
    };
    assert_eq!(selection.window.id, ObservationId(1));
}

#[test]
fn selector_should_switch_after_current_target_disappears() {
    let policy = policy(false);
    let observations = [window(2, "Code.exe", "Replacement", false)];
    let SelectionDecision::Switch(selection) =
        select_window(&policy, &observations, Some(ObservationId(1)))
    else {
        panic!("expected replacement target");
    };
    assert_eq!(selection.window.id, ObservationId(2));
}

#[test]
fn selector_should_ignore_snapshot_enumeration_order() {
    let policy = policy(false);
    let forward = [window(2, "Code.exe", "Beta", false), window(1, "Code.exe", "Alpha", false)];
    let reverse = [forward[1].clone(), forward[0].clone()];

    let SelectionDecision::Switch(left) = select_window(&policy, &forward, None) else {
        panic!("expected first selection");
    };
    let SelectionDecision::Switch(right) = select_window(&policy, &reverse, None) else {
        panic!("expected second selection");
    };
    assert_eq!(left.window.id, right.window.id);
}

#[test]
fn selector_should_wait_for_empty_or_non_visible_snapshots() {
    assert_eq!(select_window(&policy(false), &[], None), SelectionDecision::Wait);

    let mut hidden = window(1, "Code.exe", "Hidden", true);
    hidden.visible = false;
    assert_eq!(select_window(&policy(false), &[hidden], None), SelectionDecision::Wait);
}

#[test]
fn validation_should_reject_definite_rule_contradictions() {
    let mut config = SelectionConfig {
        prefer_foreground: false,
        enabled: vec!["code".to_owned()],
        profiles: catalog(vec![("code", profile(&["Code.exe"], &["code.EXE"]))]),
    };
    let mut issues = Vec::new();

    let _policy = validate_selection(&mut config, &mut issues);
    assert!(issues.iter().any(|issue| issue.code == "contradictory_rule"));
}

#[test]
fn validation_should_reject_unknown_and_duplicate_enabled_profiles() {
    let mut config = SelectionConfig {
        prefer_foreground: false,
        enabled: vec!["missing".to_owned(), "code".to_owned(), " code ".to_owned()],
        profiles: catalog(vec![("code", profile(&["Code.exe"], &[]))]),
    };
    let mut issues = Vec::new();

    let _policy = validate_selection(&mut config, &mut issues);

    assert!(issues.iter().any(|issue| issue.code == "unknown_enabled_profile"));
    assert!(issues.iter().any(|issue| issue.code == "duplicate_enabled_profile"));
}

#[test]
fn validation_should_reject_empty_and_repeated_rules() {
    let mut config = SelectionConfig {
        prefer_foreground: false,
        enabled: vec!["  ".to_owned()],
        profiles: catalog(vec![
            ("", profile(&[], &[])),
            ("code", profile(&["Code.exe", " CODE.exe ", "\u{a0}"], &[])),
            (" code ", profile(&[], &[])),
        ]),
    };
    let mut issues = Vec::new();

    let _policy = validate_selection(&mut config, &mut issues);
    let codes: Vec<&str> = issues.iter().map(|issue| issue.code).collect();
    for code in [
        "empty_profile_name",
        "duplicate_profile_name",
        "empty_selection_rule",
        "duplicate_selection_rule",
        "empty_enabled_profile",
    ] {
        assert!(codes.contains(&code), "{code} is missing from {codes:?}");
    }
}

#[test]
fn rules_should_match_without_regard_to_case_or_slashes() {
    let policy = policy(false);
    let mut game = window(4, "Game.EXE", "Game", false);
    game.executable_path = Some("d:\\GAMES\\Game.EXE".to_owned());
    let observations = [game];
    let SelectionDecision::Switch(selection) = select_window(&policy, &observations, None) else {
        panic!("expected the game");
    };
    assert_eq!(selection.profile, "games");
}

#[test]
fn accepted_selections_should_keep_their_form() {
    let mut config = SelectionConfig {
        prefer_foreground: true,
        enabled: vec![" code ".to_owned()],
        profiles: catalog(vec![(" code", profile(&[" Code.exe "], &["D:\\x\\"]))]),
    };
    let mut issues = Vec::new();
    let first = validate_selection(&mut config, &mut issues);
    let settled = config.clone();
    let again = validate_selection(&mut config, &mut issues);
    assert!(issues.is_empty());
    assert_eq!(config, settled);
    assert_eq!(first, again);
}
