//! Instance configuration.

use turbo_capture::config::{
    bounded_config, ColorKeyKnee, ConfigError, ConfigSnapshot, CropRect, InstanceConfig, RenderConfig,
    RenderProfiles, RgbColor, SelectionConfig, SelectionProfileConfig, Single, SourceConfig,
    ValidationIssue, VideoConfig,
};
use turbo_capture::names::NameMap;

/// A finite number as the configuration holds it.
fn single(value: f32) -> Single {
    Single::from_bits(value.to_bits())
}

/// Small valid configuration used as a baseline for mutation tests.
fn valid_config() -> InstanceConfig {
    let mut profiles = NameMap::new();
    profiles.insert(
        "code".to_owned(),
        SelectionProfileConfig { includes: vec!["Code.exe".to_owned()], excludes: vec![] },
    );
    InstanceConfig {
        selection: SelectionConfig {
            prefer_foreground: true,
            enabled: vec!["code".to_owned()],
            profiles,
        },
        source: SourceConfig::default(),
        video: VideoConfig { width: 1920, height: 1200, frame_rate: 60, bit_rate: None },
        render: RenderProfiles::default(),
    }
}

/// The issues of a configuration that fails validation.
fn issues_of(config: InstanceConfig) -> Vec<ValidationIssue> {
    let ConfigError::Invalid { issues } = config.validate().unwrap_err() else {
        panic!("expected semantic validation failure");
    };
    issues
}

/// An unsigned number of a document table.
fn number(table: &toml::Table, name: &str) -> u32 {
    u32::try_from(table[name].as_integer().unwrap()).unwrap()
}

/// The configuration that a document without profiles describes.
fn configuration(document: &str) -> InstanceConfig {
    let document = toml::from_str::<toml::Table>(document).unwrap();
    assert!(document["selection"].as_table().unwrap().is_empty());
    let video = document["video"].as_table().unwrap();
    let capture_cursor = document
        .get("source")
        .and_then(|source| source.get("capture_cursor"))
        .and_then(toml::Value::as_bool)
        .unwrap_or_default();
    InstanceConfig {
        selection: SelectionConfig {
            prefer_foreground: false,
            enabled: vec![],
            profiles: NameMap::new(),
        },
        source: SourceConfig { capture_cursor, crop: None },
        video: VideoConfig {
            width: number(video, "width"),
            height: number(video, "height"),
            frame_rate: number(video, "frame_rate"),
            bit_rate: video.get("bit_rate").map(|_| number(video, "bit_rate")),
        },
        render: RenderProfiles::default(),
    }
}

#[test]
fn config_validation_should_report_independent_failures_together() {
    let mut config = valid_config();
    config.source.crop = Some(CropRect { min_x: 5, min_y: 7, max_x: 5, max_y: 6 });
    config.video.width = 1;
    config.render.default.color_key_knee = ColorKeyKnee { low: single(0.8), high: single(0.2) };

    let ConfigError::Invalid { issues } = config.validate().unwrap_err() else {
        panic!("expected semantic validation failure");
    };
    assert_eq!(issues.len(), 4);
}

#[test]
fn config_replacement_should_retain_restart_boundary_for_video_settings() {
    let current = valid_config().validate().unwrap();
    let mut candidate = valid_config();
    candidate.video.frame_rate = 30;

    let ConfigError::RestartRequired { fields } =
        current.validate_replacement(candidate).unwrap_err()
    else {
        panic!("expected restart-required failure");
    };
    assert_eq!(fields, ["video"]);
}

#[test]
fn video_bit_rate_should_scale_with_pixel_rate() {
    let actual = [
        (1280, 720, 60),
        (1920, 1080, 30),
        (1920, 1080, 60),
        (2560, 1440, 60),
        (3840, 2160, 60),
    ]
    .map(|(width, height, frame_rate)| {
        VideoConfig { width, height, frame_rate, bit_rate: None }.target_bit_rate()
    });

    assert_eq!(actual, [13_824_000, 15_552_000, 31_104_000, 55_296_000, 124_416_000]);
}

#[test]
fn explicit_video_bit_rate_should_override_inference() {
    let mut video = valid_config().video;
    video.bit_rate = Some(18_000_000);

    assert_eq!(video.target_bit_rate(), 18_000_000);
}

#[test]
fn inferred_video_bit_rate_should_saturate_for_unvalidated_extreme_inputs() {
    let video = VideoConfig {
        width: u32::MAX,
        height: u32::MAX,
        frame_rate: u32::MAX,
        bit_rate: None,
    };

    assert_eq!(video.target_bit_rate(), u32::MAX);
}

#[test]
fn configuration_should_allow_omitted_video_bit_rate() {
    let config = configuration(
        "
        [selection]

        [video]
        width = 1920
        height = 1080
        frame_rate = 60
    ",
    )
    .validate()
    .unwrap();

    assert_eq!(
        (config.config().video.bit_rate, config.config().video.target_bit_rate()),
        (None, 31_104_000)
    );
}

#[test]
fn configuration_should_disable_cursor_capture_by_default() {
    let config = configuration(
        "
        [selection]

        [video]
        width = 1920
        height = 1080
        frame_rate = 60
    ",
    )
    .validate()
    .unwrap();

    assert!(!config.config().source.capture_cursor);
}

#[test]
fn configuration_should_accept_enabled_cursor_capture() {
    let config = configuration(
        "
        [selection]

        [source]
        capture_cursor = true

        [video]
        width = 1920
        height = 1080
        frame_rate = 60
    ",
    )
    .validate()
    .unwrap();

    assert!(config.config().source.capture_cursor);
}

#[test]
fn validation_should_reject_zero_video_bit_rate_override() {
    let mut config = valid_config();
    config.video.bit_rate = Some(0);

    let ConfigError::Invalid { issues } = config.validate().unwrap_err() else {
        panic!("expected semantic validation failure");
    };
    assert_eq!(issues[0].code, "zero_bit_rate");
}

#[test]
fn config_render_override_should_require_known_profile() {
    let mut config = valid_config();
    config.render.profiles.insert("missing".to_owned(), RenderConfig::default());

    let ConfigError::Invalid { issues } = config.validate().unwrap_err() else {
        panic!("expected semantic validation failure");
    };
    assert_eq!(issues[0].code, "unknown_render_profile");
}

#[test]
fn render_override_should_allow_a_disabled_defined_profile() {
    let mut config = valid_config();
    config.selection.enabled.clear();
    config.render.profiles.insert("code".to_owned(), RenderConfig::default());

    config.validate().unwrap();
}

#[test]
fn selection_profile_names_should_be_canonicalized_across_catalog_and_enabled_list() {
    let mut config = valid_config();
    let profile = config.selection.profiles.get("code").unwrap().clone();
    assert!(config.selection.profiles.remove("code"));
    config.selection.profiles.insert("  code  ".to_owned(), profile);
    config.selection.enabled[0] = "  code  ".to_owned();

    let validated = config.validate().unwrap();

    assert!(validated.config().selection.profiles.contains("code"));
    assert_eq!(validated.config().selection.enabled, ["code"]);
}

#[test]
fn config_snapshot_should_advance_only_after_accepted_replacement() {
    let current = ConfigSnapshot::initial(valid_config().validate().unwrap());
    let next_config = current.config.validate_replacement(valid_config()).unwrap();
    let next = current.replaced(next_config).unwrap();

    assert_eq!(current.generation, 1);
    assert_eq!(next.generation, 2);
}

#[test]
fn snapshot_generations_should_not_wrap() {
    let mut snapshot = ConfigSnapshot::initial(valid_config().validate().unwrap());
    snapshot.generation = u64::MAX;
    let same = valid_config().validate().unwrap();
    assert_eq!(snapshot.replaced(same).unwrap_err(), ConfigError::GenerationExhausted);
}

#[test]
fn accepted_configurations_should_be_accepted_again_unchanged() {
    let first = valid_config().validate().unwrap();
    let again = first.config().clone().validate().unwrap();
    assert_eq!(first, again);
}

#[test]
fn every_issue_should_name_its_field() {
    let mut config = valid_config();
    config.source.crop = Some(CropRect { min_x: 5, min_y: 7, max_x: 5, max_y: 6 });
    config.video.height = 15;
    config.video.frame_rate = 0;
    config.video.bit_rate = Some(0);
    config.render.default.key_colors = vec![RgbColor([1, 2, 3]); 9];
    config.render.default.color_key_knee =
        ColorKeyKnee { low: single(f32::NAN), high: single(0.5) };

    let issues = issues_of(config);
    let codes: Vec<&str> = issues.iter().map(|issue| issue.code).collect();
    for code in [
        "empty_crop_width",
        "empty_crop_height",
        "invalid_video_dimension",
        "zero_frame_rate",
        "zero_bit_rate",
        "too_many_key_colors",
        "invalid_color_key_knee",
    ] {
        assert!(codes.contains(&code), "{code} is missing from {codes:?}");
    }
    assert_eq!(issues.len(), 7);
}

#[test]
fn knees_should_lie_in_the_unit_interval() {
    for (low, high, valid) in [
        (0.0, 1.0, true),
        (-0.0, 0.5, true),
        (0.25, 0.25, false),
        (-0.1, 0.5, false),
        (0.5, 1.5, false),
        (0.5, f32::INFINITY, false),
        (f32::NAN, 0.5, false),
    ] {
        let mut config = valid_config();
        config.render.default.color_key_knee =
            ColorKeyKnee { low: single(low), high: single(high) };
        assert_eq!(config.validate().is_ok(), valid, "{low} {high}");
    }
}

#[test]
fn profiles_should_override_the_default_rendering() {
    let mut config = valid_config();
    let mut special = RenderConfig::default();
    special.key_colors.push(RgbColor([10, 20, 30]));
    config.render.profiles.insert("code".to_owned(), special.clone());
    let validated = config.validate().unwrap();

    assert_eq!(validated.render_for_profile(Some("code")), &special);
    assert_eq!(validated.render_for_profile(Some("games")), &RenderConfig::default());
    assert_eq!(validated.render_for_profile(None), &RenderConfig::default());
}

#[test]
fn configuration_errors_should_describe_themselves() {
    assert_eq!(
        ConfigError::RestartRequired { fields: vec!["video".to_owned()] }.message(),
        "configuration fields require process restart: [\"video\"]"
    );
    assert_eq!(
        ConfigError::RestartRequired { fields: vec!["a".to_owned(), "b\n".to_owned()] }.message(),
        "configuration fields require process restart: [\"a\", \"b\\n\"]"
    );
    assert_eq!(
        ConfigError::Invalid { issues: vec![] }.message(),
        "configuration failed semantic validation"
    );
    assert_eq!(
        ConfigError::GenerationExhausted.message(),
        "configuration generation is exhausted"
    );
}

#[test]
fn oversized_and_undecodable_configurations_are_refused() {
    let error = bounded_config(vec![b' '; 1_048_577], "a.toml").unwrap_err();
    assert_eq!(error.message(), "configuration a.toml exceeds the 1048576 byte limit");
    let bytes = vec![b'x', 0xC3, 0x28];
    let reason = String::from_utf8(bytes.clone()).unwrap_err().to_string();
    let error = bounded_config(bytes, "b.toml").unwrap_err();
    assert_eq!(error.message(), format!("configuration b.toml is not UTF-8: {reason}"));
    assert_eq!(error, ConfigError::InvalidUtf8 { path: "b.toml".to_owned(), reason });
    assert_eq!(bounded_config("é".as_bytes().to_vec(), "c.toml").unwrap(), "é");
    assert_eq!(bounded_config(vec![b' '; 1_048_576], "d.toml").unwrap().len(), 1_048_576);
}
