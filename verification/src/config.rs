//! Complete instance configuration, validation, and generation snapshots.
use vstd::prelude::*;
use crate::names::{self, NameMap};
use crate::selector::{self, PolicyModel, SelectorPolicy};
use crate::text;

verus! {

/// One selector profile definition and its executable-path rules.
#[derive(Debug, PartialEq, Eq)]
pub struct SelectionProfileConfig {
    /// Case-insensitive executable-path substrings accepted by this profile.
    pub includes: Vec<String>,
    /// Global case-insensitive vetoes contributed by this profile.
    pub excludes: Vec<String>,
}

/// What the rules of a profile say.
pub struct RulesModel {
    pub includes: Seq<Seq<char>>,
    pub excludes: Seq<Seq<char>>,
}

impl View for SelectionProfileConfig {
    type V = RulesModel;

    open spec fn view(&self) -> RulesModel {
        RulesModel { includes: text::texts(self.includes@), excludes: text::texts(self.excludes@) }
    }
}

impl Clone for SelectionProfileConfig {
    fn clone(&self) -> (copy: SelectionProfileConfig)
        ensures
            copy@ == self@,
    {
        SelectionProfileConfig {
            includes: text::clone_texts(&self.includes),
            excludes: text::clone_texts(&self.excludes),
        }
    }
}

/// User-authored selection configuration.
#[derive(Debug, PartialEq, Eq)]
pub struct SelectionConfig {
    /// Prefer the foreground candidate after profile priority is applied.
    pub prefer_foreground: bool,
    /// Profile names enabled in descending priority order.
    pub enabled: Vec<String>,
    /// Reusable profile definitions keyed by stable human-facing name.
    pub profiles: NameMap<SelectionProfileConfig>,
}

/// What a selection configuration says.
pub struct SelectionModel {
    pub prefer_foreground: bool,
    pub enabled: Seq<Seq<char>>,
    pub profiles: Seq<(Seq<char>, RulesModel)>,
}

impl View for SelectionConfig {
    type V = SelectionModel;

    open spec fn view(&self) -> SelectionModel {
        SelectionModel {
            prefer_foreground: self.prefer_foreground,
            enabled: text::texts(self.enabled@),
            profiles: self.profiles@,
        }
    }
}

impl Clone for SelectionConfig {
    fn clone(&self) -> (copy: SelectionConfig)
        ensures
            copy@ == self@,
    {
        let profiles = self.profiles.clone();
        proof {
            names::lemma_values(self.profiles);
            names::lemma_values(profiles);
            assert forall|i: int| 0 <= i < self.profiles@.len() implies #[trigger] profiles@[i]
                == self.profiles@[i] by {
                assert(profiles@[i].0 == self.profiles@[i].0);
                assert(profiles@[i].1 == profiles.values()[i]@);
                assert(self.profiles@[i].1 == self.profiles.values()[i]@);
            }
            assert(profiles@ =~= self.profiles@);
        }
        SelectionConfig {
            prefer_foreground: self.prefer_foreground,
            enabled: text::clone_texts(&self.enabled),
            profiles,
        }
    }
}

/// One semantic validation failure with a stable machine-readable code.
#[derive(Debug, Clone, PartialEq, Eq)]
pub struct ValidationIssue {
    /// Configuration path identifying the invalid value.
    pub path: String,
    /// Stable code for programmatic handling.
    pub code: &'static str,
    /// Human-readable explanation suitable for operator diagnostics.
    pub message: String,
}

/// What one validation failure says.
pub struct IssueModel {
    pub path: Seq<char>,
    pub code: Seq<char>,
    pub message: Seq<char>,
}

impl View for ValidationIssue {
    type V = IssueModel;

    open spec fn view(&self) -> IssueModel {
        IssueModel { path: self.path@, code: self.code@, message: self.message@ }
    }
}

/// What some validation failures say.
pub open spec fn issue_models(issues: Seq<ValidationIssue>) -> Seq<IssueModel> {
    Seq::new(issues.len(), |i: int| issues[i]@)
}

/// One failure.
pub open spec fn issue(path: Seq<char>, code: Seq<char>, message: Seq<char>) -> IssueModel {
    IssueModel { path, code, message }
}

impl ValidationIssue {
    /// Constructs one issue.
    pub fn new(path: &str, code: &'static str, message: &str) -> (result: ValidationIssue)
        ensures
            result@ == issue(path@, code@, message@),
    {
        ValidationIssue { path: path.to_owned(), code, message: message.to_owned() }
    }
}

/// Appends one issue.
pub(crate) fn push_issue(
    issues: &mut Vec<ValidationIssue>,
    path: &str,
    code: &'static str,
    message: &str,
)
    ensures
        issue_models(final(issues)@) == issue_models(old(issues)@) + seq![
            issue(path@, code@, message@),
        ],
{
    issues.push(ValidationIssue::new(path, code, message));
    assert(issue_models(issues@) =~= issue_models(old(issues)@) + seq![
        issue(path@, code@, message@),
    ]);
}

/// Maximum number of simultaneous key colors supported by the browser shader.
pub const MAX_RENDER_KEYS: usize = 8;

/// Absolute crop rectangle with exclusive maximum edges.
#[derive(Debug, Clone, Copy, PartialEq, Eq, Structural)]
pub struct CropRect {
    /// Inclusive left edge in captured-texture pixels.
    pub min_x: u32,
    /// Inclusive top edge in captured-texture pixels.
    pub min_y: u32,
    /// Exclusive right edge in captured-texture pixels.
    pub max_x: u32,
    /// Exclusive bottom edge in captured-texture pixels.
    pub max_y: u32,
}

/// Source capture and processing that is independent of encoded output geometry.
#[derive(Debug, Clone, Copy, PartialEq, Eq)]
pub struct SourceConfig {
    /// Whether the mouse cursor is captured.
    pub capture_cursor: bool,
    /// Absolute captured-texture rectangle, or the complete texture when absent.
    pub crop: Option<CropRect>,
}

impl Default for SourceConfig {
    fn default() -> (source: SourceConfig)
        ensures
            source == (SourceConfig { capture_cursor: false, crop: None }),
    {
        SourceConfig { capture_cursor: false, crop: None }
    }
}

/// Fixed H.264 output settings owned by one process generation.
#[derive(Debug, Clone, Copy, PartialEq, Eq)]
pub struct VideoConfig {
    /// Encoded width in pixels.
    pub width: u32,
    /// Encoded height in pixels.
    pub height: u32,
    /// Nominal encoded frame rate.
    pub frame_rate: u32,
    /// Optional H.264 bitrate override in bits per second.
    pub bit_rate: Option<u32>,
}

impl VideoConfig {
    /// The override, or a quarter bit per pixel and frame, at most `u32::MAX`.
    pub open spec fn spec_target_bit_rate(self) -> int {
        match self.bit_rate {
            Some(bit_rate) => bit_rate as int,
            None => {
                let inferred = self.width * self.height * self.frame_rate / 4;
                if inferred > u32::MAX {
                    u32::MAX as int
                } else {
                    inferred
                }
            },
        }
    }

    /// Returns the configured bitrate or a high-fidelity target inferred at a quarter bit per
    /// pixel per frame. Extreme inputs saturate rather than overflow.
    pub fn target_bit_rate(&self) -> (bit_rate: u32)
        ensures
            bit_rate == self.spec_target_bit_rate(),
    {
        match self.bit_rate {
            Some(bit_rate) => bit_rate,
            None => {
                proof {
                    lemma_pixel_rate_fits(self.width as int, self.height as int, self.frame_rate as int);
                }
                let pixels: u128 = self.width as u128 * self.height as u128;
                let pixel_frames: u128 = pixels * self.frame_rate as u128;
                let inferred: u128 = pixel_frames / 4;
                if inferred > 0xFFFF_FFFF {
                    u32::MAX
                } else {
                    inferred as u32
                }
            },
        }
    }

    /// Whether two settings are the same.
    pub fn same_as(&self, other: &VideoConfig) -> (same: bool)
        ensures
            same == (*self == *other),
    {
        let same_rate = match (self.bit_rate, other.bit_rate) {
            (Some(left), Some(right)) => left == right,
            (None, None) => true,
            _ => false,
        };
        self.width == other.width && self.height == other.height && self.frame_rate
            == other.frame_rate && same_rate
    }
}

proof fn lemma_pixel_rate_fits(width: int, height: int, frame_rate: int)
    requires
        0 <= width <= u32::MAX,
        0 <= height <= u32::MAX,
        0 <= frame_rate <= u32::MAX,
    ensures
        0 <= width * height <= 0xFFFF_FFFE_0000_0001,
        0 <= width * height * frame_rate <= u128::MAX,
{
    assert(0 <= width * height <= 0xFFFF_FFFF * 0xFFFF_FFFF) by (nonlinear_arith)
        requires
            0 <= width <= 0xFFFF_FFFF,
            0 <= height <= 0xFFFF_FFFF,
    ;
    let pixels = width * height;
    assert(0 <= pixels * frame_rate <= 0xFFFF_FFFE_0000_0001 * 0xFFFF_FFFF) by (nonlinear_arith)
        requires
            0 <= pixels <= 0xFFFF_FFFE_0000_0001,
            0 <= frame_rate <= 0xFFFF_FFFF,
    ;
}

/// One sRGB color represented exactly as three eight-bit channels.
#[derive(Debug, Clone, Copy, PartialEq, Eq)]
pub struct RgbColor(pub [u8; 3]);

impl View for RgbColor {
    type V = (u8, u8, u8);

    open spec fn view(&self) -> (u8, u8, u8) {
        (self.0@[0], self.0@[1], self.0@[2])
    }
}

impl RgbColor {
    /// Whether two colors are the same.
    pub fn same_as(&self, other: &RgbColor) -> (same: bool)
        ensures
            same == (self@ == other@),
    {
        self.0[0] == other.0[0] && self.0[1] == other.0[1] && self.0[2] == other.0[2]
    }
}

/// What some colors say.
pub open spec fn color_models(colors: Seq<RgbColor>) -> Seq<(u8, u8, u8)> {
    Seq::new(colors.len(), |i: int| colors[i]@)
}

/// What an optional color says.
pub open spec fn optional_color(color: Option<RgbColor>) -> Option<(u8, u8, u8)> {
    match color {
        Some(color) => Some(color@),
        None => None,
    }
}

/// An IEEE 754 single-precision number, held by its bit pattern.
#[derive(Debug, Clone, Copy)]
pub struct Single {
    bits: u32,
}

/// The bit pattern of one.
pub const SINGLE_ONE: u32 = 0x3F80_0000;

/// The bit pattern of infinity.
pub const SINGLE_INFINITY: u32 = 0x7F80_0000;

impl View for Single {
    type V = u32;

    closed spec fn view(&self) -> u32 {
        self.bits
    }
}

/// The bit pattern without its sign.
pub open spec fn magnitude(bits: u32) -> int {
    bits as int % 0x8000_0000
}

/// Where a number that is no NaN stands among the others: finite numbers and infinities
/// compare as these values do, and both zeros stand at zero.
pub open spec fn ordinal(bits: u32) -> int {
    if bits >= 0x8000_0000u32 {
        -magnitude(bits)
    } else {
        magnitude(bits)
    }
}

/// Whether a number is neither infinite nor NaN.
pub open spec fn is_finite(bits: u32) -> bool {
    magnitude(bits) < SINGLE_INFINITY
}

/// Whether two numbers compare equal: neither is NaN and they stand in the same place.
pub open spec fn equal_numbers(left: u32, right: u32) -> bool {
    magnitude(left) <= SINGLE_INFINITY && magnitude(right) <= SINGLE_INFINITY && ordinal(left)
        == ordinal(right)
}

impl Single {
    /// The number with a bit pattern.
    pub fn from_bits(bits: u32) -> (number: Single)
        ensures
            number@ == bits,
    {
        Single { bits }
    }

    /// Returns the bit pattern.
    pub fn to_bits(&self) -> (bits: u32)
        ensures
            bits == self@,
    {
        self.bits
    }

    fn place(&self) -> (place: i64)
        ensures
            place == ordinal(self@),
    {
        let magnitude: i64 = (self.bits % 0x8000_0000) as i64;
        if self.bits >= 0x8000_0000 {
            0 - magnitude
        } else {
            magnitude
        }
    }

    fn finite(&self) -> (finite: bool)
        ensures
            finite == is_finite(self@),
    {
        self.bits % 0x8000_0000 < SINGLE_INFINITY
    }

    /// Whether two numbers compare equal.
    pub fn equals(&self, other: &Single) -> (equal: bool)
        ensures
            equal == equal_numbers(self@, other@),
    {
        self.bits % 0x8000_0000 <= SINGLE_INFINITY && other.bits % 0x8000_0000 <= SINGLE_INFINITY
            && self.place() == other.place()
    }
}

impl PartialEq for Single {
    fn eq(&self, other: &Single) -> (equal: bool) {
        self.equals(other)
    }
}

impl vstd::std_specs::cmp::PartialEqSpecImpl for Single {
    open spec fn obeys_eq_spec() -> bool {
        true
    }

    open spec fn eq_spec(&self, other: &Single) -> bool {
        equal_numbers(self@, other@)
    }
}

/// Smoothstep knee over the color-key alpha estimate.
#[derive(Debug, Clone, Copy, PartialEq)]
pub struct ColorKeyKnee {
    /// Values at or below this edge become fully transparent.
    pub low: Single,
    /// Values at or above this edge become fully opaque.
    pub high: Single,
}

impl ColorKeyKnee {
    /// Whether the edges are finite with `0 <= low < high <= 1`.
    pub open spec fn valid(self) -> bool {
        &&& is_finite(self.low@)
        &&& is_finite(self.high@)
        &&& 0 <= ordinal(self.low@) <= SINGLE_ONE
        &&& 0 <= ordinal(self.high@) <= SINGLE_ONE
        &&& ordinal(self.low@) < ordinal(self.high@)
    }

    fn check(&self) -> (valid: bool)
        ensures
            valid == self.valid(),
    {
        let low: i64 = self.low.place();
        let high: i64 = self.high.place();
        let one: i64 = SINGLE_ONE as i64;
        self.low.finite() && self.high.finite() && 0 <= low && low <= one && 0 <= high && high <= one
            && low < high
    }
}

impl Default for ColorKeyKnee {
    /// From two hundredths to ninety-eight hundredths.
    fn default() -> (knee: ColorKeyKnee)
        ensures
            knee.low@ == 0x3CA3_D70A,
            knee.high@ == 0x3F7A_E148,
            knee.valid(),
    {
        ColorKeyKnee { low: Single::from_bits(0x3CA3_D70A), high: Single::from_bits(0x3F7A_E148) }
    }
}

/// Browser color-key parameters sent independently of decoder configuration.
#[derive(Debug, PartialEq)]
pub struct RenderConfig {
    /// sRGB colors removed by the browser shader.
    pub key_colors: Vec<RgbColor>,
    /// Smoothstep range shaping the browser-generated alpha channel.
    pub color_key_knee: ColorKeyKnee,
    /// Optional constant sRGB color applied while preserving computed alpha.
    pub binarization_color: Option<RgbColor>,
}

/// What render parameters say.
pub struct RenderModel {
    pub key_colors: Seq<(u8, u8, u8)>,
    pub color_key_knee: ColorKeyKnee,
    pub binarization_color: Option<(u8, u8, u8)>,
}

impl View for RenderConfig {
    type V = RenderModel;

    open spec fn view(&self) -> RenderModel {
        RenderModel {
            key_colors: color_models(self.key_colors@),
            color_key_knee: self.color_key_knee,
            binarization_color: optional_color(self.binarization_color),
        }
    }
}

impl RenderModel {
    /// Whether two sets of parameters are equal, the knee edges as numbers.
    pub open spec fn equals(self, other: RenderModel) -> bool {
        &&& self.key_colors == other.key_colors
        &&& equal_numbers(self.color_key_knee.low@, other.color_key_knee.low@)
        &&& equal_numbers(self.color_key_knee.high@, other.color_key_knee.high@)
        &&& self.binarization_color == other.binarization_color
    }
}

impl RenderConfig {
    /// Whether two sets of parameters are equal.
    pub fn equals(&self, other: &RenderConfig) -> (equal: bool)
        ensures
            equal == self@.equals(other@),
    {
        let same_color = match (&self.binarization_color, &other.binarization_color) {
            (Some(left), Some(right)) => left.same_as(right),
            (None, None) => true,
            _ => false,
        };
        same_color && self.color_key_knee.low.equals(&other.color_key_knee.low)
            && self.color_key_knee.high.equals(&other.color_key_knee.high) && same_colors(
            &self.key_colors,
            &other.key_colors,
        )
    }
}

impl Clone for RenderConfig {
    fn clone(&self) -> (copy: RenderConfig)
        ensures
            copy@ == self@,
    {
        let key_colors = vstd::slice::slice_to_vec(self.key_colors.as_slice());
        RenderConfig {
            key_colors,
            color_key_knee: self.color_key_knee,
            binarization_color: self.binarization_color,
        }
    }
}

fn same_colors(left: &Vec<RgbColor>, right: &Vec<RgbColor>) -> (same: bool)
    ensures
        same == (color_models(left@) == color_models(right@)),
{
    if left.len() != right.len() {
        assert(color_models(left@).len() != color_models(right@).len());
        return false;
    }
    let mut i: usize = 0;
    while i < left.len()
        invariant
            left@.len() == right@.len(),
            i <= left@.len(),
            forall|k: int| 0 <= k < i ==> #[trigger] color_models(left@)[k] == color_models(right@)[k],
        decreases left@.len() - i,
    {
        if !left[i].same_as(&right[i]) {
            assert(color_models(left@)[i as int] != color_models(right@)[i as int]);
            return false;
        }
        i = i + 1;
    }
    assert(color_models(left@) =~= color_models(right@));
    true
}

impl Default for RenderConfig {
    fn default() -> (render: RenderConfig)
        ensures
            render@.key_colors == Seq::<(u8, u8, u8)>::empty(),
            render@.color_key_knee.low@ == 0x3CA3_D70A,
            render@.color_key_knee.high@ == 0x3F7A_E148,
            render@.binarization_color is None,
    {
        RenderConfig {
            key_colors: Vec::new(),
            color_key_knee: ColorKeyKnee::default(),
            binarization_color: None,
        }
    }
}

/// Default browser rendering parameters plus per-profile overrides.
#[derive(Debug, PartialEq)]
pub struct RenderProfiles {
    /// Rendering parameters used while waiting or without an override.
    pub default: RenderConfig,
    /// Complete rendering overrides keyed by selector profile name.
    pub profiles: NameMap<RenderConfig>,
}

impl Clone for RenderProfiles {
    fn clone(&self) -> (copy: RenderProfiles)
        ensures
            copy@ == self@,
    {
        let profiles = self.profiles.clone();
        proof {
            names::lemma_values(self.profiles);
            names::lemma_values(profiles);
            assert forall|i: int| 0 <= i < self.profiles@.len() implies #[trigger] profiles@[i]
                == self.profiles@[i] by {
                assert(profiles@[i].0 == self.profiles@[i].0);
                assert(profiles@[i].1 == profiles.values()[i]@);
                assert(self.profiles@[i].1 == self.profiles.values()[i]@);
            }
            assert(profiles@ =~= self.profiles@);
        }
        RenderProfiles { default: self.default.clone(), profiles }
    }
}

/// What a set of render parameters says.
pub struct RendersModel {
    pub default: RenderModel,
    pub profiles: Seq<(Seq<char>, RenderModel)>,
}

impl View for RenderProfiles {
    type V = RendersModel;

    open spec fn view(&self) -> RendersModel {
        RendersModel { default: self.default@, profiles: self.profiles@ }
    }
}

impl RendersModel {
    /// The parameters for a profile: its override, or the default.
    pub open spec fn chosen(self, profile: Option<Seq<char>>) -> RenderModel {
        match profile {
            Some(name) => match names::lookup(self.profiles, name) {
                Some(render) => render,
                None => self.default,
            },
            None => self.default,
        }
    }
}

/// The characters of an optional text.
pub open spec fn optional_text(text: Option<&str>) -> Option<Seq<char>> {
    match text {
        Some(text) => Some(text@),
        None => None,
    }
}

impl RenderProfiles {
    /// Returns the complete render configuration for a selected profile.
    pub fn for_profile(&self, profile: Option<&str>) -> (render: &RenderConfig)
        ensures
            render@ == self@.chosen(optional_text(profile)),
    {
        match profile {
            Some(name) => match self.profiles.get(name) {
                Some(render) => render,
                None => &self.default,
            },
            None => &self.default,
        }
    }
}

impl Default for RenderProfiles {
    fn default() -> (render: RenderProfiles)
        ensures
            render@.default.key_colors == Seq::<(u8, u8, u8)>::empty(),
            render@.default.color_key_knee.low@ == 0x3CA3_D70A,
            render@.default.color_key_knee.high@ == 0x3F7A_E148,
            render@.default.binarization_color is None,
            render@.profiles == Seq::<(Seq<char>, RenderModel)>::empty(),
    {
        RenderProfiles { default: RenderConfig::default(), profiles: NameMap::new() }
    }
}

/// One complete live capture-instance configuration.
#[derive(Debug, PartialEq)]
pub struct InstanceConfig {
    /// Policy controlling which observed window owns the stream.
    pub selection: SelectionConfig,
    /// Source capture and processing that may change without recreating the encoder.
    pub source: SourceConfig,
    /// Fixed encoded output settings that require a process restart to change.
    pub video: VideoConfig,
    /// Browser rendering parameters, optionally specialized by selected profile.
    pub render: RenderProfiles,
}

impl Clone for InstanceConfig {
    fn clone(&self) -> (copy: InstanceConfig)
        ensures
            copy@ == self@,
    {
        InstanceConfig {
            selection: self.selection.clone(),
            source: self.source,
            video: self.video,
            render: self.render.clone(),
        }
    }
}

/// What a complete configuration says.
pub struct InstanceModel {
    pub selection: SelectionModel,
    pub source: SourceConfig,
    pub video: VideoConfig,
    pub render: RendersModel,
}

impl View for InstanceConfig {
    type V = InstanceModel;

    open spec fn view(&self) -> InstanceModel {
        InstanceModel {
            selection: self.selection@,
            source: self.source,
            video: self.video,
            render: self.render@,
        }
    }
}

/// One failure where a condition holds.
pub open spec fn issue_if(condition: bool, found: IssueModel) -> Seq<IssueModel> {
    if condition {
        seq![found]
    } else {
        Seq::empty()
    }
}

/// What is wrong with a crop rectangle.
pub open spec fn source_issues(source: SourceConfig) -> Seq<IssueModel> {
    match source.crop {
        None => Seq::empty(),
        Some(crop) => issue_if(
            crop.max_x <= crop.min_x,
            issue(
                "source.crop.max_x"@,
                "empty_crop_width"@,
                "max_x must be greater than min_x"@,
            ),
        ) + issue_if(
            crop.max_y <= crop.min_y,
            issue(
                "source.crop.max_y"@,
                "empty_crop_height"@,
                "max_y must be greater than min_y"@,
            ),
        ),
    }
}

/// Whether a dimension suits NV12, H.264 and the wire format.
pub open spec fn encodable(dimension: u32) -> bool {
    0 < dimension <= u16::MAX && dimension % 2 == 0
}

/// What is wrong with a dimension.
pub open spec fn dimension_issue(path: Seq<char>, dimension: u32) -> Seq<IssueModel> {
    issue_if(
        !encodable(dimension),
        issue(
            path,
            "invalid_video_dimension"@,
            "dimension must be a non-zero even value representable as u16"@,
        ),
    )
}

/// What is wrong with output settings.
pub open spec fn video_issues(video: VideoConfig) -> Seq<IssueModel> {
    dimension_issue("video.width"@, video.width) + dimension_issue("video.height"@, video.height)
        + issue_if(
        video.frame_rate == 0,
        issue("video.frame_rate"@, "zero_frame_rate"@, "frame_rate must be non-zero"@),
    ) + issue_if(
        video.bit_rate == Some(0u32),
        issue("video.bit_rate"@, "zero_bit_rate"@, "bit_rate override must be non-zero"@),
    )
}

/// What is wrong with one set of browser shader parameters.
pub open spec fn render_config_issues(path: Seq<char>, render: RenderModel) -> Seq<IssueModel> {
    issue_if(
        render.key_colors.len() > MAX_RENDER_KEYS,
        issue(
            path + ".key_colors"@,
            "too_many_key_colors"@,
            "at most 8 key colors are supported"@,
        ),
    ) + issue_if(
        !render.color_key_knee.valid(),
        issue(
            path + ".color_key_knee"@,
            "invalid_color_key_knee"@,
            "knee must contain finite 0 <= low < high <= 1 values"@,
        ),
    )
}

/// What is wrong with the first `count` render overrides: the name of each must be defined, and
/// its parameters must suit the shader.
pub open spec fn override_issues(
    definitions: Seq<(Seq<char>, RulesModel)>,
    overrides: Seq<(Seq<char>, RenderModel)>,
    count: int,
) -> Seq<IssueModel>
    decreases count,
{
    if count <= 0 {
        Seq::empty()
    } else {
        let (name, render) = overrides[count - 1];
        let path = "render.profiles."@ + name;
        override_issues(definitions, overrides, count - 1) + issue_if(
            names::lookup(definitions, name) is None,
            issue(
                path,
                "unknown_render_profile"@,
                "render override must name a defined selection profile"@,
            ),
        ) + render_config_issues(path, render)
    }
}

/// What is wrong with the render parameters of a configuration.
pub open spec fn render_issues(
    definitions: Seq<(Seq<char>, RulesModel)>,
    render: RendersModel,
) -> Seq<IssueModel> {
    render_config_issues("render.default"@, render.default) + override_issues(
        definitions,
        render.profiles,
        render.profiles.len() as int,
    )
}

impl InstanceModel {
    /// Everything that is wrong with this configuration, in order.
    pub open spec fn issues(self) -> Seq<IssueModel> {
        self.selection.issues() + source_issues(self.source) + video_issues(self.video)
            + render_issues(self.selection.definitions(), self.render)
    }

    /// This configuration with trimmed profile names and rules.
    pub open spec fn canonical(self) -> InstanceModel {
        InstanceModel { selection: self.selection.canonical(), ..self }
    }
}

fn push_issue_if(
    issues: &mut Vec<ValidationIssue>,
    condition: bool,
    path: &str,
    code: &'static str,
    message: &str,
)
    ensures
        issue_models(final(issues)@) == issue_models(old(issues)@) + issue_if(
            condition,
            issue(path@, code@, message@),
        ),
{
    if condition {
        push_issue(issues, path, code, message);
    } else {
        assert(issue_models(issues@) + Seq::<IssueModel>::empty() =~= issue_models(issues@));
    }
}

/// Validates crop geometry before a platform host clamps it to a live texture.
fn validate_source(source: &SourceConfig, issues: &mut Vec<ValidationIssue>)
    ensures
        issue_models(final(issues)@) == issue_models(old(issues)@) + source_issues(*source),
{
    match source.crop {
        None => {
            assert(issue_models(issues@) + Seq::<IssueModel>::empty() =~= issue_models(issues@));
        },
        Some(crop) => {
            push_issue_if(
                issues,
                crop.max_x <= crop.min_x,
                "source.crop.max_x",
                "empty_crop_width",
                "max_x must be greater than min_x",
            );
            push_issue_if(
                issues,
                crop.max_y <= crop.min_y,
                "source.crop.max_y",
                "empty_crop_height",
                "max_y must be greater than min_y",
            );
            assert(issue_models(issues@) =~= issue_models(old(issues)@) + source_issues(*source));
        },
    }
}

/// Validates constraints shared by NV12, H.264, and the private wire format.
fn validate_video(video: &VideoConfig, issues: &mut Vec<ValidationIssue>)
    ensures
        issue_models(final(issues)@) == issue_models(old(issues)@) + video_issues(*video),
{
    push_issue_if(
        issues,
        video.width == 0 || video.width > 65_535 || video.width % 2 != 0,
        "video.width",
        "invalid_video_dimension",
        "dimension must be a non-zero even value representable as u16",
    );
    push_issue_if(
        issues,
        video.height == 0 || video.height > 65_535 || video.height % 2 != 0,
        "video.height",
        "invalid_video_dimension",
        "dimension must be a non-zero even value representable as u16",
    );
    push_issue_if(
        issues,
        video.frame_rate == 0,
        "video.frame_rate",
        "zero_frame_rate",
        "frame_rate must be non-zero",
    );
    let zero_bit_rate = match video.bit_rate {
        Some(bit_rate) => bit_rate == 0,
        None => false,
    };
    push_issue_if(
        issues,
        zero_bit_rate,
        "video.bit_rate",
        "zero_bit_rate",
        "bit_rate override must be non-zero",
    );
    assert(issue_models(issues@) =~= issue_models(old(issues)@) + video_issues(*video));
}

/// Validates one complete set of browser shader parameters.
fn validate_render_config(path: &str, render: &RenderConfig, issues: &mut Vec<ValidationIssue>)
    ensures
        issue_models(final(issues)@) == issue_models(old(issues)@) + render_config_issues(
            path@,
            render@,
        ),
{
    let colors_path = text::join(path, ".key_colors");
    push_issue_if(
        issues,
        render.key_colors.len() > MAX_RENDER_KEYS,
        colors_path.as_str(),
        "too_many_key_colors",
        "at most 8 key colors are supported",
    );
    let knee_path = text::join(path, ".color_key_knee");
    push_issue_if(
        issues,
        !render.color_key_knee.check(),
        knee_path.as_str(),
        "invalid_color_key_knee",
        "knee must contain finite 0 <= low < high <= 1 values",
    );
    assert(issue_models(issues@) =~= issue_models(old(issues)@) + render_config_issues(
        path@,
        render@,
    ));
}

/// Validates renderer limits and ensures overrides name defined selector profiles.
fn validate_render(
    selection: &SelectionConfig,
    render: &RenderProfiles,
    issues: &mut Vec<ValidationIssue>,
)
    ensures
        issue_models(final(issues)@) == issue_models(old(issues)@) + render_issues(
            selection@.profiles,
            render@,
        ),
{
    validate_render_config("render.default", &render.default, issues);
    let ghost reported = issue_models(issues@);
    let ghost definitions = selection@.profiles;
    let ghost overrides = render@.profiles;
    let mut i: usize = 0;
    assert(reported + override_issues(definitions, overrides, 0) =~= reported);
    while i < render.profiles.len()
        invariant
            i <= overrides.len(),
            definitions == selection@.profiles,
            overrides == render.profiles@,
            issue_models(issues@) == reported + override_issues(definitions, overrides, i as int),
        decreases overrides.len() - i,
    {
        let ghost so_far = issue_models(issues@);
        let name = render.profiles.name_at(i);
        let path = text::join("render.profiles.", name);
        push_issue_if(
            issues,
            !selection.profiles.contains(name),
            path.as_str(),
            "unknown_render_profile",
            "render override must name a defined selection profile",
        );
        validate_render_config(path.as_str(), render.profiles.value_at(i), issues);
        assert(reported + override_issues(definitions, overrides, i + 1) =~= issue_models(issues@));
        i = i + 1;
    }
    assert(issue_models(issues@) =~= issue_models(old(issues)@) + render_issues(
        definitions,
        render@,
    ));
}

/// Maximum accepted configuration document in bytes.
pub const MAX_CONFIG_BYTES: usize = 1_048_576;

/// Typed failures produced while loading, validating, or replacing configuration.
#[derive(Debug, Clone, PartialEq, Eq)]
pub enum ConfigError {
    /// The bounded configuration document exceeded the accepted limit.
    TooLarge {
        /// Oversized document path.
        path: String,
        /// Maximum permitted byte count.
        limit: usize,
    },
    /// The initial configuration document was not UTF-8.
    InvalidUtf8 {
        /// Invalid document path.
        path: String,
        /// Decoder diagnostic.
        reason: String,
    },
    /// One or more semantic invariants were rejected together.
    Invalid {
        /// Complete deterministic issue list for the candidate.
        issues: Vec<ValidationIssue>,
    },
    /// A valid candidate changed startup-only media settings.
    RestartRequired {
        /// Top-level fields that require a new process generation.
        fields: Vec<String>,
    },
    /// The generation counter cannot advance without losing monotonicity.
    GenerationExhausted,
}

impl ConfigError {
    /// The diagnostic text of this failure.
    pub open spec fn text(self) -> Seq<char> {
        match self {
            ConfigError::TooLarge { path, limit } => "configuration "@ + path@ + " exceeds the "@
                + text::decimal(limit as nat) + " byte limit"@,
            ConfigError::InvalidUtf8 { path, reason } => "configuration "@ + path@
                + " is not UTF-8: "@ + reason@,
            ConfigError::Invalid { .. } => "configuration failed semantic validation"@,
            ConfigError::RestartRequired { fields } =>
                "configuration fields require process restart: ["@ + text::joined(
                text::quoted_all(text::texts(fields@)),
                ", "@,
            ) + "]"@,
            ConfigError::GenerationExhausted => "configuration generation is exhausted"@,
        }
    }

    /// Describes this failure.
    pub fn message(&self) -> (message: String)
        ensures
            message@ == self.text(),
    {
        match self {
            ConfigError::TooLarge { path, limit } => {
                let mut message = "configuration ".to_owned();
                text::push_text(&mut message, path.as_str());
                text::push_text(&mut message, " exceeds the ");
                text::push_decimal(&mut message, *limit as u64);
                text::push_text(&mut message, " byte limit");
                message
            },
            ConfigError::InvalidUtf8 { path, reason } => {
                let mut message = "configuration ".to_owned();
                text::push_text(&mut message, path.as_str());
                text::push_text(&mut message, " is not UTF-8: ");
                text::push_text(&mut message, reason.as_str());
                message
            },
            ConfigError::Invalid { .. } => "configuration failed semantic validation".to_owned(),
            ConfigError::RestartRequired { fields } => {
                let mut message = "configuration fields require process restart: [".to_owned();
                let quoted = text::quote_all(fields);
                let list = text::join_all(&quoted, ", ");
                text::push_text(&mut message, list.as_str());
                text::push_text(&mut message, "]");
                message
            },
            ConfigError::GenerationExhausted => "configuration generation is exhausted".to_owned(),
        }
    }
}

/// Accepts the bytes read from an instance configuration: at most [`MAX_CONFIG_BYTES`], in UTF-8.
pub fn bounded_config(bytes: Vec<u8>, path: &str) -> (result: Result<String, ConfigError>)
    ensures
        match result {
            Ok(document) => bytes@.len() <= MAX_CONFIG_BYTES && vstd::utf8::valid_utf8(bytes@)
                && document@ == vstd::utf8::decode_utf8(bytes@),
            Err(ConfigError::TooLarge { path: place, limit }) => bytes@.len() > MAX_CONFIG_BYTES
                && place@ == path@ && limit == MAX_CONFIG_BYTES,
            Err(ConfigError::InvalidUtf8 { path: place, reason }) => bytes@.len()
                <= MAX_CONFIG_BYTES && !vstd::utf8::valid_utf8(bytes@) && place@ == path@ && reason@
                == text::utf8_fault(bytes@),
            Err(_) => false,
        },
{
    if bytes.len() > MAX_CONFIG_BYTES {
        return Err(ConfigError::TooLarge { path: path.to_owned(), limit: MAX_CONFIG_BYTES });
    }
    match text::decode_utf8(bytes) {
        Ok(document) => Ok(document),
        Err(reason) => Err(ConfigError::InvalidUtf8 { path: path.to_owned(), reason }),
    }
}

impl InstanceConfig {
    /// Validates and canonicalizes one complete candidate.
    ///
    /// Validation never returns a partially usable configuration. Profile keys, enabled names,
    /// and matching rules are trimmed before storage.
    pub fn validate(self) -> (result: Result<ValidatedInstanceConfig, ConfigError>)
        ensures
            match result {
                Ok(validated) => self@.issues().len() == 0 && validated@ == self@.canonical()
                    && validated.policy() == self@.selection.policy(),
                Err(ConfigError::Invalid { issues }) => self@.issues().len() > 0 && issue_models(
                    issues@,
                ) == self@.issues(),
                Err(_) => false,
            },
    {
        let ghost model = self@;
        let mut config = self;
        let mut issues: Vec<ValidationIssue> = Vec::new();
        let selector = selector::validate_selection(&mut config.selection, &mut issues);
        validate_source(&config.source, &mut issues);
        validate_video(&config.video, &mut issues);
        validate_render(&config.selection, &config.render, &mut issues);
        assert(issue_models(issues@) =~= model.issues());
        if issues.len() > 0 {
            return Err(ConfigError::Invalid { issues });
        }
        proof {
            selector::law_canonical_selections_are_stable(model.selection);
            lemma_canonical_instances_are_clean(model);
        }
        Ok(ValidatedInstanceConfig { config, selector })
    }
}

proof fn lemma_canonical_instances_are_clean(model: InstanceModel)
    requires
        model.issues().len() == 0,
    ensures
        model.canonical().issues().len() == 0,
        model.canonical().canonical() == model.canonical(),
        model.selection.issues().len() == 0,
{
    selector::law_canonical_selections_are_stable(model.selection);
    assert(model.canonical().selection.definitions() == model.selection.definitions());
}

/// The canonical form of an accepted configuration is accepted again and stays as it is.
pub proof fn law_accepted_configurations_are_stable(model: InstanceModel)
    requires
        model.issues().len() == 0,
    ensures
        model.canonical().issues().len() == 0,
        model.canonical().canonical() == model.canonical(),
        model.canonical().selection.policy() == model.selection.policy(),
{
    lemma_canonical_instances_are_clean(model);
    selector::law_canonical_selections_are_stable(model.selection);
}

/// A complete validated configuration plus normalized selector policy.
#[derive(Debug, PartialEq)]
pub struct ValidatedInstanceConfig {
    config: InstanceConfig,
    selector: SelectorPolicy,
}

impl View for ValidatedInstanceConfig {
    type V = InstanceModel;

    closed spec fn view(&self) -> InstanceModel {
        self.config@
    }
}

impl ValidatedInstanceConfig {
    /// The configuration is accepted and canonical, and the policy is its own.
    #[verifier::type_invariant]
    pub open spec fn well_formed(&self) -> bool {
        &&& self@.issues().len() == 0
        &&& self@.canonical() == self@
        &&& self.policy() == self@.selection.policy()
    }

    /// The policy of this configuration.
    pub closed spec fn policy(&self) -> PolicyModel {
        self.selector@
    }

    /// Returns the canonical configuration.
    pub fn config(&self) -> (config: &InstanceConfig)
        ensures
            config@ == self@,
    {
        &self.config
    }

    /// Returns the normalized selection policy.
    pub fn selector(&self) -> (policy: &SelectorPolicy)
        ensures
            policy@ == self.policy(),
            policy@ == self@.selection.policy(),
    {
        proof {
            use_type_invariant(self);
        }
        &self.selector
    }

    /// Validates a replacement against this process generation.
    ///
    /// Video settings remain fixed, so a candidate changing them is rejected with an explicit
    /// restart boundary after semantic validation.
    pub fn validate_replacement(&self, candidate: InstanceConfig) -> (result: Result<
        ValidatedInstanceConfig,
        ConfigError,
    >)
        ensures
            match result {
                Ok(validated) => candidate@.issues().len() == 0 && candidate@.video == self@.video
                    && validated@ == candidate@.canonical() && validated.policy()
                    == candidate@.selection.policy(),
                Err(ConfigError::Invalid { issues }) => candidate@.issues().len() > 0
                    && issue_models(issues@) == candidate@.issues(),
                Err(ConfigError::RestartRequired { fields }) => candidate@.issues().len() == 0
                    && candidate@.video != self@.video && text::texts(fields@) == seq!["video"@],
                Err(_) => false,
            },
    {
        match candidate.validate() {
            Err(error) => Err(error),
            Ok(validated) => {
                if !validated.config.video.same_as(&self.config.video) {
                    let mut fields: Vec<String> = Vec::new();
                    fields.push("video".to_owned());
                    assert(text::texts(fields@) =~= seq!["video"@]);
                    return Err(ConfigError::RestartRequired { fields });
                }
                Ok(validated)
            },
        }
    }

    /// Returns browser parameters for a selected profile or the default.
    pub fn render_for_profile(&self, profile: Option<&str>) -> (render: &RenderConfig)
        ensures
            render@ == self@.render.chosen(optional_text(profile)),
    {
        self.config.render.for_profile(profile)
    }
}

impl Clone for ValidatedInstanceConfig {
    fn clone(&self) -> (copy: ValidatedInstanceConfig)
        ensures
            copy@ == self@,
            copy.policy() == self.policy(),
    {
        proof {
            use_type_invariant(self);
        }
        ValidatedInstanceConfig { config: self.config.clone(), selector: self.selector.clone() }
    }
}

/// One atomically published configuration generation.
#[derive(Debug, PartialEq)]
pub struct ConfigSnapshot {
    /// Monotonically increasing generation, beginning at one.
    pub generation: u64,
    /// Fully validated configuration visible to the media host.
    pub config: ValidatedInstanceConfig,
}

impl Clone for ConfigSnapshot {
    fn clone(&self) -> (copy: ConfigSnapshot)
        ensures
            copy.generation == self.generation,
            copy.config@ == self.config@,
            copy.config.policy() == self.config.policy(),
    {
        ConfigSnapshot { generation: self.generation, config: self.config.clone() }
    }
}

impl ConfigSnapshot {
    /// Constructs the initial generation for a validated startup configuration.
    pub fn initial(config: ValidatedInstanceConfig) -> (snapshot: ConfigSnapshot)
        ensures
            snapshot.generation == 1,
            snapshot.config == config,
    {
        ConfigSnapshot { generation: 1, config }
    }

    /// Produces the next accepted generation without changing this snapshot.
    pub fn replaced(&self, config: ValidatedInstanceConfig) -> (result: Result<
        ConfigSnapshot,
        ConfigError,
    >)
        ensures
            match result {
                Ok(next) => next.generation == self.generation + 1 && next.config == config,
                Err(error) => self.generation == u64::MAX && error
                    == ConfigError::GenerationExhausted,
            },
    {
        match self.generation.checked_add(1) {
            Some(generation) => Ok(ConfigSnapshot { generation, config }),
            None => Err(ConfigError::GenerationExhausted),
        }
    }
}

/// Whether browser shader parameters stay within its limits: eight key colors at most, and a knee
/// that rises between zero and one. A knee edge of negative zero is zero.
pub open spec fn suits_shader(render: RenderModel) -> bool {
    let low = render.color_key_knee.low@;
    let high = render.color_key_knee.high@;
    &&& render.key_colors.len() <= 8
    &&& low < high || low == 0x8000_0000
    &&& low <= 0x3F80_0000 || low == 0x8000_0000
    &&& 0 < high <= 0x3F80_0000
}

/// Whether a render override suits the shader and is that of an authored profile.
pub open spec fn suits_profiles(
    profiles: Seq<(Seq<char>, RulesModel)>,
    overridden: (Seq<char>, RenderModel),
) -> bool {
    suits_shader(overridden.1) && exists|p: int|
        0 <= p < profiles.len() && text::trimmed((#[trigger] profiles[p]).0) == overridden.0
}

/// A configuration is accepted exactly if its selection is found faultless, a crop has an area, the
/// output has even dimensions from 2 to 65534, some frame rate and no bit rate of zero, and all
/// render parameters suit the shader, the overrides under names of authored profiles. Accepted, it
/// keeps all but the white space around profile names and rules.
pub proof fn law_sound_configurations_are_accepted(
    config: InstanceConfig,
    selection: &mut SelectionConfig,
    issues: &mut Vec<ValidationIssue>,
    policy: SelectorPolicy,
    result: Result<ValidatedInstanceConfig, ConfigError>,
)
    requires
        *old(selection) == config.selection,
        call_ensures(selector::validate_selection, (selection, issues), policy),
        call_ensures(InstanceConfig::validate, (config,), result),
    ensures
        result is Ok <==> {
            &&& final(issues)@.len() == old(issues)@.len()
            &&& config.source.crop matches Some(crop) ==> crop.min_x < crop.max_x && crop.min_y
                < crop.max_y
            &&& 2 <= config.video.width <= 65_534 && config.video.width % 2 == 0
            &&& 2 <= config.video.height <= 65_534 && config.video.height % 2 == 0
            &&& config.video.frame_rate >= 1
            &&& config.video.bit_rate != Some(0u32)
            &&& suits_shader(config.render.default@)
            &&& forall|k: int|
                0 <= k < config.render.profiles@.len() ==> suits_profiles(
                    config.selection.profiles@,
                    #[trigger] config.render.profiles@[k],
                )
        },
        result matches Ok(validated) ==> {
            &&& validated@.selection == final(selection)@
            &&& validated.policy() == policy@
            &&& validated@.source == config.source
            &&& validated@.video == config.video
            &&& validated@.render == config.render@
        },
        result matches Err(error) ==> error is Invalid && error->Invalid_issues@.len() > 0,
{
    let model = config@;
    let definitions = model.selection.definitions();
    let profiles = model.selection.profiles;
    let overrides = model.render.profiles;
    assert(issue_models(final(issues)@).len() == issue_models(old(issues)@).len()
        + model.selection.issues().len());
    selector::law_sound_selections_are_accepted(selection, issues, policy);
    lemma_knees(model.render.default.color_key_knee);
    if final(issues)@.len() == old(issues)@.len() {
        lemma_override_issues(model.selection, overrides, overrides.len() as int);
    }
    if let Err(ConfigError::Invalid { issues: found }) = result {
        assert(issue_models(found@).len() == found@.len());
    }
}

proof fn lemma_knees(knee: ColorKeyKnee)
    ensures
        knee.valid() <==> {
            let low = knee.low@;
            let high = knee.high@;
            &&& low < high || low == 0x8000_0000
            &&& low <= 0x3F80_0000 || low == 0x8000_0000
            &&& 0 < high <= 0x3F80_0000
        },
{
}

proof fn lemma_override_issues(
    selection: SelectionModel,
    overrides: Seq<(Seq<char>, RenderModel)>,
    count: int,
)
    requires
        0 <= count <= overrides.len(),
        selector::distinct_profiles(selection.profiles, selection.profiles.len() as int),
    ensures
        override_issues(selection.definitions(), overrides, count).len() == 0 <==> forall|k: int|
            0 <= k < count ==> suits_profiles(selection.profiles, #[trigger] overrides[k]),
    decreases count,
{
    if count > 0 {
        let (name, render) = overrides[count - 1];
        lemma_override_issues(selection, overrides, count - 1);
        selector::lemma_defined_names(selection, name);
        lemma_knees(render.color_key_knee);
        if forall|k: int|
            0 <= k < count - 1 ==> suits_profiles(selection.profiles, #[trigger] overrides[k]) {
            assert(suits_profiles(selection.profiles, overrides[count - 1]) ==> forall|k: int|
                0 <= k < count ==> suits_profiles(selection.profiles, #[trigger] overrides[k]));
        }
    }
}

/// A replacement is accepted as a configuration of its own is, unless it changes the output; then
/// it names the output as what needs a restart.
pub proof fn law_replacements_keep_the_output(
    current: ValidatedInstanceConfig,
    candidate: InstanceConfig,
    alone: Result<ValidatedInstanceConfig, ConfigError>,
    result: Result<ValidatedInstanceConfig, ConfigError>,
)
    requires
        call_ensures(InstanceConfig::validate, (candidate,), alone),
        call_ensures(ValidatedInstanceConfig::validate_replacement, (&current, candidate), result),
    ensures
        result is Ok <==> alone is Ok && candidate.video == current@.video,
        alone is Err ==> (result matches Err(ConfigError::Invalid { issues }) && issue_models(
            issues@,
        ) == issue_models(alone->Err_0->Invalid_issues@)),
        alone is Ok && candidate.video != current@.video ==> (result matches Err(
            ConfigError::RestartRequired { fields },
        ) && fields@.len() == 1 && fields@[0]@ == "video"@),
        result matches Ok(validated) ==> validated@ == alone->Ok_0@ && validated.policy()
            == alone->Ok_0.policy(),
{
    if let Err(ConfigError::RestartRequired { fields }) = result {
        assert(text::texts(fields@).len() == fields@.len());
        assert(text::texts(fields@)[0] == fields@[0]@);
    }
}

/// Everything wrong with crop, output and default render parameters is reported by its path and
/// code.
pub proof fn law_faults_are_reported(config: InstanceConfig, issues: Vec<ValidationIssue>)
    requires
        call_ensures(
            InstanceConfig::validate,
            (config,),
            Err::<ValidatedInstanceConfig, _>(ConfigError::Invalid { issues }),
        ),
    ensures
        config.source.crop matches Some(crop) ==> {
            &&& crop.max_x <= crop.min_x ==> reports(
                issues@,
                "source.crop.max_x"@,
                "empty_crop_width"@,
            )
            &&& crop.max_y <= crop.min_y ==> reports(
                issues@,
                "source.crop.max_y"@,
                "empty_crop_height"@,
            )
        },
        config.video.width == 0 || config.video.width > 65_535 || config.video.width % 2 != 0
            ==> reports(issues@, "video.width"@, "invalid_video_dimension"@),
        config.video.height == 0 || config.video.height > 65_535 || config.video.height % 2 != 0
            ==> reports(issues@, "video.height"@, "invalid_video_dimension"@),
        config.video.frame_rate == 0 ==> reports(
            issues@,
            "video.frame_rate"@,
            "zero_frame_rate"@,
        ),
        config.video.bit_rate == Some(0u32) ==> reports(
            issues@,
            "video.bit_rate"@,
            "zero_bit_rate"@,
        ),
        config.render.default.key_colors@.len() > 8 ==> reports(
            issues@,
            "render.default"@ + ".key_colors"@,
            "too_many_key_colors"@,
        ),
{
    let model = config@;
    let first = model.selection.issues();
    let second = source_issues(model.source);
    let third = video_issues(model.video);
    let fourth = render_issues(model.selection.definitions(), model.render);
    let all = model.issues();
    assert(all == first + second + third + fourth);
    assert forall|k: int| 0 <= k < second.len() implies reports(
        issues@,
        (#[trigger] second[k]).path,
        second[k].code,
    ) by {
        assert(all[first.len() + k] == second[k]);
        assert(issues@[first.len() + k]@ == second[k]);
    }
    assert forall|k: int| 0 <= k < third.len() implies reports(
        issues@,
        (#[trigger] third[k]).path,
        third[k].code,
    ) by {
        assert(all[first.len() + second.len() + k] == third[k]);
        assert(issues@[first.len() + second.len() + k]@ == third[k]);
    }
    assert forall|k: int| 0 <= k < fourth.len() implies reports(
        issues@,
        (#[trigger] fourth[k]).path,
        fourth[k].code,
    ) by {
        assert(all[first.len() + second.len() + third.len() + k] == fourth[k]);
        assert(issues@[first.len() + second.len() + third.len() + k]@ == fourth[k]);
    }
    if let Some(crop) = config.source.crop {
        if crop.max_x <= crop.min_x {
            assert(second[0].code == "empty_crop_width"@);
        }
        if crop.max_y <= crop.min_y {
            assert(second[second.len() - 1].code == "empty_crop_height"@);
        }
    }
    let wide = dimension_issue("video.width"@, model.video.width);
    let high = dimension_issue("video.height"@, model.video.height);
    if wide.len() > 0 {
        assert(third[0] == wide[0]);
    }
    if high.len() > 0 {
        assert(third[wide.len() as int] == high[0]);
    }
    if model.video.frame_rate == 0 {
        assert(third[(wide.len() + high.len()) as int].code == "zero_frame_rate"@);
    }
    if model.video.bit_rate == Some(0u32) {
        assert(third[third.len() - 1].code == "zero_bit_rate"@);
    }
    if config.render.default.key_colors@.len() > 8 {
        assert(fourth[0].code == "too_many_key_colors"@);
    }
}

/// Whether some issue has a path and a code.
pub open spec fn reports(issues: Seq<ValidationIssue>, path: Seq<char>, code: Seq<char>) -> bool {
    exists|i: int|
        0 <= i < issues.len() && (#[trigger] issues[i]).path@ == path && issues[i].code@ == code
}

/// A bit rate that is given is taken; otherwise it is a quarter bit for each pixel of each frame,
/// as far as that fits.
pub proof fn law_bit_rates_are_inferred(video: VideoConfig, bit_rate: u32)
    requires
        call_ensures(VideoConfig::target_bit_rate, (&video,), bit_rate),
    ensures
        video.bit_rate matches Some(given) ==> bit_rate == given,
        video.bit_rate is None && video.width * video.height * video.frame_rate / 4 <= 0xFFFF_FFFF
            ==> bit_rate == video.width * video.height * video.frame_rate / 4,
        video.bit_rate is None && video.width * video.height * video.frame_rate / 4 > 0xFFFF_FFFF
            ==> bit_rate == 0xFFFF_FFFF,
{
}

/// Documents of a mebibyte at most are read as UTF-8; nothing of a longer one is.
pub proof fn law_documents_are_bounded(
    bytes: Vec<u8>,
    path: &str,
    result: Result<String, ConfigError>,
)
    requires
        call_ensures(bounded_config, (bytes, path), result),
    ensures
        bytes@.len() > 1_048_576 <==> (result matches Err(ConfigError::TooLarge { .. })),
        result is Ok <==> bytes@.len() <= 1_048_576 && vstd::utf8::valid_utf8(bytes@),
        result matches Ok(document) ==> document@ == vstd::utf8::decode_utf8(bytes@),
        result matches Err(ConfigError::TooLarge { path: place, limit }) ==> place@ == path@ && limit
            == 1_048_576,
{
}

/// A profile is rendered with the override under its name, and with the default parameters where
/// there is none.
pub proof fn law_overrides_take_precedence(
    render: RenderProfiles,
    name: &str,
    named: RenderConfig,
    unnamed: RenderConfig,
)
    requires
        names::ascending(render.profiles@),
        call_ensures(RenderProfiles::for_profile, (&render, Some(name)), &named),
        call_ensures(RenderProfiles::for_profile, (&render, None::<&str>), &unnamed),
    ensures
        unnamed@ == render.default@,
        forall|k: int|
            0 <= k < render.profiles@.len() && (#[trigger] render.profiles@[k]).0 == name@
                ==> named@ == render.profiles@[k].1,
        (forall|k: int|
            0 <= k < render.profiles@.len() ==> (#[trigger] render.profiles@[k]).0 != name@)
            ==> named@ == render.default@,
{
    names::lemma_lookup(render.profiles@, name@);
}

/// Generations count from one, each made of the configuration it is given; none follows the last
/// number.
pub proof fn law_generations_follow_each_other(
    config: ValidatedInstanceConfig,
    next: ValidatedInstanceConfig,
    snapshot: ConfigSnapshot,
    current: ConfigSnapshot,
    result: Result<ConfigSnapshot, ConfigError>,
)
    requires
        call_ensures(ConfigSnapshot::initial, (config,), snapshot),
        call_ensures(ConfigSnapshot::replaced, (&current, next), result),
    ensures
        snapshot.generation == 1 && snapshot.config == config,
        result is Ok <==> current.generation < 0xFFFF_FFFF_FFFF_FFFF,
        result matches Ok(made) ==> made.generation == current.generation + 1 && made.config == next,
        result matches Err(error) ==> error == ConfigError::GenerationExhausted,
{
}

/// Two single-precision numbers are equal where their bits are and they are no NaN, or both are
/// zero, whatever their signs.
pub proof fn law_numbers_are_equal_by_value(left: Single, right: Single, equal: bool)
    requires
        call_ensures(Single::equals, (&left, &right), equal),
    ensures
        equal <==> {
            ||| left@ == right@ && left@ as int % 0x8000_0000 <= 0x7F80_0000
            ||| left@ as int % 0x8000_0000 == 0 && right@ as int % 0x8000_0000 == 0
        },
{
}

/// Output settings are the same exactly if all of them are, and colors if all channels are; a number
/// is its bit pattern.
pub proof fn law_settings_are_compared_whole(
    video: VideoConfig,
    other: VideoConfig,
    same: bool,
    color: RgbColor,
    second: RgbColor,
    alike: bool,
    bits: u32,
    number: Single,
    back: u32,
)
    requires
        call_ensures(VideoConfig::same_as, (&video, &other), same),
        call_ensures(RgbColor::same_as, (&color, &second), alike),
        call_ensures(Single::from_bits, (bits,), number),
        call_ensures(Single::to_bits, (&number,), back),
    ensures
        same <==> video.width == other.width && video.height == other.height && video.frame_rate
            == other.frame_rate && video.bit_rate == other.bit_rate,
        alike <==> color.0@[0] == second.0@[0] && color.0@[1] == second.0@[1] && color.0@[2]
            == second.0@[2],
        back == bits,
{
}

/// Render parameters are equal exactly if their colors are and their knees compare equal.
pub proof fn law_render_parameters_are_compared_whole(
    left: RenderConfig,
    right: RenderConfig,
    equal: bool,
    low: bool,
    high: bool,
)
    requires
        call_ensures(RenderConfig::equals, (&left, &right), equal),
        call_ensures(
            Single::equals,
            (&left.color_key_knee.low, &right.color_key_knee.low),
            low,
        ),
        call_ensures(
            Single::equals,
            (&left.color_key_knee.high, &right.color_key_knee.high),
            high,
        ),
    ensures
        equal <==> left@.key_colors == right@.key_colors && left@.binarization_color
            == right@.binarization_color && low && high,
{
}

/// A validated configuration is what it was made of, with the policy of its selection.
pub proof fn law_validated_parts_can_be_read(
    validated: ValidatedInstanceConfig,
    config: InstanceConfig,
    policy: SelectorPolicy,
    profile: Option<&str>,
    render: RenderConfig,
    of: RenderConfig,
)
    requires
        call_ensures(ValidatedInstanceConfig::config, (&validated,), &config),
        call_ensures(ValidatedInstanceConfig::selector, (&validated,), &policy),
        call_ensures(ValidatedInstanceConfig::render_for_profile, (&validated, profile), &render),
        call_ensures(RenderProfiles::for_profile, (&config.render, profile), &of),
    ensures
        config@ == validated@,
        policy@ == validated.policy(),
        render@ == of@,
{
}

/// Without further words nothing is cropped, no cursor is captured and no color is keyed.
pub proof fn law_defaults_change_nothing(
    source: SourceConfig,
    render: RenderConfig,
    renders: RenderProfiles,
    knee: ColorKeyKnee,
)
    requires
        call_ensures(SourceConfig::default, (), source),
        call_ensures(RenderConfig::default, (), render),
        call_ensures(RenderProfiles::default, (), renders),
        call_ensures(ColorKeyKnee::default, (), knee),
    ensures
        source.crop is None && !source.capture_cursor,
        render.key_colors@.len() == 0 && render.binarization_color is None,
        suits_shader(render@) && suits_shader(renders.default@),
        renders.profiles@.len() == 0,
        knee.low@ == 0x3CA3_D70A && knee.high@ == 0x3F7A_E148,
{
    assert(color_models(render.key_colors@).len() == render.key_colors@.len());
}

} // verus!
