//! Capture sources chosen on the command line.
use vstd::prelude::*;
use crate::capture::CropBox;
use crate::geometry::Size;
use crate::text;
use crate::texture;

verus! {

/// Default preview width in physical pixels.
pub const DEFAULT_WIDTH: u32 = 1920;

/// Default preview height in physical pixels.
pub const DEFAULT_HEIGHT: u32 = 1200;

/// Why a window handle is refused.
pub open spec fn hwnd_fault(value: Seq<char>) -> Option<Seq<char>> {
    match hwnd_number(value) {
        Err(error) => Some("invalid HWND "@ + text::quoted(value) + ": "@ + error.text()),
        Ok(number) => if number == 0 {
            Some("HWND must be non-zero"@)
        } else {
            None
        },
    }
}

/// The number that a text spells in decimal, or in hexadecimal behind `0x`.
pub open spec fn hwnd_number(value: Seq<char>) -> Result<int, text::NumberError> {
    if value.len() >= 2 && value[0] == '0' && value[1] == 'x' {
        text::signed_number(value.skip(2), 16)
    } else {
        text::signed_number(value, 10)
    }
}

/// A window handle that a supervisor writes in decimal is read back.
pub proof fn law_emitted_handles_are_parsed(hwnd: u64)
    requires
        0 < hwnd <= i64::MAX,
    ensures
        hwnd_number(text::decimal(hwnd as nat)) == Ok::<int, text::NumberError>(hwnd as int),
        hwnd_fault(text::decimal(hwnd as nat)) is None,
{
    text::law_decimals_are_read_back(hwnd as nat);
    text::lemma_decimal_digits(hwnd as nat);
    let digits = text::decimal(hwnd as nat);
    if digits.len() >= 2 {
        assert(48 <= digits[1] <= 57);
    }
}

/// Parse decimal or `0x`-prefixed window handles without accepting null.
pub fn parse_hwnd(value: &str) -> (result: Result<i64, String>)
    ensures
        match result {
            Ok(hwnd) => hwnd_number(value@) == Ok::<int, text::NumberError>(hwnd as int) && hwnd
                != 0,
            Err(message) => hwnd_fault(value@) == Some(message@),
        },
{
    let chars = text::chars_of(value);
    let parsed = if chars.len() >= 2 && chars[0] == '0' && chars[1] == 'x' {
        let digits = vstd::slice::slice_subrange(chars.as_slice(), 2, chars.len());
        assert(digits@ =~= value@.skip(2));
        text::parse_signed(digits, 16)
    } else {
        text::parse_signed(chars.as_slice(), 10)
    };
    match parsed {
        Err(error) => {
            let mut message = "invalid HWND ".to_owned();
            let shown = text::debug_quoted(value);
            text::push_text(&mut message, shown.as_str());
            text::push_text(&mut message, ": ");
            text::push_text(&mut message, error.message());
            Err(message)
        },
        Ok(hwnd) => if hwnd == 0 {
            Err("HWND must be non-zero".to_owned())
        } else {
            Ok(hwnd)
        },
    }
}

/// Arguments that describe a capture source.
#[derive(Debug, Clone, PartialEq, Eq)]
pub struct SourceArgs {
    /// Local selector profile document.
    pub config: Option<String>,
    /// Resolved window handle for supervisor-owned crop capture.
    pub hwnd: Option<i64>,
    /// Inclusive crop left edge.
    pub crop_min_x: Option<u32>,
    /// Inclusive crop top edge.
    pub crop_min_y: Option<u32>,
    /// Exclusive crop right edge.
    pub crop_max_x: Option<u32>,
    /// Exclusive crop bottom edge.
    pub crop_max_y: Option<u32>,
    /// Fixed output width.
    pub width: u32,
    /// Fixed output height.
    pub height: u32,
    /// Keep the capture path headless.
    pub no_preview: bool,
    /// Whether a managed shared output was handed over.
    pub shared_output: bool,
}

/// Validated capture-source policy chosen before any resource is created.
#[derive(Debug, Clone, PartialEq, Eq)]
pub enum CaptureSource {
    /// Local allowlist with live atomic reload.
    Profiles(String),
    /// Supervisor-resolved crop.
    Crop {
        hwnd: i64,
        crop: CropBox,
    },
}

/// Why a capture source is refused.
#[derive(Debug, Clone, Copy, PartialEq, Eq, Structural)]
pub enum SourceError {
    /// Neither a profile document nor a complete crop is given, or both are.
    Ambiguous,
    /// A crop needs a managed shared output.
    NoSharedOutput,
    /// A crop needs a headless capture path.
    Preview,
    /// The right edge is not right of the left one.
    EmptyWidth,
    /// The bottom edge is not below the top one.
    EmptyHeight,
    /// The padded crop is not the output that was asked for.
    SizeMismatch {
        crop: Size,
        output: Size,
    },
}

impl SourceError {
    /// The diagnostic text of this failure.
    pub open spec fn text(self) -> Seq<char> {
        match self {
            SourceError::Ambiguous =>
                "provide either --config or the complete --hwnd + --crop-min-x/y + --crop-max-x/y source"@,
            SourceError::NoSharedOutput => "crop capture requires managed shared output"@,
            SourceError::Preview => "crop capture requires --no-preview"@,
            SourceError::EmptyWidth => "--crop-max-x must be greater than --crop-min-x"@,
            SourceError::EmptyHeight => "--crop-max-y must be greater than --crop-min-y"@,
            SourceError::SizeMismatch { crop, output } => "crop output is "@ + texture::size_text(
                crop,
            ) + ", but --width/--height specify "@ + texture::size_text(output),
        }
    }

    /// Describes this failure.
    pub fn message(&self) -> (message: String)
        ensures
            message@ == self.text(),
    {
        match *self {
            SourceError::Ambiguous =>
                "provide either --config or the complete --hwnd + --crop-min-x/y + --crop-max-x/y source".to_owned(),
            SourceError::NoSharedOutput => "crop capture requires managed shared output".to_owned(),
            SourceError::Preview => "crop capture requires --no-preview".to_owned(),
            SourceError::EmptyWidth =>
                "--crop-max-x must be greater than --crop-min-x".to_owned(),
            SourceError::EmptyHeight =>
                "--crop-max-y must be greater than --crop-min-y".to_owned(),
            SourceError::SizeMismatch { crop, output } => {
                let mut message = "crop output is ".to_owned();
                texture::push_size(&mut message, crop);
                text::push_text(&mut message, ", but --width/--height specify ");
                texture::push_size(&mut message, output);
                message
            },
        }
    }
}

impl SourceArgs {
    /// Only a profile document is given.
    pub open spec fn names_profiles(self) -> bool {
        &&& self.config is Some
        &&& self.hwnd is None
        &&& self.crop_min_x is None
        &&& self.crop_min_y is None
        &&& self.crop_max_x is None
        &&& self.crop_max_y is None
    }

    /// Only a complete crop is given.
    pub open spec fn names_crop(self) -> bool {
        &&& self.config is None
        &&& self.hwnd is Some
        &&& self.crop_min_x is Some
        &&& self.crop_min_y is Some
        &&& self.crop_max_x is Some
        &&& self.crop_max_y is Some
    }

    /// The crop of a complete one.
    pub open spec fn crop(self) -> CropBox {
        CropBox {
            min_x: self.crop_min_x->Some_0,
            min_y: self.crop_min_y->Some_0,
            max_x: self.crop_max_x->Some_0,
            max_y: self.crop_max_y->Some_0,
        }
    }

    /// Whether the size of a crop, if it comes to be compared, can be padded.
    pub open spec fn in_range(self) -> bool {
        self.names_crop() && self.shared_output && self.no_preview && self.crop().min_x
            < self.crop().max_x && self.crop().min_y < self.crop().max_y
            ==> self.crop().paddable()
    }

    /// Why the arguments are refused, if they are.
    pub open spec fn fault(self) -> Option<SourceError> {
        if self.names_profiles() {
            None
        } else if !self.names_crop() {
            Some(SourceError::Ambiguous)
        } else if !self.shared_output {
            Some(SourceError::NoSharedOutput)
        } else if !self.no_preview {
            Some(SourceError::Preview)
        } else if self.crop().max_x <= self.crop().min_x {
            Some(SourceError::EmptyWidth)
        } else if self.crop().max_y <= self.crop().min_y {
            Some(SourceError::EmptyHeight)
        } else if self.crop().padded_size() != (self.width as int, self.height as int) {
            Some(
                SourceError::SizeMismatch {
                    crop: Size {
                        width: self.crop().padded_size().0 as u32,
                        height: self.crop().padded_size().1 as u32,
                    },
                    output: Size { width: self.width, height: self.height },
                },
            )
        } else {
            None
        }
    }
}

/// Reject partial or ambiguous source specifications before starting capture.
pub fn resolve_source(args: &SourceArgs) -> (result: Result<CaptureSource, SourceError>)
    requires
        args.in_range(),
    ensures
        match result {
            Ok(CaptureSource::Profiles(path)) => args.fault() is None && args.names_profiles()
                && path@ == args.config->Some_0@,
            Ok(CaptureSource::Crop { hwnd, crop }) => args.fault() is None && args.names_crop()
                && hwnd == args.hwnd->Some_0 && crop == args.crop(),
            Err(error) => args.fault() == Some(error),
        },
{
    match (
        &args.config,
        args.hwnd,
        args.crop_min_x,
        args.crop_min_y,
        args.crop_max_x,
        args.crop_max_y,
    ) {
        (Some(config), None, None, None, None, None) => Ok(
            CaptureSource::Profiles(config.clone()),
        ),
        (None, Some(hwnd), Some(min_x), Some(min_y), Some(max_x), Some(max_y)) => {
            if !args.shared_output {
                return Err(SourceError::NoSharedOutput);
            }
            if !args.no_preview {
                return Err(SourceError::Preview);
            }
            if max_x <= min_x {
                return Err(SourceError::EmptyWidth);
            }
            if max_y <= min_y {
                return Err(SourceError::EmptyHeight);
            }
            let crop = CropBox { min_x, min_y, max_x, max_y };
            let padded = crop.output_size();
            if padded.width != args.width || padded.height != args.height {
                return Err(
                    SourceError::SizeMismatch {
                        crop: padded,
                        output: Size { width: args.width, height: args.height },
                    },
                );
            }
            Ok(CaptureSource::Crop { hwnd, crop })
        },
        _ => Err(SourceError::Ambiguous),
    }
}

/// A profile document is a source of its own. A crop is one with all four edges, a window, a shared
/// output and no preview, if it has an area and its padded size is the output asked for; then it
/// is taken as it is.
pub proof fn law_whole_sources_are_accepted(
    args: SourceArgs,
    crop: CropBox,
    size: Size,
    result: Result<CaptureSource, SourceError>,
)
    requires
        args.in_range(),
        args.crop_min_x matches Some(x) ==> crop.min_x == x,
        args.crop_min_y matches Some(y) ==> crop.min_y == y,
        args.crop_max_x matches Some(x) ==> crop.max_x == x,
        args.crop_max_y matches Some(y) ==> crop.max_y == y,
        call_ensures(CropBox::output_size, (crop,), size),
        call_ensures(resolve_source, (&args,), result),
    ensures
        ({
            let edges = args.crop_min_x is Some && args.crop_min_y is Some && args.crop_max_x
                is Some && args.crop_max_y is Some;
            let none = args.crop_min_x is None && args.crop_min_y is None && args.crop_max_x is None
                && args.crop_max_y is None;
            let profiles = args.config is Some && args.hwnd is None && none;
            let cropped = args.config is None && args.hwnd is Some && edges;
            &&& result is Ok <==> profiles || (cropped && args.shared_output && args.no_preview
                && crop.min_x < crop.max_x && crop.min_y < crop.max_y && size.width == args.width
                && size.height == args.height)
            &&& result is Ok && profiles ==> (result->Ok_0 matches CaptureSource::Profiles(path)
                && path@ == args.config->Some_0@)
            &&& result is Ok && cropped ==> result->Ok_0 == (CaptureSource::Crop {
                hwnd: args.hwnd->Some_0,
                crop,
            })
            &&& !profiles && !cropped <==> result == Err::<CaptureSource, _>(SourceError::Ambiguous)
        }),
{
}

/// A window handle that is written in decimal is read back, and zero is none.
pub proof fn law_written_handles_are_read(
    hwnd: u64,
    written: &str,
    result: Result<i64, String>,
    value: &str,
    other: Result<i64, String>,
)
    requires
        0 < hwnd <= i64::MAX,
        written@ == text::decimal(hwnd as nat),
        call_ensures(parse_hwnd, (written,), result),
        call_ensures(parse_hwnd, (value,), other),
    ensures
        result is Ok && result->Ok_0 == hwnd,
        other matches Ok(handle) ==> handle != 0,
{
    law_emitted_handles_are_parsed(hwnd);
}

} // verus!
