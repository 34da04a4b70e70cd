//! Facts about a display adapter that decide whether it can capture and encode.
use vstd::prelude::*;
use crate::args::AdapterLuid;
use crate::shared_texture::{self, Luid};
use crate::{observation, text};

verus! {

/// Bit of an adapter description that marks a software adapter.
pub const ADAPTER_FLAG_SOFTWARE: u32 = 2;

/// Format-support bits that BGRA capture needs: two-dimensional textures (`0x20`), shader sampling
/// (`0x200`) and render targets (`0x4000`).
pub const BGRA_SUPPORT: u32 = 0x0000_4220;

/// Format-support bits that NV12 encoding needs: two-dimensional textures (`0x20`), video-processor
/// output (`0x1000_0000`) and the video encoder (`0x4000_0000`).
pub const NV12_SUPPORT: u32 = 0x5000_0020;

/// Whether every bit of a mask is set.
pub open spec fn covers(observed: u32, required: u32) -> bool {
    observed & required == required
}

/// Why a format is not usable for a purpose.
pub open spec fn format_text(required: u32, observed: u32, purpose: Seq<char>) -> Seq<char> {
    "selected adapter lacks "@ + purpose + " support (required 0x"@ + text::hex_lower(
        required as nat,
        8,
    ) + ", observed 0x"@ + text::hex_lower(observed as nat, 8) + ")"@
}

/// Validate an exact set of format-support bits with a useful diagnostic.
pub fn validate_format(observed: u32, required: u32, purpose: &str) -> (result: Result<(), String>)
    ensures
        match result {
            Ok(()) => covers(observed, required),
            Err(message) => !covers(observed, required) && message@ == format_text(
                required,
                observed,
                purpose@,
            ),
        },
{
    if observed & required == required {
        return Ok(());
    }
    let mut message = "selected adapter lacks ".to_owned();
    text::push_text(&mut message, purpose);
    text::push_text(&mut message, " support (required 0x");
    text::push_hex_lower(&mut message, required as u64, 8);
    text::push_text(&mut message, ", observed 0x");
    text::push_hex_lower(&mut message, observed as u64, 8);
    text::push_text(&mut message, ")");
    Err(message)
}

/// Why a software adapter is not usable.
pub open spec fn software_text(name: Seq<char>, luid: nat) -> Seq<char> {
    "preferred adapter '"@ + name + "' (0x"@ + text::hex_upper(luid, 16)
        + ") is a software adapter"@
}

/// Refuses a software adapter, named as in the diagnostics.
pub fn validate_adapter(flags: u32, name: &str, luid: u64) -> (result: Result<(), String>)
    ensures
        match result {
            Ok(()) => flags & ADAPTER_FLAG_SOFTWARE == 0,
            Err(message) => flags & ADAPTER_FLAG_SOFTWARE != 0 && message@ == software_text(
                name@,
                luid as nat,
            ),
        },
{
    if flags & ADAPTER_FLAG_SOFTWARE == 0 {
        return Ok(());
    }
    let mut message = "preferred adapter '".to_owned();
    text::push_text(&mut message, name);
    text::push_text(&mut message, "' (0x");
    text::push_hex_upper(&mut message, luid, 16);
    text::push_text(&mut message, ") is a software adapter");
    Err(message)
}

/// The one-word form of a two-word identity.
pub open spec fn packed(luid: Luid) -> nat {
    (shared_texture::unsigned_word(luid.high_part) * 0x1_0000_0000 + luid.low_part) as nat
}

/// Preserve the native two-word identity layout as one loggable unsigned value.
pub fn luid_value(luid: Luid) -> (value: u64)
    ensures
        value == packed(luid),
{
    shared_texture::AdapterLuid::from_raw(luid).value()
}

/// Translate a configured identity into the two words of the platform.
pub fn raw_luid(luid: AdapterLuid) -> (raw: Luid)
    ensures
        shared_texture::unsigned_word(raw.high_part) == luid@ as int / 0x1_0000_0000,
        raw.low_part == luid@ as int % 0x1_0000_0000,
{
    let value: u64 = luid.get();
    let word: u64 = value / 0x1_0000_0000;
    let high: i32 = if word >= 0x8000_0000 {
        (word as i64 - 0x1_0000_0000) as i32
    } else {
        word as i32
    };
    Luid { low_part: (value % 0x1_0000_0000) as u32, high_part: high }
}

/// What the platform reports of an adapter.
#[derive(Debug, Clone, PartialEq, Eq)]
pub struct AdapterFacts {
    /// Adapter flags.
    pub flags: u32,
    /// Zero-terminated description.
    pub description: Vec<u16>,
    /// Two-word identity.
    pub luid: Luid,
}

/// How an adapter is called.
#[derive(Debug, Clone, PartialEq, Eq)]
pub struct AdapterIdentity {
    /// One-word identity.
    pub luid: u64,
    /// Decoded description.
    pub name: String,
}

/// Why a device is refused, if it is: the first of its adapter, its two formats and its capture
/// support that does not do.
pub open spec fn device_fault(
    adapter: AdapterFacts,
    bgra_support: u32,
    nv12_support: u32,
    capture_supported: bool,
) -> Option<Seq<char>> {
    let luid = packed(adapter.luid);
    let name = observation::utf16_lossy(observation::before_zero(adapter.description@));
    if adapter.flags & ADAPTER_FLAG_SOFTWARE != 0 {
        Some(software_text(name, luid))
    } else if !covers(bgra_support, BGRA_SUPPORT) {
        Some(format_text(BGRA_SUPPORT, bgra_support, "BGRA capture/resample"@))
    } else if !covers(nv12_support, NV12_SUPPORT) {
        Some(format_text(NV12_SUPPORT, nv12_support, "NV12 conversion/encoding"@))
    } else if !capture_supported {
        Some("Windows Graphics Capture is not supported in this session"@)
    } else {
        None
    }
}

/// Validates every capability of the preferred device, and names its adapter. The support bits
/// are those that the device reports of each format.
pub fn validate_device(
    adapter: &AdapterFacts,
    bgra_support: u32,
    nv12_support: u32,
    capture_supported: bool,
) -> (result: Result<AdapterIdentity, String>)
    ensures
        match result {
            Ok(identity) => {
                &&& device_fault(*adapter, bgra_support, nv12_support, capture_supported) is None
                &&& identity.luid == packed(adapter.luid)
                &&& identity.name@ == observation::utf16_lossy(
                    observation::before_zero(adapter.description@),
                )
            },
            Err(message) => device_fault(*adapter, bgra_support, nv12_support, capture_supported)
                == Some(message@),
        },
{
    let luid: u64 = luid_value(adapter.luid);
    let name = observation::decode_wide(adapter.description.as_slice());
    if let Err(message) = validate_adapter(adapter.flags, name.as_str(), luid) {
        return Err(message);
    }
    if let Err(message) = validate_format(bgra_support, BGRA_SUPPORT, "BGRA capture/resample") {
        return Err(message);
    }
    if let Err(message) = validate_format(nv12_support, NV12_SUPPORT, "NV12 conversion/encoding") {
        return Err(message);
    }
    if !capture_supported {
        return Err("Windows Graphics Capture is not supported in this session".to_owned());
    }
    Ok(AdapterIdentity { luid, name })
}

/// A device is accepted exactly if its adapter is no software, BGRA can be a texture, be sampled and
/// be rendered to, NV12 can be a texture, be written by the video processor and be encoded, and
/// windows can be captured.
pub proof fn law_capable_devices_are_accepted(
    adapter: AdapterFacts,
    bgra: u32,
    nv12: u32,
    capture_supported: bool,
    name: String,
    description: &[u16],
    result: Result<AdapterIdentity, String>,
)
    requires
        description@ == adapter.description@,
        call_ensures(observation::decode_wide, (description,), name),
        call_ensures(validate_device, (&adapter, bgra, nv12, capture_supported), result),
    ensures
        result is Ok <==> {
            &&& adapter.flags / 2 % 2 == 0
            &&& bgra / 0x20 % 2 == 1 && bgra / 0x200 % 2 == 1 && bgra / 0x4000 % 2 == 1
            &&& nv12 / 0x20 % 2 == 1 && nv12 / 0x1000_0000 % 2 == 1 && nv12 / 0x4000_0000 % 2 == 1
            &&& capture_supported
        },
        result matches Ok(identity) ==> identity.name@ == name@ && identity.luid
            == adapter.luid.low_part + 0x1_0000_0000 * (if adapter.luid.high_part < 0 {
            adapter.luid.high_part + 0x1_0000_0000
        } else {
            adapter.luid.high_part as int
        }),
{
    let flags = adapter.flags;
    assert((flags & 2 == 0) == (flags / 2 % 2 == 0)) by (bit_vector);
    assert((bgra & 0x4220 == 0x4220) == (bgra / 0x20 % 2 == 1 && bgra / 0x200 % 2 == 1 && bgra
        / 0x4000 % 2 == 1)) by (bit_vector);
    assert((nv12 & 0x5000_0020 == 0x5000_0020) == (nv12 / 0x20 % 2 == 1 && nv12 / 0x1000_0000 % 2
        == 1 && nv12 / 0x4000_0000 % 2 == 1)) by (bit_vector);
}

/// A format does exactly if it has every bit that is asked for.
pub proof fn law_required_bits_are_checked(
    observed: u32,
    required: u32,
    purpose: &str,
    result: Result<(), String>,
)
    requires
        call_ensures(validate_format, (observed, required, purpose), result),
    ensures
        result is Ok <==> observed & required == required,
{
}

/// Software adapters are refused.
pub proof fn law_software_adapters_are_refused(
    flags: u32,
    name: &str,
    luid: u64,
    result: Result<(), String>,
)
    requires
        call_ensures(validate_adapter, (flags, name, luid), result),
    ensures
        result is Ok <==> flags / 2 % 2 == 0,
{
    assert((flags & 2 == 0) == (flags / 2 % 2 == 0)) by (bit_vector);
}

/// The two words of an identity and its one number go over into each other.
pub proof fn law_identities_keep_their_words(luid: AdapterLuid, raw: Luid, value: u64)
    requires
        call_ensures(raw_luid, (luid,), raw),
        call_ensures(luid_value, (raw,), value),
    ensures
        value == luid@,
{
}

} // verus!
