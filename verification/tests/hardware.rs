//! Adapter identities, shared handles and texture descriptors.

use turbo_capture::args;
use turbo_capture::device::{
    luid_value, raw_luid, validate_adapter, validate_device, validate_format, AdapterFacts,
    BGRA_SUPPORT, NV12_SUPPORT,
};
use turbo_capture::geometry::Size;
use turbo_capture::shared_texture::{
    parse_nonzero_u64, worker_exit_code, AcquireStatus, AdapterLuid, Luid, SharedHandleValue,
    RESOURCE_GENERATION_LOST_EXIT_CODE, WAIT_ABANDONED, WAIT_OBJECT_0, WAIT_TIMEOUT,
};
use turbo_capture::texture::{
    create_texture_2d, shared_texture_descriptor, validate_bgra_texture_descriptor, validate_dimensions,
    validate_shared_texture_descriptor, validate_size, TextureDescriptor, TextureRole,
    BIND_RENDER_TARGET, BIND_SHADER_RESOURCE, FORMAT_B8G8R8A8_UNORM, MISC_SHARED, MISC_SHARED_KEYEDMUTEX, MISC_SHARED_NTHANDLE,
};

/// The format number of planar 4:2:0 textures.
const FORMAT_NV12: u32 = 103;

/// Provide the exact descriptor accepted by the mailbox contract.
fn valid_descriptor() -> TextureDescriptor {
    shared_texture_descriptor(Size::new(1920, 1200))
}

/// Build the descriptor accepted by the fixed-size BGRA input contract.
fn valid_bgra_descriptor() -> TextureDescriptor {
    TextureDescriptor {
        width: 1920,
        height: 1200,
        mip_levels: 1,
        array_size: 1,
        format: FORMAT_B8G8R8A8_UNORM,
        sample_count: 1,
        sample_quality: 0,
        bind_flags: 0,
        misc_flags: 0,
    }
}

/// The refusal of a descriptor as encoder input.
fn refusal(descriptor: TextureDescriptor) -> String {
    validate_bgra_texture_descriptor(&descriptor, Size::new(1920, 1200))
        .unwrap_err()
        .message(TextureRole::EncoderInput)
}

/// The refusal of a descriptor as a mailbox.
fn mailbox_refusal(descriptor: TextureDescriptor) -> String {
    validate_shared_texture_descriptor(&descriptor, Size::new(1920, 1200))
        .unwrap_err()
        .message(TextureRole::Mailbox)
}

#[test]
fn adapter_luid_translation_should_preserve_both_words() {
    let input = "0x89ABCDEF01234567".parse::<args::AdapterLuid>().unwrap();
    let output = raw_luid(input);

    assert_eq!(output.low_part, 0x0123_4567);
    assert_eq!(output.high_part as u32, 0x89AB_CDEF);
}

#[test]
fn adapter_luid_value_should_preserve_both_words() {
    let input = Luid { low_part: 0x0123_4567, high_part: 0x89AB_CDEFu32 as i32 };

    assert_eq!(luid_value(input), 0x89AB_CDEF_0123_4567);
}

#[test]
fn adapter_luid_round_trips_signed_high_word() {
    let raw = Luid { low_part: 0x89AB_CDEF, high_part: -2 };
    assert_eq!(AdapterLuid::from_raw(raw).as_raw(), raw);
}

#[test]
fn cli_values_accept_decimal_and_hex() {
    assert_eq!("4660".parse::<AdapterLuid>().unwrap().value(), 0x1234);
    assert_eq!("0x1234".parse::<AdapterLuid>().unwrap().value(), 0x1234);
    assert_eq!("4660".parse::<SharedHandleValue>().unwrap().value(), 0x1234);
    assert_eq!("0X1234".parse::<SharedHandleValue>().unwrap().value(), 0x1234);
    "0".parse::<AdapterLuid>().unwrap_err();
    "0".parse::<SharedHandleValue>().unwrap_err();
}

#[test]
fn cli_values_say_what_is_wrong() {
    assert_eq!(parse_nonzero_u64("0", "adapter LUID"), Err("adapter LUID must be non-zero".into()));
    assert_eq!(
        parse_nonzero_u64("", "adapter LUID"),
        Err("invalid adapter LUID '': cannot parse integer from empty string".into())
    );
    assert_eq!(
        parse_nonzero_u64("12x", "handle"),
        Err("invalid handle '12x': invalid digit found in string".into())
    );
    assert_eq!(
        parse_nonzero_u64("0x10000000000000000", "handle"),
        Err("invalid handle '0x10000000000000000': number too large to fit in target type".into())
    );
    assert_eq!(parse_nonzero_u64("+7", "handle"), Ok(7));
    assert_eq!("0x2a".parse::<AdapterLuid>().unwrap().format(), "0x000000000000002A");
}

#[test]
fn shared_descriptor_requires_both_resource_flags() {
    let mut descriptor = valid_descriptor();
    descriptor.misc_flags &= !MISC_SHARED_KEYEDMUTEX;
    let error =
        validate_shared_texture_descriptor(&descriptor, Size::new(1920, 1200)).unwrap_err();
    assert!(error.message(TextureRole::Mailbox).contains("keyed-mutex"));
}

#[test]
fn shared_descriptor_rejects_implicit_size_or_format_conversion() {
    let wrong_size = TextureDescriptor { width: 1280, ..valid_descriptor() };
    assert!(mailbox_refusal(wrong_size).contains("1280x1200"));

    let wrong_format = TextureDescriptor { format: FORMAT_NV12, ..valid_descriptor() };
    assert!(mailbox_refusal(wrong_format).contains("B8G8R8A8_UNORM"));
}

#[test]
fn shared_descriptors_carry_both_flags() {
    let descriptor = valid_descriptor();
    assert_eq!(descriptor.misc_flags, MISC_SHARED);
    assert_eq!(MISC_SHARED, MISC_SHARED_KEYEDMUTEX | MISC_SHARED_NTHANDLE);
    validate_shared_texture_descriptor(&descriptor, Size::new(1920, 1200)).unwrap();
    let half = TextureDescriptor { misc_flags: MISC_SHARED_KEYEDMUTEX, ..descriptor };
    validate_shared_texture_descriptor(&half, Size::new(1920, 1200)).unwrap_err();
}

#[test]
fn accepts_fixed_size_bgra_descriptor() {
    validate_bgra_texture_descriptor(&valid_bgra_descriptor(), Size::new(1920, 1200)).unwrap();
}

#[test]
fn rejects_non_bgra_descriptor() {
    let descriptor = TextureDescriptor { format: FORMAT_NV12, ..valid_bgra_descriptor() };
    assert!(refusal(descriptor).contains("B8G8R8A8_UNORM"));
}

#[test]
fn rejects_unexpected_dimensions() {
    let descriptor = TextureDescriptor { width: 1280, ..valid_bgra_descriptor() };
    assert!(refusal(descriptor).contains("1280x1200"));
}

#[test]
fn rejects_array_or_mip_chain() {
    for descriptor in [
        TextureDescriptor { mip_levels: 2, ..valid_bgra_descriptor() },
        TextureDescriptor { array_size: 2, ..valid_bgra_descriptor() },
    ] {
        assert!(refusal(descriptor).contains("single non-array mip"));
    }
}

#[test]
fn rejects_multisampled_descriptor() {
    let descriptor = TextureDescriptor { sample_count: 4, ..valid_bgra_descriptor() };
    assert!(refusal(descriptor).contains("must not be multisampled"));
}

#[test]
fn dimensions_must_match_encoder_alignment() {
    validate_dimensions(1920, 1200).unwrap();
    assert!(validate_dimensions(1919, 1200).is_err());
    assert!(validate_dimensions(1920, 1199).is_err());
}

#[test]
fn empty_mailboxes_are_refused() {
    assert!(validate_size(Size::new(1, 1)).is_ok());
    assert!(validate_size(Size::new(0, 1)).is_err());
    assert!(validate_size(Size::new(1, 0)).is_err());
}

#[test]
fn adapters_must_be_hardware_with_the_needed_formats() {
    assert!(validate_adapter(0, "NVIDIA", 42).is_ok());
    assert!(validate_adapter(2, "Basic Render", 42).unwrap_err().contains("Basic Render"));
    assert!(validate_format(0b111, 0b101, "capture input").is_ok());
    assert!(validate_format(0b110, 0b101, "capture input").unwrap_err().contains("capture input"));
}

#[test]
fn wait_results_are_told_apart() {
    assert_eq!(AcquireStatus::from_status(WAIT_OBJECT_0), Ok(AcquireStatus::Acquired));
    assert_eq!(AcquireStatus::from_status(WAIT_TIMEOUT), Ok(AcquireStatus::Timeout));
    assert_eq!(AcquireStatus::from_status(WAIT_ABANDONED), Ok(AcquireStatus::Abandoned));
    assert_eq!(AcquireStatus::from_status(7), Err(7));
}

#[test]
fn only_managed_workers_report_a_lost_generation() {
    assert_eq!(worker_exit_code(true, true), RESOURCE_GENERATION_LOST_EXIT_CODE);
    assert_eq!(worker_exit_code(false, true), 1);
    assert_eq!(worker_exit_code(true, false), 1);
}

#[test]
fn devices_report_their_first_fault() {
    let mut adapter = AdapterFacts {
        flags: 0,
        description: "NVIDIA RTX\0junk".encode_utf16().collect(),
        luid: Luid { low_part: 0xF477, high_part: 0 },
    };
    let identity = validate_device(&adapter, BGRA_SUPPORT, NV12_SUPPORT, true).unwrap();
    assert_eq!((identity.luid, identity.name.as_str()), (0xF477, "NVIDIA RTX"));
    assert_eq!(validate_device(&adapter, u32::MAX, u32::MAX, true).unwrap(), identity);
    assert_eq!(
        validate_device(&adapter, 0x4020, 0, false).unwrap_err(),
        "selected adapter lacks BGRA capture/resample support (required 0x00004220, observed 0x00004020)"
    );
    assert_eq!(
        validate_device(&adapter, 0x4220, 0x1000_0020, false).unwrap_err(),
        "selected adapter lacks NV12 conversion/encoding support (required 0x50000020, observed 0x10000020)"
    );
    for missing in [0x20, 0x200, 0x4000] {
        let refused = validate_device(&adapter, !missing, u32::MAX, true).unwrap_err();
        assert!(refused.contains("BGRA"));
    }
    for missing in [0x20, 0x1000_0000, 0x4000_0000] {
        let refused = validate_device(&adapter, u32::MAX, !missing, true).unwrap_err();
        assert!(refused.contains("NV12"));
    }
    assert_eq!(
        validate_device(&adapter, 0x4220, 0x5000_0020, false).unwrap_err(),
        "Windows Graphics Capture is not supported in this session"
    );
    adapter.flags = 2;
    assert_eq!(
        validate_device(&adapter, BGRA_SUPPORT, NV12_SUPPORT, true).unwrap_err(),
        "preferred adapter 'NVIDIA RTX' (0x000000000000F477) is a software adapter"
    );
}

#[test]
fn private_textures_are_encoder_input_only() {
    let size = Size::new(1920, 1200);
    let descriptor = create_texture_2d(
        size,
        FORMAT_B8G8R8A8_UNORM,
        &[BIND_RENDER_TARGET, BIND_SHADER_RESOURCE],
    );
    assert_eq!(descriptor.bind_flags, 40);
    assert_eq!((descriptor.mip_levels, descriptor.array_size), (1, 1));
    assert_eq!((descriptor.sample_count, descriptor.sample_quality), (1, 0));
    validate_bgra_texture_descriptor(&descriptor, size).unwrap();
    assert!(validate_shared_texture_descriptor(&descriptor, size).is_err());
    assert_eq!(create_texture_2d(size, FORMAT_NV12, &[]).bind_flags, 0);
}

#[test]
fn emitted_identifiers_and_handles_are_parsed() {
    for value in [1u64, 42, 0xF477, 0x8000_0000_0000_0001, u64::MAX] {
        let id = AdapterLuid::parse(&value.to_string()).unwrap();
        assert_eq!(id.value(), value);
        assert_eq!(AdapterLuid::parse(&id.format()).unwrap(), id);
        let identity = args::AdapterLuid::parse(&id.format()).unwrap();
        assert_eq!(identity.get(), value);
        assert_eq!(args::AdapterLuid::parse(&identity.format()).unwrap(), identity);
    }
    assert_eq!(SharedHandleValue::parse("1234").unwrap().value(), 1234);
}
