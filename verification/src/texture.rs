//! Texture descriptors of the shared mailbox and of the encoder input.
use vstd::prelude::*;
use crate::geometry::Size;
use crate::text;

verus! {

/// Format code of eight-bit BGRA textures.
pub const FORMAT_B8G8R8A8_UNORM: u32 = 87;

/// Binding as a shader resource.
pub const BIND_SHADER_RESOURCE: u32 = 8;

/// Binding as a render target.
pub const BIND_RENDER_TARGET: u32 = 32;

/// Sharing through a keyed mutex.
pub const MISC_SHARED_KEYEDMUTEX: u32 = 256;

/// Sharing through an NT handle.
pub const MISC_SHARED_NTHANDLE: u32 = 2048;

/// Both sharing modes of the mailbox.
pub const MISC_SHARED: u32 = 2304;

/// Both bindings of the mailbox.
pub const BIND_MAILBOX: u32 = 40;

/// The parts of a 2D texture descriptor that the pipeline depends on.
#[derive(Debug, Clone, Copy, PartialEq, Eq, Structural)]
pub struct TextureDescriptor {
    pub width: u32,
    pub height: u32,
    pub mip_levels: u32,
    pub array_size: u32,
    pub format: u32,
    pub sample_count: u32,
    pub sample_quality: u32,
    pub bind_flags: u32,
    pub misc_flags: u32,
}

/// Why a texture cannot be used.
#[derive(Debug, Clone, Copy, PartialEq, Eq, Structural)]
pub enum DescriptorError {
    /// The texture is not eight-bit BGRA.
    Format {
        /// Format code of the texture.
        format: u32,
    },
    /// The texture does not have the expected size.
    Dimensions {
        /// Size that was expected.
        expected: Size,
        /// Size of the texture.
        actual: Size,
    },
    /// The texture has several mip levels or array slices.
    NotSingle {
        /// Mip levels of the texture.
        mip_levels: u32,
        /// Array slices of the texture.
        array_size: u32,
    },
    /// The texture is multisampled.
    Multisampled,
    /// The texture lacks a sharing flag.
    NotShared,
}

/// The first thing about a descriptor that would need an implicit conversion.
pub open spec fn layout_fault(descriptor: TextureDescriptor, expected: Size) -> Option<
    DescriptorError,
> {
    if descriptor.format != FORMAT_B8G8R8A8_UNORM {
        Some(DescriptorError::Format { format: descriptor.format })
    } else if descriptor.width != expected.width || descriptor.height != expected.height {
        Some(
            DescriptorError::Dimensions {
                expected,
                actual: Size { width: descriptor.width, height: descriptor.height },
            },
        )
    } else if descriptor.mip_levels != 1 || descriptor.array_size != 1 {
        Some(
            DescriptorError::NotSingle {
                mip_levels: descriptor.mip_levels,
                array_size: descriptor.array_size,
            },
        )
    } else if descriptor.sample_count != 1 || descriptor.sample_quality != 0 {
        Some(DescriptorError::Multisampled)
    } else {
        None
    }
}

/// Enforces the fixed, directly convertible encoder input.
pub fn validate_bgra_texture_descriptor(descriptor: &TextureDescriptor, expected_size: Size) -> (result:
    Result<(), DescriptorError>)
    ensures
        match result {
            Ok(()) => layout_fault(*descriptor, expected_size) is None,
            Err(error) => layout_fault(*descriptor, expected_size) == Some(error),
        },
{
    if descriptor.format != FORMAT_B8G8R8A8_UNORM {
        return Err(DescriptorError::Format { format: descriptor.format });
    }
    if descriptor.width != expected_size.width || descriptor.height != expected_size.height {
        return Err(
            DescriptorError::Dimensions {
                expected: expected_size,
                actual: Size { width: descriptor.width, height: descriptor.height },
            },
        );
    }
    if descriptor.mip_levels != 1 || descriptor.array_size != 1 {
        return Err(
            DescriptorError::NotSingle {
                mip_levels: descriptor.mip_levels,
                array_size: descriptor.array_size,
            },
        );
    }
    if descriptor.sample_count != 1 || descriptor.sample_quality != 0 {
        return Err(DescriptorError::Multisampled);
    }
    Ok(())
}

/// The first thing about a descriptor that rules it out as a mailbox.
pub open spec fn mailbox_fault(descriptor: TextureDescriptor, expected: Size) -> Option<
    DescriptorError,
> {
    match layout_fault(descriptor, expected) {
        Some(error) => Some(error),
        None => if descriptor.misc_flags & MISC_SHARED != MISC_SHARED {
            Some(DescriptorError::NotShared)
        } else {
            None
        },
    }
}

/// Validates the shared-resource descriptor of an opened mailbox.
pub fn validate_shared_texture_descriptor(descriptor: &TextureDescriptor, expected_size: Size) -> (result:
    Result<(), DescriptorError>)
    ensures
        match result {
            Ok(()) => mailbox_fault(*descriptor, expected_size) is None,
            Err(error) => mailbox_fault(*descriptor, expected_size) == Some(error),
        },
{
    validate_bgra_texture_descriptor(descriptor, expected_size)?;
    if descriptor.misc_flags & MISC_SHARED != MISC_SHARED {
        return Err(DescriptorError::NotShared);
    }
    Ok(())
}

/// The sum of the first `count` binding flags.
pub open spec fn flag_sum(flags: Seq<u32>, count: int) -> int
    decreases count,
{
    if count <= 0 {
        0
    } else {
        flag_sum(flags, count - 1) + flags[count - 1]
    }
}

proof fn lemma_flag_sum_grows(flags: Seq<u32>, fewer: int, count: int)
    requires
        0 <= fewer <= count <= flags.len(),
    ensures
        0 <= flag_sum(flags, fewer) <= flag_sum(flags, count),
    decreases count,
{
    if fewer < count {
        lemma_flag_sum_grows(flags, fewer, count - 1);
    } else if count > 0 {
        lemma_flag_sum_grows(flags, fewer - 1, count - 1);
    }
}

/// The descriptor of a private texture with one mip level and no sharing.
pub open spec fn private_texture(size: Size, format: u32, bind_flags: u32) -> TextureDescriptor {
    TextureDescriptor {
        width: size.width,
        height: size.height,
        mip_levels: 1,
        array_size: 1,
        format,
        sample_count: 1,
        sample_quality: 0,
        bind_flags,
        misc_flags: 0,
    }
}

/// Describes a private texture with the given format and binding flags.
pub fn create_texture_2d(size: Size, format: u32, bind_flags: &[u32]) -> (descriptor:
    TextureDescriptor)
    requires
        flag_sum(bind_flags@, bind_flags@.len() as int) <= u32::MAX,
    ensures
        descriptor == private_texture(
            size,
            format,
            flag_sum(bind_flags@, bind_flags@.len() as int) as u32,
        ),
{
    let mut sum: u32 = 0;
    let mut i: usize = 0;
    while i < bind_flags.len()
        invariant
            i <= bind_flags@.len(),
            sum == flag_sum(bind_flags@, i as int),
            flag_sum(bind_flags@, bind_flags@.len() as int) <= u32::MAX,
        decreases bind_flags@.len() - i,
    {
        proof {
            lemma_flag_sum_grows(bind_flags@, i + 1, bind_flags@.len() as int);
        }
        sum = sum + bind_flags[i];
        i = i + 1;
    }
    TextureDescriptor {
        width: size.width,
        height: size.height,
        mip_levels: 1,
        array_size: 1,
        format,
        sample_count: 1,
        sample_quality: 0,
        bind_flags: sum,
        misc_flags: 0,
    }
}

/// A private BGRA texture is accepted as encoder input of its own size, but never as a mailbox.
pub proof fn law_private_frames_are_encoder_input(size: Size, bind_flags: u32)
    ensures
        layout_fault(private_texture(size, FORMAT_B8G8R8A8_UNORM, bind_flags), size) is None,
        mailbox_fault(private_texture(size, FORMAT_B8G8R8A8_UNORM, bind_flags), size) == Some(
            DescriptorError::NotShared,
        ),
{
    assert(0u32 & 2304u32 != 2304u32) by (bit_vector);
}

/// Builds the one allowed cross-process mailbox descriptor.
pub fn shared_texture_descriptor(size: Size) -> (descriptor: TextureDescriptor)
    ensures
        descriptor == (TextureDescriptor {
            width: size.width,
            height: size.height,
            mip_levels: 1,
            array_size: 1,
            format: FORMAT_B8G8R8A8_UNORM,
            sample_count: 1,
            sample_quality: 0,
            bind_flags: BIND_MAILBOX,
            misc_flags: MISC_SHARED,
        }),
        mailbox_fault(descriptor, size) is None,
{
    assert(2304u32 & 2304u32 == 2304u32) by (bit_vector);
    TextureDescriptor {
        width: size.width,
        height: size.height,
        mip_levels: 1,
        array_size: 1,
        format: FORMAT_B8G8R8A8_UNORM,
        sample_count: 1,
        sample_quality: 0,
        bind_flags: BIND_MAILBOX,
        misc_flags: MISC_SHARED,
    }
}

/// A mailbox texture carries both sharing flags.
pub proof fn law_mailboxes_carry_both_flags(descriptor: TextureDescriptor, expected: Size)
    requires
        mailbox_fault(descriptor, expected) is None,
    ensures
        descriptor.misc_flags & MISC_SHARED_NTHANDLE == MISC_SHARED_NTHANDLE,
        descriptor.misc_flags & MISC_SHARED_KEYEDMUTEX == MISC_SHARED_KEYEDMUTEX,
{
    let flags = descriptor.misc_flags;
    assert(flags & 2304u32 == 2304u32 ==> flags & 2048u32 == 2048u32 && flags & 256u32 == 256u32)
        by (bit_vector);
}

/// A size as `WxH`.
pub open spec fn size_text(size: Size) -> Seq<char> {
    text::decimal(size.width as nat).push('x') + text::decimal(size.height as nat)
}

/// Appends a size as `WxH`.
pub fn push_size(out: &mut String, size: Size)
    ensures
        final(out)@ == old(out)@ + size_text(size),
{
    text::push_decimal(out, size.width as u64);
    text::push_char(out, 'x');
    text::push_decimal(out, size.height as u64);
    assert(out@ =~= old(out)@ + size_text(size));
}

/// What a texture is used for.
#[derive(Debug, Clone, Copy, PartialEq, Eq, Structural)]
pub enum TextureRole {
    /// Input of the encoder.
    EncoderInput,
    /// Mailbox shared between processes.
    Mailbox,
}

impl TextureRole {
    /// What diagnostics call the texture.
    pub open spec fn subject(self) -> Seq<char> {
        match self {
            TextureRole::EncoderInput => "encoder input"@,
            TextureRole::Mailbox => "shared texture"@,
        }
    }

    fn name(self) -> (name: &'static str)
        ensures
            name@ == self.subject(),
    {
        match self {
            TextureRole::EncoderInput => "encoder input",
            TextureRole::Mailbox => "shared texture",
        }
    }
}

impl DescriptorError {
    /// What this failure says of a texture in a role.
    pub open spec fn text(self, role: TextureRole) -> Seq<char> {
        let subject = role.subject();
        match self {
            DescriptorError::Format { format } => subject
                + " must use B8G8R8A8_UNORM (got DXGI_FORMAT("@ + text::decimal(format as nat)
                + "))"@,
            DescriptorError::Dimensions { expected, actual } => subject + " dimensions must be "@
                + size_text(expected) + " (got "@ + size_text(actual) + ")"@,
            DescriptorError::NotSingle { mip_levels, array_size } => match role {
                TextureRole::Mailbox => subject + " must be a single non-array mip"@,
                TextureRole::EncoderInput => subject + " must be a single non-array mip"@
                    + " (got "@ + text::decimal(mip_levels as nat) + " mips, array size "@
                    + text::decimal(array_size as nat) + ")"@,
            },
            DescriptorError::Multisampled => subject + " must not be multisampled"@,
            DescriptorError::NotShared => subject
                + " is missing NT-handle or keyed-mutex flags"@,
        }
    }

    /// Describes this failure of a texture in a role.
    pub fn message(&self, role: TextureRole) -> (message: String)
        ensures
            message@ == self.text(role),
    {
        let mut message = role.name().to_owned();
        match *self {
            DescriptorError::Format { format } => {
                text::push_text(&mut message, " must use B8G8R8A8_UNORM (got DXGI_FORMAT(");
                text::push_decimal(&mut message, format as u64);
                text::push_text(&mut message, "))");
            },
            DescriptorError::Dimensions { expected, actual } => {
                text::push_text(&mut message, " dimensions must be ");
                push_size(&mut message, expected);
                text::push_text(&mut message, " (got ");
                push_size(&mut message, actual);
                text::push_text(&mut message, ")");
            },
            DescriptorError::NotSingle { mip_levels, array_size } => {
                text::push_text(&mut message, " must be a single non-array mip");
                if let TextureRole::EncoderInput = role {
                    text::push_text(&mut message, " (got ");
                    text::push_decimal(&mut message, mip_levels as u64);
                    text::push_text(&mut message, " mips, array size ");
                    text::push_decimal(&mut message, array_size as u64);
                    text::push_text(&mut message, ")");
                }
            },
            DescriptorError::Multisampled => {
                text::push_text(&mut message, " must not be multisampled");
            },
            DescriptorError::NotShared => {
                text::push_text(&mut message, " is missing NT-handle or keyed-mutex flags");
            },
        }
        message
    }
}

/// Rejects empty mailbox textures.
pub fn validate_size(size: Size) -> (result: Result<(), &'static str>)
    ensures
        result == if size.width > 0 && size.height > 0 {
            Ok::<(), &'static str>(())
        } else {
            Err("shared texture dimensions must be non-zero")
        },
{
    if size.width > 0 && size.height > 0 {
        Ok(())
    } else {
        Err("shared texture dimensions must be non-zero")
    }
}

/// The refusal of dimensions that are no multiples of sixteen.
pub open spec fn alignment_text(width: u32, height: u32) -> Seq<char> {
    "width and height must be multiples of 16 (got "@ + size_text(Size { width, height }) + ")"@
}

/// Rejects dimensions that the NV12 and H.264 path cannot represent.
pub fn validate_dimensions(width: u32, height: u32) -> (result: Result<(), String>)
    ensures
        match result {
            Ok(()) => width % 16 == 0 && height % 16 == 0,
            Err(message) => !(width % 16 == 0 && height % 16 == 0) && message@ == alignment_text(
                width,
                height,
            ),
        },
{
    if width % 16 == 0 && height % 16 == 0 {
        Ok(())
    } else {
        let mut message = "width and height must be multiples of 16 (got ".to_owned();
        push_size(&mut message, Size { width, height });
        text::push_text(&mut message, ")");
        Err(message)
    }
}

/// Encoder input is a single image of eight-bit BGRA in exactly the expected size, without
/// multisampling; a mailbox also has both sharing flags.
pub proof fn law_usable_textures_are_accepted(
    descriptor: TextureDescriptor,
    expected: Size,
    input: Result<(), DescriptorError>,
    mailbox: Result<(), DescriptorError>,
)
    requires
        call_ensures(validate_bgra_texture_descriptor, (&descriptor, expected), input),
        call_ensures(validate_shared_texture_descriptor, (&descriptor, expected), mailbox),
    ensures
        input is Ok <==> {
            &&& descriptor.format == 87
            &&& descriptor.width == expected.width && descriptor.height == expected.height
            &&& descriptor.mip_levels == 1 && descriptor.array_size == 1
            &&& descriptor.sample_count == 1 && descriptor.sample_quality == 0
        },
        mailbox is Ok <==> input is Ok && descriptor.misc_flags / 256 % 2 == 1
            && descriptor.misc_flags / 2048 % 2 == 1,
{
    let flags = descriptor.misc_flags;
    assert((flags & 2304 == 2304) == (flags / 256 % 2 == 1 && flags / 2048 % 2 == 1))
        by (bit_vector);
}

/// The mailbox that is created is one that is accepted: eight-bit BGRA of its size, bound for
/// shaders and as a render target, and shared by handle and key.
pub proof fn law_created_mailboxes_are_accepted(
    size: Size,
    descriptor: TextureDescriptor,
    result: Result<(), DescriptorError>,
)
    requires
        call_ensures(shared_texture_descriptor, (size,), descriptor),
        call_ensures(validate_shared_texture_descriptor, (&descriptor, size), result),
    ensures
        result is Ok,
        descriptor.width == size.width && descriptor.height == size.height,
        descriptor.format == 87,
        descriptor.bind_flags == 40,
        descriptor.misc_flags == 2304,
{
}

/// A private texture has the size, the format and the sum of the binding flags it is given, and is
/// not shared.
pub proof fn law_private_textures_are_described(
    size: Size,
    format: u32,
    flags: &[u32],
    descriptor: TextureDescriptor,
)
    requires
        flags@.len() == 2,
        flags@[0] + flags@[1] <= u32::MAX,
        call_ensures(create_texture_2d, (size, format, flags), descriptor),
    ensures
        descriptor.width == size.width && descriptor.height == size.height,
        descriptor.format == format,
        descriptor.bind_flags == flags@[0] + flags@[1],
        descriptor.misc_flags == 0,
        descriptor.mip_levels == 1 && descriptor.array_size == 1,
        descriptor.sample_count == 1 && descriptor.sample_quality == 0,
{
    reveal_with_fuel(flag_sum, 3);
}

/// A mailbox has an area, and the encoder takes multiples of sixteen.
pub proof fn law_dimensions_are_checked(
    size: Size,
    result: Result<(), &'static str>,
    aligned: Result<(), String>,
)
    requires
        call_ensures(validate_size, (size,), result),
        call_ensures(validate_dimensions, (size.width, size.height), aligned),
    ensures
        result is Ok <==> size.width > 0 && size.height > 0,
        aligned is Ok <==> size.width % 16 == 0 && size.height % 16 == 0,
{
}

/// A size is written as its width and its height, in decimal, with an `x` between them.
pub proof fn law_sizes_are_written(
    out: &mut String,
    size: Size,
    width: &mut String,
    height: &mut String,
)
    requires
        call_ensures(push_size, (out, size), ()),
        old(width)@ == old(out)@,
        call_ensures(text::push_decimal, (width, size.width as u64), ()),
        old(height)@ == final(width)@.push('x'),
        call_ensures(text::push_decimal, (height, size.height as u64), ()),
    ensures
        final(out)@ == final(height)@,
{
    assert(final(out)@ =~= final(height)@);
}

} // verus!
