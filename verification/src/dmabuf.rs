//! Which DMA-BUF textures can be copied, and the textures that a copy needs.

use std::sync::Arc;
use vstd::arithmetic::power::{lemma_pow1, lemma_pow_adds, lemma_pow_positive, pow};
use vstd::prelude::*;
use crate::external_texture::{DmabufTextureDescriptor, DmabufTexturePlane};
use crate::ids::hex_digit;
use crate::retirement::{DmabufRetirement, DmabufRetirementPermit};

verus! {

/// Blue, green, red and alpha bytes.
pub const DRM_FORMAT_ARGB8888: u32 = 0x34325241;

/// Blue, green and red bytes, and one that is ignored.
pub const DRM_FORMAT_XRGB8888: u32 = 0x34325258;

/// Red, green, blue and alpha bytes.
pub const DRM_FORMAT_ABGR8888: u32 = 0x34324241;

/// Red, green and blue bytes, and one that is ignored.
pub const DRM_FORMAT_XBGR8888: u32 = 0x34324258;

/// How many planes a texture may have.
pub const MAX_PLANES: usize = 4;

/// The code that four characters spell, the first in the least significant byte.
pub open spec fn fourcc(name: Seq<char>) -> int {
    name[0] as int + name[1] as int * 0x100 + name[2] as int * 0x10000 + name[3] as int
        * 0x1000000
}

/// The four formats are named by what their codes spell.
pub proof fn format_codes_spell_their_names()
    ensures
        DRM_FORMAT_ARGB8888 == fourcc("AR24"@),
        DRM_FORMAT_XRGB8888 == fourcc("XR24"@),
        DRM_FORMAT_ABGR8888 == fourcc("AB24"@),
        DRM_FORMAT_XBGR8888 == fourcc("XB24"@),
{
    reveal_strlit("AR24");
    reveal_strlit("XR24");
    reveal_strlit("AB24");
    reveal_strlit("XB24");
}

/// How the pixels of a texture are stored.
#[derive(Clone, Copy, Debug, PartialEq, Eq, Structural)]
pub enum TextureFormat {
    Bgra8Unorm,
    Rgba8Unorm,
}

/// Why a texture cannot be imported or copied.
#[derive(Debug, PartialEq, Eq)]
pub enum DmabufError {
    /// The GPU could not be asked which copies are complete.
    PollFailed,
    /// As many textures await their copies as there may be.
    TooManyPending(usize),
    UnsupportedFormat(u32),
    ZeroDimensions,
    PlaneCount,
    ZeroPlane,
    /// The renderer does not run on Vulkan.
    NotVulkan,
    /// An extension that the import needs is not enabled.
    MissingExtension(&'static str),
    ImageCreation,
    NoPlanes,
    MemoryQuery,
    NoMemoryType,
    MemoryImport,
    MemoryBinding,
}

/// The text of a number in decimal digits.
pub open spec fn decimal_text(value: nat) -> Seq<char>
    decreases value,
{
    if value < 10 {
        seq![hex_digit(value as int)]
    } else {
        decimal_text(value / 10).push(hex_digit((value % 10) as int))
    }
}

/// The text of a format code: eight lower-case hexadecimal digits behind `0x`.
pub open spec fn code_text(code: u32) -> Seq<char> {
    "0x"@ + Seq::new(8, |place: int| hex_digit((code as int / pow(16, (7 - place) as nat)) % 16))
}

/// The digit of a value below sixteen.
fn digit(value: u32) -> (text: &'static str)
    requires
        value < 16,
    ensures
        text@ == seq![hex_digit(value as int)],
{
    proof {
        reveal_strlit("0123456789abcdef");
        reveal_strlit("0");
        reveal_strlit("1");
        reveal_strlit("2");
        reveal_strlit("3");
        reveal_strlit("4");
        reveal_strlit("5");
        reveal_strlit("6");
        reveal_strlit("7");
        reveal_strlit("8");
        reveal_strlit("9");
        reveal_strlit("a");
        reveal_strlit("b");
        reveal_strlit("c");
        reveal_strlit("d");
        reveal_strlit("e");
        reveal_strlit("f");
    }
    let text = match value {
        0 => "0",
        1 => "1",
        2 => "2",
        3 => "3",
        4 => "4",
        5 => "5",
        6 => "6",
        7 => "7",
        8 => "8",
        9 => "9",
        10 => "a",
        11 => "b",
        12 => "c",
        13 => "d",
        14 => "e",
        _ => "f",
    };
    assert(text@ =~= seq![hex_digit(value as int)]);
    text
}

/// Returns the text of a number in decimal digits.
fn format_count(count: usize) -> (text: String)
    ensures
        text@ == decimal_text(count as nat),
    decreases count,
{
    let last = digit((count % 10) as u32);
    if count < 10 {
        return last.to_owned();
    }
    let mut text = format_count(count / 10);
    text.append(last);
    assert(text@ =~= decimal_text(count as nat));
    text
}

/// Returns the text of a format code.
fn format_code(code: u32) -> (text: String)
    ensures
        text@ == code_text(code),
{
    let mut text = "0x".to_owned();
    let mut unit: u32 = 0x10000000;
    let mut place: usize = 0;
    proof {
        reveal_strlit("0x");
        reveal_with_fuel(pow, 8);
        assert(text@ =~= code_text(code).take(2));
    }
    while place < 8
        invariant
            place <= 8,
            "0x"@.len() == 2,
            place < 8 ==> unit == pow(16, (7 - place) as nat),
            text@ == code_text(code).take(2 + place),
        decreases 8 - place,
    {
        proof {
            lemma_pow_positive(16, (7 - place) as nat);
        }
        text.append(digit(code / unit % 16));
        proof {
            assert(text@ =~= code_text(code).take(2 + place + 1));
            if place < 7 {
                lemma_pow_adds(16, (6 - place) as nat, 1);
                lemma_pow1(16);
                assert(unit == pow(16, (6 - place) as nat) * 16);
            }
        }
        unit = unit / 16;
        place += 1;
    }
    assert(text@ =~= code_text(code));
    text
}

impl DmabufError {
    /// The text of the error.
    pub open spec fn text(self) -> Seq<char> {
        match self {
            DmabufError::PollFailed => "Failed to poll completed DMA-BUF copies"@,
            DmabufError::TooManyPending(max_pending) =>
                "too many DMA-BUF textures are awaiting GPU copy completion (maximum "@
                + decimal_text(max_pending as nat) + ")"@,
            DmabufError::UnsupportedFormat(code) => "unsupported DMA-BUF DRM format "@ + code_text(
                code,
            ),
            DmabufError::ZeroDimensions => "DMA-BUF texture dimensions must be non-zero"@,
            DmabufError::PlaneCount => "DMA-BUF texture must have between one and four planes"@,
            DmabufError::ZeroPlane => "DMA-BUF plane stride and size must be non-zero"@,
            DmabufError::NotVulkan => "DMA-BUF import requires the Vulkan wgpu backend"@,
            DmabufError::MissingExtension(name) =>
                "Vulkan device did not enable required DMA-BUF extension "@ + name@,
            DmabufError::ImageCreation => "Failed to create Vulkan image for DMA-BUF"@,
            DmabufError::NoPlanes => "DMA-BUF texture has no planes"@,
            DmabufError::MemoryQuery => "Failed to query DMA-BUF memory properties"@,
            DmabufError::NoMemoryType => "DMA-BUF has no Vulkan-compatible memory type"@,
            DmabufError::MemoryImport => "Failed to import DMA-BUF Vulkan memory"@,
            DmabufError::MemoryBinding => "Failed to bind imported DMA-BUF memory"@,
        }
    }

    /// Returns the text of the error.
    pub fn message(&self) -> (message: String)
        ensures
            message@ == self.text(),
    {
        match self {
            DmabufError::PollFailed => "Failed to poll completed DMA-BUF copies".to_owned(),
            DmabufError::TooManyPending(max_pending) => {
                let mut message =
                    "too many DMA-BUF textures are awaiting GPU copy completion (maximum ".to_owned();
                message.append(format_count(*max_pending).as_str());
                message.append(")");
                message
            },
            DmabufError::UnsupportedFormat(code) => {
                let mut message = "unsupported DMA-BUF DRM format ".to_owned();
                message.append(format_code(*code).as_str());
                message
            },
            DmabufError::ZeroDimensions => "DMA-BUF texture dimensions must be non-zero".to_owned(),
            DmabufError::PlaneCount => {
                "DMA-BUF texture must have between one and four planes".to_owned()
            },
            DmabufError::ZeroPlane => "DMA-BUF plane stride and size must be non-zero".to_owned(),
            DmabufError::NotVulkan => "DMA-BUF import requires the Vulkan wgpu backend".to_owned(),
            DmabufError::MissingExtension(name) => {
                let mut message =
                    "Vulkan device did not enable required DMA-BUF extension ".to_owned();
                message.append(*name);
                message
            },
            DmabufError::ImageCreation => "Failed to create Vulkan image for DMA-BUF".to_owned(),
            DmabufError::NoPlanes => "DMA-BUF texture has no planes".to_owned(),
            DmabufError::MemoryQuery => "Failed to query DMA-BUF memory properties".to_owned(),
            DmabufError::NoMemoryType => "DMA-BUF has no Vulkan-compatible memory type".to_owned(),
            DmabufError::MemoryImport => "Failed to import DMA-BUF Vulkan memory".to_owned(),
            DmabufError::MemoryBinding => "Failed to bind imported DMA-BUF memory".to_owned(),
        }
    }
}

/// The texture format of a DRM format code, of those that can be copied.
pub open spec fn format_of_fourcc(code: u32) -> Option<TextureFormat> {
    if code == fourcc("AR24"@) || code == fourcc("XR24"@) {
        Some(TextureFormat::Bgra8Unorm)
    } else if code == fourcc("AB24"@) || code == fourcc("XB24"@) {
        Some(TextureFormat::Rgba8Unorm)
    } else {
        None
    }
}

/// Returns the texture format of a DRM format code.
pub fn texture_format_for_drm_fourcc(fourcc: u32) -> (result: Result<TextureFormat, DmabufError>)
    ensures
        match format_of_fourcc(fourcc) {
            Some(format) => result == Ok::<TextureFormat, DmabufError>(format),
            None => result == Err::<TextureFormat, DmabufError>(
                DmabufError::UnsupportedFormat(fourcc),
            ),
        },
{
    proof {
        format_codes_spell_their_names();
    }
    if fourcc == DRM_FORMAT_ARGB8888 || fourcc == DRM_FORMAT_XRGB8888 {
        Ok(TextureFormat::Bgra8Unorm)
    } else if fourcc == DRM_FORMAT_ABGR8888 || fourcc == DRM_FORMAT_XBGR8888 {
        Ok(TextureFormat::Rgba8Unorm)
    } else {
        Err(DmabufError::UnsupportedFormat(fourcc))
    }
}

/// Whether a plane holds no rows.
pub open spec fn is_zero_plane<Fd>(plane: DmabufTexturePlane<Fd>) -> bool {
    plane.stride == 0 || plane.size == 0
}

/// What is wrong with a descriptor, the first thing that is.
pub open spec fn descriptor_fault<Fd>(descriptor: DmabufTextureDescriptor<Fd>) -> Option<
    DmabufError,
> {
    if descriptor.width == 0 || descriptor.height == 0 {
        Some(DmabufError::ZeroDimensions)
    } else if descriptor.planes@.len() == 0 || descriptor.planes@.len() > 4 {
        Some(DmabufError::PlaneCount)
    } else if exists|i: int|
        0 <= i < descriptor.planes@.len() && is_zero_plane(#[trigger] descriptor.planes@[i]) {
        Some(DmabufError::ZeroPlane)
    } else {
        None
    }
}

/// Checks a descriptor: its dimensions, then the number of its planes, then each plane.
pub fn validate_descriptor<Fd>(descriptor: &DmabufTextureDescriptor<Fd>) -> (result: Result<
    (),
    DmabufError,
>)
    ensures
        match descriptor_fault(*descriptor) {
            Some(error) => result == Err::<(), DmabufError>(error),
            None => result is Ok,
        },
{
    if descriptor.width == 0 || descriptor.height == 0 {
        return Err(DmabufError::ZeroDimensions);
    }
    if descriptor.planes.len() == 0 || descriptor.planes.len() > MAX_PLANES {
        return Err(DmabufError::PlaneCount);
    }
    let mut i: usize = 0;
    while i < descriptor.planes.len()
        invariant
            descriptor.width != 0,
            descriptor.height != 0,
            1 <= descriptor.planes@.len() <= 4,
            i <= descriptor.planes@.len(),
            forall|j: int| 0 <= j < i ==> !is_zero_plane(#[trigger] descriptor.planes@[j]),
        decreases descriptor.planes@.len() - i,
    {
        if descriptor.planes[i].stride == 0 || descriptor.planes[i].size == 0 {
            assert(is_zero_plane(descriptor.planes@[i as int]));
            return Err(DmabufError::ZeroPlane);
        }
        i += 1;
    }
    Ok(())
}

/// The size of a texture.
#[derive(Clone, Copy, Debug, PartialEq, Eq, Structural)]
pub struct Extent3d {
    pub width: u32,
    pub height: u32,
    pub depth_or_array_layers: u32,
}

/// What a texture can be used for.
#[derive(Clone, Copy, Debug, PartialEq, Eq, Structural)]
pub struct TextureUsages {
    pub copy_src: bool,
    pub copy_dst: bool,
    pub texture_binding: bool,
}

/// How many dimensions a texture has.
#[derive(Clone, Copy, Debug, PartialEq, Eq, Structural)]
pub enum TextureDimension {
    D1,
    D2,
    D3,
}

/// A texture for the renderer to create. It is viewed in its own format alone.
#[derive(Clone, Copy, Debug, PartialEq, Eq)]
pub struct TextureDescriptor {
    pub label: &'static str,
    pub size: Extent3d,
    pub mip_level_count: u32,
    pub sample_count: u32,
    pub dimension: TextureDimension,
    pub format: TextureFormat,
    pub usage: TextureUsages,
}

/// A plain two-dimensional texture.
pub open spec fn is_plain_texture(
    descriptor: TextureDescriptor,
    size: Extent3d,
    format: TextureFormat,
) -> bool {
    &&& descriptor.size == size
    &&& descriptor.mip_level_count == 1
    &&& descriptor.sample_count == 1
    &&& descriptor.dimension == TextureDimension::D2
    &&& descriptor.format == format
}

/// Whether a descriptor is that of the texture that the renderer keeps: copied into once, and
/// sampled from.
pub open spec fn is_owned_texture(
    descriptor: TextureDescriptor,
    size: Extent3d,
    format: TextureFormat,
) -> bool {
    &&& is_plain_texture(descriptor, size, format)
    &&& descriptor.label@ == "gpui_owned_external_texture"@
    &&& descriptor.usage == (TextureUsages {
        copy_src: false,
        copy_dst: true,
        texture_binding: true,
    })
}

/// Whether a descriptor is that of the texture that stands for the DMA-BUF: copied from.
pub open spec fn is_imported_texture(
    descriptor: TextureDescriptor,
    size: Extent3d,
    format: TextureFormat,
) -> bool {
    &&& is_plain_texture(descriptor, size, format)
    &&& descriptor.label@ == "gpui_imported_dmabuf_texture"@
    &&& descriptor.usage == (TextureUsages {
        copy_src: true,
        copy_dst: false,
        texture_binding: false,
    })
}

/// The texture that the renderer keeps.
pub fn owned_texture_descriptor(size: Extent3d, format: TextureFormat) -> (descriptor:
    TextureDescriptor)
    ensures
        is_owned_texture(descriptor, size, format),
{
    TextureDescriptor {
        label: "gpui_owned_external_texture",
        size,
        mip_level_count: 1,
        sample_count: 1,
        dimension: TextureDimension::D2,
        format,
        usage: TextureUsages { copy_src: false, copy_dst: true, texture_binding: true },
    }
}

/// The texture that stands for the DMA-BUF.
pub fn imported_texture_descriptor(size: Extent3d, format: TextureFormat) -> (descriptor:
    TextureDescriptor)
    ensures
        is_imported_texture(descriptor, size, format),
{
    TextureDescriptor {
        label: "gpui_imported_dmabuf_texture",
        size,
        mip_level_count: 1,
        sample_count: 1,
        dimension: TextureDimension::D2,
        format,
        usage: TextureUsages { copy_src: true, copy_dst: false, texture_binding: false },
    }
}

/// What a copy of a DMA-BUF texture needs.
#[derive(Debug, PartialEq, Eq)]
pub struct CopyPlan {
    /// How much is copied.
    pub size: Extent3d,
    pub format: TextureFormat,
    /// The texture that is copied from.
    pub imported: TextureDescriptor,
    /// The texture that is copied into.
    pub owned: TextureDescriptor,
}

/// The size of the texture that a descriptor describes.
pub open spec fn texture_size<Fd>(descriptor: DmabufTextureDescriptor<Fd>) -> Extent3d {
    Extent3d { width: descriptor.width, height: descriptor.height, depth_or_array_layers: 1 }
}

/// Why a texture cannot be copied, as far as its descriptor shows.
pub open spec fn copy_fault<Fd>(descriptor: DmabufTextureDescriptor<Fd>) -> Option<DmabufError> {
    if format_of_fourcc(descriptor.drm_format) is None {
        Some(DmabufError::UnsupportedFormat(descriptor.drm_format))
    } else {
        descriptor_fault(descriptor)
    }
}

/// Plans the copy of a texture, or says why it cannot be copied: its format first, then the rest
/// of its descriptor.
pub fn plan_copy<Fd>(descriptor: &DmabufTextureDescriptor<Fd>) -> (result: Result<
    CopyPlan,
    DmabufError,
>)
    ensures
        match copy_fault(*descriptor) {
            Some(error) => result == Err::<CopyPlan, DmabufError>(error),
            None => {
                &&& result matches Ok(plan)
                &&& plan.size == texture_size(*descriptor)
                &&& plan.size.width == descriptor.width
                &&& plan.size.height == descriptor.height
                &&& plan.size.depth_or_array_layers == 1
                &&& Some(plan.format) == format_of_fourcc(descriptor.drm_format)
                &&& is_imported_texture(plan.imported, plan.size, plan.format)
                &&& is_owned_texture(plan.owned, plan.size, plan.format)
            },
        },
{
    let format = match texture_format_for_drm_fourcc(descriptor.drm_format) {
        Ok(format) => format,
        Err(error) => {
            return Err(error);
        },
    };
    match validate_descriptor(descriptor) {
        Ok(()) => {},
        Err(error) => {
            return Err(error);
        },
    }
    let size = Extent3d {
        width: descriptor.width,
        height: descriptor.height,
        depth_or_array_layers: 1,
    };
    Ok(
        CopyPlan {
            size,
            format,
            imported: imported_texture_descriptor(size, format),
            owned: owned_texture_descriptor(size, format),
        },
    )
}

/// How a copy begins.
pub enum CopyStep {
    /// There is a permit to copy.
    Permitted(DmabufRetirementPermit),
    /// Ask the GPU which copies are complete, and ask for a permit again.
    Poll,
}

/// The step that follows a first request for a permit.
pub fn step_for(permit: Option<DmabufRetirementPermit>) -> (step: CopyStep)
    ensures
        step == match permit {
            Some(permit) => CopyStep::Permitted(permit),
            None => CopyStep::Poll,
        },
{
    match permit {
        Some(permit) => CopyStep::Permitted(permit),
        None => CopyStep::Poll,
    }
}

/// Asks for a permit to copy.
pub fn first_ask(retirement: &Arc<DmabufRetirement>) -> (step: CopyStep)
    ensures
        step matches CopyStep::Permitted(permit) ==> permit.issuer() == *retirement
            && permit.found() < retirement.capacity(),
{
    step_for(retirement.try_acquire())
}

/// Takes note of a permit that was asked for again, or says that there are too many textures.
pub fn permit_or_refusal(permit: Option<DmabufRetirementPermit>, max_pending: usize) -> (result:
    Result<DmabufRetirementPermit, DmabufError>)
    ensures
        match permit {
            Some(permit) => result == Ok::<DmabufRetirementPermit, DmabufError>(permit),
            None => result == Err::<DmabufRetirementPermit, DmabufError>(
                DmabufError::TooManyPending(max_pending),
            ),
        },
{
    match permit {
        Some(permit) => Ok(permit),
        None => Err(DmabufError::TooManyPending(max_pending)),
    }
}

/// Asks again for a permit to copy once the GPU was asked which copies are complete. `polled`
/// tells whether it could be asked.
pub fn acquire_after_poll(retirement: &Arc<DmabufRetirement>, polled: bool) -> (result: Result<
    DmabufRetirementPermit,
    DmabufError,
>)
    ensures
        !polled <==> result == Err::<DmabufRetirementPermit, DmabufError>(DmabufError::PollFailed),
        match result {
            Ok(permit) => permit.issuer() == *retirement && permit.found()
                < retirement.capacity(),
            Err(error) => polled ==> error == DmabufError::TooManyPending(retirement.capacity()),
        },
{
    if !polled {
        return Err(DmabufError::PollFailed);
    }
    permit_or_refusal(retirement.try_acquire(), retirement.max_pending())
}

/// Begins the copy of a texture: a permit comes first, then the plan. A permit whose texture
/// cannot be copied is dropped.
pub fn begin_copy<Fd>(
    permit: Result<DmabufRetirementPermit, DmabufError>,
    descriptor: &DmabufTextureDescriptor<Fd>,
) -> (result: Result<(DmabufRetirementPermit, CopyPlan), DmabufError>)
    ensures
        match permit {
            Err(error) => result == Err::<(DmabufRetirementPermit, CopyPlan), DmabufError>(error),
            Ok(permit) => match copy_fault(*descriptor) {
                Some(error) => result == Err::<(DmabufRetirementPermit, CopyPlan), DmabufError>(
                    error,
                ),
                None => {
                    &&& result matches Ok((kept, plan))
                    &&& kept == permit
                    &&& plan.size == texture_size(*descriptor)
                    &&& plan.size.width == descriptor.width
                    &&& plan.size.height == descriptor.height
                    &&& plan.size.depth_or_array_layers == 1
                    &&& Some(plan.format) == format_of_fourcc(descriptor.drm_format)
                    &&& is_imported_texture(plan.imported, plan.size, plan.format)
                    &&& is_owned_texture(plan.owned, plan.size, plan.format)
                },
            },
        },
{
    let permit = match permit {
        Ok(permit) => permit,
        Err(error) => {
            return Err(error);
        },
    };
    match plan_copy(descriptor) {
        Ok(plan) => Ok((permit, plan)),
        Err(error) => Err(error),
    }
}

} // verus!
