//! The steps in which Vulkan takes over a DMA-BUF. The renderer performs what a step asks for
//! and reports the outcome to the next one.

use vstd::prelude::*;
use crate::dmabuf::{DmabufError, TextureFormat};
use crate::external_texture::{DmabufTextureDescriptor, DmabufTexturePlane};
use crate::mime::string_views;
use crate::text::same_text;

verus! {

/// The extension that brings image layouts given by format modifiers.
pub const DRM_FORMAT_MODIFIER_EXTENSION: &'static str = "VK_EXT_image_drm_format_modifier";

/// The device extensions that an import needs.
pub const REQUIRED_EXTENSIONS: [&'static str; 3] = [
    "VK_KHR_external_memory_fd",
    "VK_EXT_external_memory_dma_buf",
    "VK_EXT_image_drm_format_modifier",
];

/// The names of the extensions that an import needs, in the order in which they are looked for.
pub open spec fn required_extensions() -> Seq<Seq<char>> {
    seq![
        "VK_KHR_external_memory_fd"@,
        "VK_EXT_external_memory_dma_buf"@,
        "VK_EXT_image_drm_format_modifier"@,
    ]
}

/// The first needed extension, from a place in the order on, that is not among some extensions.
pub open spec fn first_missing(extensions: Seq<Seq<char>>, from: int) -> Option<Seq<char>>
    decreases 3 - from,
{
    if from < 0 || from >= 3 {
        None
    } else if !extensions.contains(required_extensions()[from]) {
        Some(required_extensions()[from])
    } else {
        first_missing(extensions, from + 1)
    }
}

/// Whether an extension is among some extensions.
fn has_extension(extensions: &Vec<String>, name: &str) -> (found: bool)
    ensures
        found == string_views(extensions@).contains(name@),
{
    let mut i: usize = 0;
    while i < extensions.len()
        invariant
            i <= extensions@.len(),
            forall|j: int| 0 <= j < i ==> (#[trigger] string_views(extensions@)[j]) != name@,
        decreases extensions@.len() - i,
    {
        assert(string_views(extensions@)[i as int] == extensions@[i as int]@);
        if same_text(extensions[i].as_str(), name) {
            return true;
        }
        i += 1;
    }
    false
}

/// The first extension that an import needs and that is not among some extensions.
pub fn missing_extension(extensions: &Vec<String>) -> (missing: Option<&'static str>)
    ensures
        match missing {
            Some(name) => first_missing(string_views(extensions@), 0) == Some(name@),
            None => first_missing(string_views(extensions@), 0) is None,
        },
{
    let mut i: usize = 0;
    while i < REQUIRED_EXTENSIONS.len()
        invariant
            i <= 3,
            first_missing(string_views(extensions@), i as int) == first_missing(
                string_views(extensions@),
                0,
            ),
        decreases 3 - i,
    {
        assert(REQUIRED_EXTENSIONS@[i as int]@ == required_extensions()[i as int]);
        if !has_extension(extensions, REQUIRED_EXTENSIONS[i]) {
            return Some(REQUIRED_EXTENSIONS[i]);
        }
        i += 1;
    }
    None
}

/// How a device for imports is made.
#[derive(Clone, Copy, Debug, PartialEq, Eq, Structural)]
pub enum DeviceChoice {
    /// The adapter cannot import DMA-BUFs.
    Unsupported,
    /// The adapter runs on Vulkan but does not show itself as a Vulkan adapter.
    NoAdapter,
    /// Open a device.
    Open,
}

/// Chooses how a device for imports is made. `supported` are the extensions of the Vulkan
/// adapter, `None` when the adapter does not show itself as one.
pub fn choose_device(on_vulkan: bool, supported: &Option<Vec<String>>) -> (choice: DeviceChoice)
    ensures
        choice == if !on_vulkan {
            DeviceChoice::Unsupported
        } else {
            match supported {
                None => DeviceChoice::NoAdapter,
                Some(supported) => if first_missing(string_views(supported@), 0) is Some {
                    DeviceChoice::Unsupported
                } else {
                    DeviceChoice::Open
                },
            }
        },
{
    if !on_vulkan {
        return DeviceChoice::Unsupported;
    }
    match supported {
        None => DeviceChoice::NoAdapter,
        Some(supported) => match missing_extension(supported) {
            Some(_) => DeviceChoice::Unsupported,
            None => DeviceChoice::Open,
        },
    }
}

/// Whether the modifier extension is to be asked for beside the extensions that a device opens
/// with.
pub fn needs_modifier_extension(extensions: &Vec<String>) -> (needed: bool)
    ensures
        needed == !string_views(extensions@).contains("VK_EXT_image_drm_format_modifier"@),
{
    !has_extension(extensions, DRM_FORMAT_MODIFIER_EXTENSION)
}

/// How Vulkan stores the pixels of an image.
#[derive(Clone, Copy, Debug, PartialEq, Eq, Structural)]
pub enum VulkanFormat {
    B8G8R8A8Unorm,
    R8G8B8A8Unorm,
}

/// The Vulkan format of a texture format.
pub fn vulkan_format(format: TextureFormat) -> (vulkan: VulkanFormat)
    ensures
        vulkan == match format {
            TextureFormat::Bgra8Unorm => VulkanFormat::B8G8R8A8Unorm,
            TextureFormat::Rgba8Unorm => VulkanFormat::R8G8B8A8Unorm,
        },
{
    match format {
        TextureFormat::Bgra8Unorm => VulkanFormat::B8G8R8A8Unorm,
        TextureFormat::Rgba8Unorm => VulkanFormat::R8G8B8A8Unorm,
    }
}

/// Where a plane of an image lies in its memory.
#[derive(Clone, Copy, Debug, PartialEq, Eq, Structural)]
pub struct PlaneLayout {
    pub offset: u64,
    pub size: u64,
    pub row_pitch: u64,
}

/// The layout of a plane.
pub open spec fn layout_of<Fd>(plane: DmabufTexturePlane<Fd>) -> PlaneLayout {
    PlaneLayout { offset: plane.offset, size: plane.size, row_pitch: plane.stride as u64 }
}

/// The layouts of some planes, in their order.
pub open spec fn layouts_of<Fd>(planes: Seq<DmabufTexturePlane<Fd>>) -> Seq<PlaneLayout> {
    planes.map_values(|plane: DmabufTexturePlane<Fd>| layout_of(plane))
}

/// Returns the layouts of some planes, in their order.
pub fn plane_layouts<Fd>(planes: &Vec<DmabufTexturePlane<Fd>>) -> (layouts: Vec<PlaneLayout>)
    ensures
        layouts@ == layouts_of(planes@),
{
    let mut layouts: Vec<PlaneLayout> = Vec::new();
    let mut i: usize = 0;
    while i < planes.len()
        invariant
            i <= planes@.len(),
            layouts@.len() == i,
            forall|j: int| 0 <= j < i ==> #[trigger] layouts@[j] == layout_of(planes@[j]),
        decreases planes@.len() - i,
    {
        layouts.push(
            PlaneLayout {
                offset: planes[i].offset,
                size: planes[i].size,
                row_pitch: planes[i].stride as u64,
            },
        );
        i += 1;
    }
    assert(layouts@ =~= layouts_of(planes@));
    layouts
}

/// What a Vulkan image can be used for.
#[derive(Clone, Copy, Debug, PartialEq, Eq, Structural)]
pub enum ImageUsage {
    /// It can be copied from.
    TransferSource,
    /// It can be copied into.
    TransferDestination,
    /// It can be sampled from.
    Sampled,
}

/// How many dimensions a Vulkan image has.
#[derive(Clone, Copy, Debug, PartialEq, Eq, Structural)]
pub enum ImageKind {
    OneDimensional,
    TwoDimensional,
    ThreeDimensional,
}

/// How the pixels of a Vulkan image lie in its memory.
#[derive(Clone, Copy, Debug, PartialEq, Eq, Structural)]
pub enum ImageTiling {
    Optimal,
    Linear,
    /// As the format modifier says.
    FormatModifier,
}

/// The Vulkan image of a DMA-BUF.
#[derive(Debug)]
pub struct ImageRequest {
    pub kind: ImageKind,
    pub tiling: ImageTiling,
    pub usage: ImageUsage,
    pub format: VulkanFormat,
    pub width: u32,
    pub height: u32,
    pub depth: u32,
    pub mip_levels: u32,
    pub array_layers: u32,
    pub samples: u32,
    pub modifier: u64,
    pub layouts: Vec<PlaneLayout>,
}

/// Begins an import: the image to create, or why none can be. `enabled` are the extensions of
/// the Vulkan device, `None` when the renderer does not run on one.
pub fn begin_import<Fd>(
    enabled: &Option<Vec<String>>,
    descriptor: &DmabufTextureDescriptor<Fd>,
    format: TextureFormat,
) -> (result: Result<ImageRequest, DmabufError>)
    ensures
        match enabled {
            None => result == Err::<ImageRequest, DmabufError>(DmabufError::NotVulkan),
            Some(enabled) => match first_missing(string_views(enabled@), 0) {
                Some(missing) => {
                    &&& result matches Err(DmabufError::MissingExtension(name))
                    &&& name@ == missing
                },
                None => {
                    &&& result matches Ok(request)
                    &&& request.kind == ImageKind::TwoDimensional
                    &&& request.tiling == ImageTiling::FormatModifier
                    &&& request.usage == ImageUsage::TransferSource
                    &&& request.format == match format {
                        TextureFormat::Bgra8Unorm => VulkanFormat::B8G8R8A8Unorm,
                        TextureFormat::Rgba8Unorm => VulkanFormat::R8G8B8A8Unorm,
                    }
                    &&& request.width == descriptor.width
                    &&& request.height == descriptor.height
                    &&& request.depth == 1
                    &&& request.mip_levels == 1
                    &&& request.array_layers == 1
                    &&& request.samples == 1
                    &&& request.modifier == descriptor.modifier
                    &&& request.layouts@ == layouts_of(descriptor.planes@)
                },
            },
        },
{
    let enabled = match enabled {
        Some(enabled) => enabled,
        None => {
            return Err(DmabufError::NotVulkan);
        },
    };
    match missing_extension(enabled) {
        Some(name) => {
            return Err(DmabufError::MissingExtension(name));
        },
        None => {},
    }
    let layouts = plane_layouts(&descriptor.planes);
    Ok(
        ImageRequest {
            kind: ImageKind::TwoDimensional,
            tiling: ImageTiling::FormatModifier,
            usage: ImageUsage::TransferSource,
            format: vulkan_format(format),
            width: descriptor.width,
            height: descriptor.height,
            depth: 1,
            mip_levels: 1,
            array_layers: 1,
            samples: 1,
            modifier: descriptor.modifier,
            layouts,
        },
    )
}

/// Whether a set of memory types, one bit each, holds the type of an index.
pub open spec fn has_type(types: u32, index: u32) -> bool {
    types & (1u32 << index) != 0
}

/// Whether an index is that of the first memory type that two sets have in common.
pub open spec fn is_first_common_type(required: u32, available: u32, index: u32) -> bool {
    &&& index < 32
    &&& has_type(required, index)
    &&& has_type(available, index)
    &&& forall|earlier: u32|
        earlier < index ==> !(has_type(required, earlier) && #[trigger] has_type(
            available,
            earlier,
        ))
}

/// Whether two sets of memory types have none in common.
pub open spec fn no_common_type(required: u32, available: u32) -> bool {
    forall|index: u32|
        index < 32 ==> !(has_type(required, index) && #[trigger] has_type(available, index))
}

/// The first memory type that an image can live in and that its DMA-BUF can be imported as.
pub fn memory_type_index(required: u32, available: u32) -> (index: Option<u32>)
    ensures
        match index {
            Some(index) => is_first_common_type(required, available, index),
            None => no_common_type(required, available),
        },
{
    let common = required & available;
    let mut index: u32 = 0;
    while index < 32
        invariant
            index <= 32,
            common == required & available,
            forall|earlier: u32|
                earlier < index ==> !(has_type(required, earlier) && #[trigger] has_type(
                    available,
                    earlier,
                )),
        decreases 32 - index,
    {
        assert((required & available) & (1u32 << index) != 0 <==> required & (1u32 << index) != 0
            && available & (1u32 << index) != 0) by (bit_vector)
            requires
                index < 32,
        ;
        if common & (1u32 << index) != 0 {
            return Some(index);
        }
        index += 1;
    }
    None
}

/// What an image asks of its memory.
#[derive(Clone, Copy, Debug, PartialEq, Eq, Structural)]
pub struct MemoryRequirements {
    /// The types of memory that the image can live in, one bit each.
    pub types: u32,
    pub size: u64,
}

/// What is to be given back when an import fails.
#[derive(Debug, PartialEq, Eq)]
pub enum Release<Fd> {
    /// Close the descriptor.
    Descriptor(Fd),
    /// Free the imported memory.
    Memory,
    /// Destroy the image.
    Image,
}

/// What follows in an import.
pub enum ImportStep<Fd> {
    /// Ask for the types of memory that the descriptor can be imported as.
    QueryMemory { fd: Fd, requirements: MemoryRequirements },
    /// Import the descriptor as memory for the image alone.
    Allocate { fd: Fd, size: u64, type_index: u32 },
    /// The descriptor belongs to the memory now. Bind the memory to the image.
    Bind { fd: Fd },
    /// The image stands on the imported memory.
    Done,
    /// The import failed. Give these back, in this order.
    Failed { error: DmabufError, releases: Vec<Release<Fd>> },
}

/// The value of an [`ImportStep`].
#[verifier::ext_equal]
pub enum ImportModel<Fd> {
    QueryMemory { fd: Fd, requirements: MemoryRequirements },
    Allocate { fd: Fd, size: u64, type_index: u32 },
    Bind { fd: Fd },
    Done,
    Failed { error: DmabufError, releases: Seq<Release<Fd>> },
}

impl<Fd> View for ImportStep<Fd> {
    type V = ImportModel<Fd>;

    open spec fn view(&self) -> ImportModel<Fd> {
        match *self {
            ImportStep::QueryMemory { fd, requirements } => ImportModel::QueryMemory {
                fd,
                requirements,
            },
            ImportStep::Allocate { fd, size, type_index } => ImportModel::Allocate {
                fd,
                size,
                type_index,
            },
            ImportStep::Bind { fd } => ImportModel::Bind { fd },
            ImportStep::Done => ImportModel::Done,
            ImportStep::Failed { error, releases } => ImportModel::Failed {
                error,
                releases: releases@,
            },
        }
    }
}

/// The step after the creation of the image, `None` when it failed. The descriptors of all
/// planes but the first are closed: the first one stands for the whole texture.
pub open spec fn after_image<Fd>(
    planes: Seq<DmabufTexturePlane<Fd>>,
    created: Option<MemoryRequirements>,
) -> ImportModel<Fd> {
    match created {
        None => ImportModel::Failed {
            error: DmabufError::ImageCreation,
            releases: Seq::empty(),
        },
        Some(requirements) => if planes.len() == 0 {
            ImportModel::Failed { error: DmabufError::NoPlanes, releases: Seq::empty() }
        } else {
            ImportModel::QueryMemory { fd: planes[0].fd, requirements }
        },
    }
}

/// The step after the query for memory types, `None` when it failed.
pub open spec fn after_query<Fd>(
    fd: Fd,
    requirements: MemoryRequirements,
    available: Option<u32>,
) -> ImportModel<Fd> {
    match available {
        None => ImportModel::Failed {
            error: DmabufError::MemoryQuery,
            releases: seq![Release::Descriptor(fd), Release::Image],
        },
        Some(available) => if exists|index: u32|
            is_first_common_type(requirements.types, available, index) {
            ImportModel::Allocate {
                fd,
                size: requirements.size,
                type_index: choose|index: u32|
                    is_first_common_type(requirements.types, available, index),
            }
        } else {
            ImportModel::Failed {
                error: DmabufError::NoMemoryType,
                releases: seq![Release::Descriptor(fd), Release::Image],
            }
        },
    }
}

/// The step after the import of the memory.
pub open spec fn after_allocation<Fd>(fd: Fd, allocated: bool) -> ImportModel<Fd> {
    if allocated {
        ImportModel::Bind { fd }
    } else {
        ImportModel::Failed {
            error: DmabufError::MemoryImport,
            releases: seq![Release::Descriptor(fd), Release::Image],
        }
    }
}

/// The step after the memory was to be bound.
pub open spec fn after_binding<Fd>(bound: bool) -> ImportModel<Fd> {
    if bound {
        ImportModel::Done
    } else {
        ImportModel::Failed {
            error: DmabufError::MemoryBinding,
            releases: seq![Release::Memory, Release::Image],
        }
    }
}

/// Two sets of memory types have one first type in common, or none.
pub(crate) proof fn lemma_first_common_type_is_one(required: u32, available: u32, a: u32, b: u32)
    requires
        is_first_common_type(required, available, a),
        is_first_common_type(required, available, b),
    ensures
        a == b,
{
    if a < b {
        assert(!(has_type(required, a) && has_type(available, a)));
    }
    if b < a {
        assert(!(has_type(required, b) && has_type(available, b)));
    }
}

/// The releases of an import that holds the image and one thing more.
fn both_releases<Fd>(first: Release<Fd>) -> (releases: Vec<Release<Fd>>)
    ensures
        releases@ == seq![first, Release::Image],
{
    let mut releases: Vec<Release<Fd>> = Vec::new();
    releases.push(first);
    releases.push(Release::Image);
    releases
}

/// Goes on once the image is created, `None` when it could not be.
pub fn image_created<Fd>(
    planes: Vec<DmabufTexturePlane<Fd>>,
    created: Option<MemoryRequirements>,
) -> (step: ImportStep<Fd>)
    ensures
        step@ == after_image(planes@, created),
{
    let requirements = match created {
        Some(requirements) => requirements,
        None => {
            return ImportStep::Failed {
                error: DmabufError::ImageCreation,
                releases: Vec::new(),
            };
        },
    };
    let mut planes = planes;
    if planes.len() == 0 {
        return ImportStep::Failed { error: DmabufError::NoPlanes, releases: Vec::new() };
    }
    let first = planes.remove(0);
    ImportStep::QueryMemory { fd: first.fd, requirements }
}

/// Goes on once the memory types of the descriptor are known, `None` when they could not be
/// asked for.
pub fn memory_queried<Fd>(
    fd: Fd,
    requirements: MemoryRequirements,
    available: Option<u32>,
) -> (step: ImportStep<Fd>)
    ensures
        step@ == after_query(fd, requirements, available),
{
    let available = match available {
        Some(available) => available,
        None => {
            return ImportStep::Failed {
                error: DmabufError::MemoryQuery,
                releases: both_releases(Release::Descriptor(fd)),
            };
        },
    };
    match memory_type_index(requirements.types, available) {
        Some(type_index) => {
            proof {
                assert(is_first_common_type(requirements.types, available, type_index));
                let chosen = choose|index: u32|
                    is_first_common_type(requirements.types, available, index);
                lemma_first_common_type_is_one(
                    requirements.types,
                    available,
                    type_index,
                    chosen,
                );
            }
            ImportStep::Allocate { fd, size: requirements.size, type_index }
        },
        None => ImportStep::Failed {
            error: DmabufError::NoMemoryType,
            releases: both_releases(Release::Descriptor(fd)),
        },
    }
}

/// Goes on once the descriptor was to be imported as memory.
pub fn memory_allocated<Fd>(fd: Fd, allocated: bool) -> (step: ImportStep<Fd>)
    ensures
        step@ == after_allocation(fd, allocated),
{
    if allocated {
        ImportStep::Bind { fd }
    } else {
        ImportStep::Failed {
            error: DmabufError::MemoryImport,
            releases: both_releases(Release::Descriptor(fd)),
        }
    }
}

/// Goes on once the memory was to be bound to the image.
pub fn image_bound<Fd>(bound: bool) -> (step: ImportStep<Fd>)
    ensures
        step@ == after_binding::<Fd>(bound),
{
    if bound {
        ImportStep::Done
    } else {
        ImportStep::Failed {
            error: DmabufError::MemoryBinding,
            releases: both_releases(Release::Memory),
        }
    }
}

} // verus!
