//! What holds of every import of a DMA-BUF.

use std::sync::Arc;
use vstd::arithmetic::div_mod::{lemma_div_denominator, lemma_fundamental_div_mod};
use vstd::arithmetic::power::{lemma_pow0, lemma_pow1, lemma_pow_adds, lemma_pow_positive, pow};
use vstd::prelude::*;
use crate::dmabuf::{
    acquire_after_poll, begin_copy, code_text, copy_fault, decimal_text, first_ask,
    format_codes_spell_their_names, fourcc, imported_texture_descriptor, is_zero_plane,
    owned_texture_descriptor, permit_or_refusal, plan_copy, step_for,
    texture_format_for_drm_fourcc, validate_descriptor, CopyPlan, CopyStep, DmabufError, Extent3d,
    TextureDescriptor, TextureDimension, TextureFormat,
};
use crate::external_texture::{DmabufTextureDescriptor, DmabufTexturePlane};
use crate::import::{
    after_allocation, after_binding, after_image, after_query, begin_import, choose_device,
    first_missing, has_type, image_bound, image_created, is_first_common_type,
    lemma_first_common_type_is_one, memory_allocated, memory_queried, memory_type_index,
    missing_extension, needs_modifier_extension, plane_layouts, required_extensions,
    vulkan_format, DeviceChoice, ImageKind, ImageRequest, ImageTiling, ImageUsage, ImportModel,
    ImportStep, MemoryRequirements, PlaneLayout, Release, VulkanFormat,
};
use crate::mime::string_views;
use crate::retirement::{count_one_more, DmabufRetirement, DmabufRetirementPermit};

verus! {

/// An import from its first step to its last, with the outcomes of what the steps ask for.
pub open spec fn import_run<Fd>(
    planes: Seq<DmabufTexturePlane<Fd>>,
    created: Option<MemoryRequirements>,
    available: Option<u32>,
    allocated: bool,
    bound: bool,
) -> ImportModel<Fd> {
    match after_image(planes, created) {
        ImportModel::QueryMemory { fd, requirements } => match after_query(
            fd,
            requirements,
            available,
        ) {
            ImportModel::Allocate { fd, size, type_index } => match after_allocation(
                fd,
                allocated,
            ) {
                ImportModel::Bind { fd } => after_binding(bound),
                step => step,
            },
            step => step,
        },
        step => step,
    }
}

/// Whether an image and a DMA-BUF have a memory type in common.
pub open spec fn can_share(created: Option<MemoryRequirements>, available: Option<u32>) -> bool {
    created is Some && available is Some && exists|index: u32|
        index < 32 && has_type((created->0).types, index) && #[trigger] has_type(
            available->0,
            index,
        )
}

/// Where two sets of memory types meet, they meet first somewhere.
proof fn lemma_a_common_type_has_a_first(required: u32, available: u32, index: u32)
    requires
        index < 32,
        has_type(required, index),
        has_type(available, index),
    ensures
        exists|first: u32| is_first_common_type(required, available, first),
    decreases index,
{
    if forall|earlier: u32|
        earlier < index ==> !(has_type(required, earlier) && #[trigger] has_type(
            available,
            earlier,
        )) {
        assert(is_first_common_type(required, available, index));
    } else {
        let earlier = choose|earlier: u32|
            earlier < index && has_type(required, earlier) && #[trigger] has_type(
                available,
                earlier,
            );
        lemma_a_common_type_has_a_first(required, available, earlier);
    }
}

/// An import of a texture with planes succeeds when every step does and the image and the
/// DMA-BUF have a memory type in common. Otherwise it gives back, once each, exactly what it
/// holds: the image, when it was created, and with it the memory, when the DMA-BUF was imported,
/// or else the descriptor.
pub proof fn a_failed_import_releases_what_it_holds<Fd>(
    planes: Seq<DmabufTexturePlane<Fd>>,
    created: Option<MemoryRequirements>,
    available: Option<u32>,
    allocated: bool,
    bound: bool,
)
    requires
        planes.len() > 0,
    ensures
        ({
            let imported = can_share(created, available) && allocated;
            match import_run(planes, created, available, allocated, bound) {
                ImportModel::Done => imported && bound,
                ImportModel::Failed { error, releases } => {
                    &&& !(imported && bound)
                    &&& releases.no_duplicates()
                    &&& releases.contains(Release::Image) <==> created is Some
                    &&& releases.contains(Release::Memory) <==> imported
                    &&& forall|fd: Fd| #[trigger]
                        releases.contains(Release::Descriptor(fd)) <==> fd == planes[0].fd
                            && created is Some && !imported
                },
                _ => false,
            }
        }),
{
    let imported = can_share(created, available) && allocated;
    let fd = planes[0].fd;
    if created is Some && available is Some {
        let required = (created->0).types;
        if can_share(created, available) {
            let index = choose|index: u32|
                index < 32 && has_type(required, index) && #[trigger] has_type(
                    available->0,
                    index,
                );
            lemma_a_common_type_has_a_first(required, available->0, index);
        }
    }
    match import_run(planes, created, available, allocated, bound) {
        ImportModel::Failed { error, releases } => {
            if created is None {
                assert(releases.len() == 0);
            } else {
                assert(releases.len() == 2);
                assert(releases[1] == Release::<Fd>::Image);
                if imported {
                    assert(releases[0] == Release::<Fd>::Memory);
                } else {
                    assert(releases[0] == Release::Descriptor(fd));
                }
            }
        },
        _ => {},
    }
}

/// A texture whose copy could be planned has planes, so that its import never ends for want of
/// them.
pub proof fn a_planned_import_has_planes<Fd>(
    descriptor: DmabufTextureDescriptor<Fd>,
    created: Option<MemoryRequirements>,
    available: Option<u32>,
    allocated: bool,
    bound: bool,
)
    requires
        copy_fault(descriptor) is None,
    ensures
        1 <= descriptor.planes@.len() <= 4,
        import_run(descriptor.planes@, created, available, allocated, bound) matches
            ImportModel::Failed { error, releases } ==> error != DmabufError::NoPlanes,
{
}

/// No extension is missing exactly when all that an import needs are there.
pub proof fn nothing_is_missing_when_all_are_there(extensions: Seq<Seq<char>>)
    ensures
        first_missing(extensions, 0) is None <==> forall|i: int|
            0 <= i < 3 ==> extensions.contains(#[trigger] required_extensions()[i]),
{
    reveal_with_fuel(first_missing, 4);
    assert(first_missing(extensions, 0) is None ==> extensions.contains(required_extensions()[0])
        && extensions.contains(required_extensions()[1]) && extensions.contains(
        required_extensions()[2],
    ));
}

/// Whether a texture is plain: of one level and one sample, in two dimensions, of a size and a
/// format.
pub open spec fn is_plain(
    texture: TextureDescriptor,
    width: u32,
    height: u32,
    format: TextureFormat,
) -> bool {
    &&& texture.size.width == width
    &&& texture.size.height == height
    &&& texture.size.depth_or_array_layers == 1
    &&& texture.mip_level_count == 1
    &&& texture.sample_count == 1
    &&& texture.dimension == TextureDimension::D2
    &&& texture.format == format
}

/// Whether a format code stands for blue, green, red and a fourth byte.
pub open spec fn is_bgra(code: u32) -> bool {
    code == 0x34325241 || code == 0x34325258
}

/// Whether a format code stands for red, green, blue and a fourth byte.
pub open spec fn is_rgba(code: u32) -> bool {
    code == 0x34324241 || code == 0x34324258
}

/// Four format codes can be copied, in the order of bytes that they stand for.
pub proof fn four_formats_can_be_copied(code: u32, result: Result<TextureFormat, DmabufError>)
    requires
        call_ensures(texture_format_for_drm_fourcc, (code,), result),
    ensures
        result == Ok::<TextureFormat, DmabufError>(TextureFormat::Bgra8Unorm) <==> is_bgra(code),
        result == Ok::<TextureFormat, DmabufError>(TextureFormat::Rgba8Unorm) <==> is_rgba(code),
        result matches Err(error) ==> error == DmabufError::UnsupportedFormat(code),
{
    format_codes_spell_their_names();
}

/// A code is what its characters spell, the first in the least significant byte.
pub proof fn a_code_is_spelled_byte_by_byte(name: Seq<char>)
    ensures
        fourcc(name) == name[0] as int + 256 * (name[1] as int + 256 * (name[2] as int + 256
            * name[3] as int)),
{
}

/// A descriptor is refused for dimensions of zero first, then for a number of planes other than
/// one to four, then for a plane of which stride or size is zero, and for nothing else.
pub proof fn descriptors_are_refused_for_their_first_fault<Fd>(
    descriptor: DmabufTextureDescriptor<Fd>,
    result: Result<(), DmabufError>,
)
    requires
        call_ensures(validate_descriptor::<Fd>, (&descriptor,), result),
    ensures
        ({
            let flat = descriptor.width == 0 || descriptor.height == 0;
            let count = descriptor.planes@.len();
            let empty = exists|i: int|
                0 <= i < count && ((#[trigger] descriptor.planes@[i]).stride == 0
                    || descriptor.planes@[i].size == 0);
            &&& result is Ok <==> !flat && 1 <= count <= 4 && !empty
            &&& result matches Err(error) ==> {
                &&& error == DmabufError::ZeroDimensions <==> flat
                &&& error == DmabufError::PlaneCount <==> !flat && !(1 <= count <= 4)
                &&& error == DmabufError::ZeroPlane <==> !flat && 1 <= count <= 4 && empty
            }
        }),
{
    if exists|i: int|
        0 <= i < descriptor.planes@.len() && is_zero_plane(#[trigger] descriptor.planes@[i]) {
        let i = choose|i: int|
            0 <= i < descriptor.planes@.len() && is_zero_plane(#[trigger] descriptor.planes@[i]);
        assert(descriptor.planes@[i].stride == 0 || descriptor.planes@[i].size == 0);
    }
    if exists|i: int|
        0 <= i < descriptor.planes@.len() && ((#[trigger] descriptor.planes@[i]).stride == 0
            || descriptor.planes@[i].size == 0) {
        let i = choose|i: int|
            0 <= i < descriptor.planes@.len() && ((#[trigger] descriptor.planes@[i]).stride == 0
                || descriptor.planes@[i].size == 0);
        assert(is_zero_plane(descriptor.planes@[i]));
    }
}

/// The texture that the renderer keeps is copied into and sampled from; the one that stands for
/// the DMA-BUF is copied from. Both are plain.
pub proof fn textures_are_made_for_their_use(
    size: Extent3d,
    format: TextureFormat,
    owned: TextureDescriptor,
    imported: TextureDescriptor,
)
    requires
        call_ensures(owned_texture_descriptor, (size, format), owned),
        call_ensures(imported_texture_descriptor, (size, format), imported),
    ensures
        owned.size == size && imported.size == size,
        owned.size.depth_or_array_layers == 1 ==> is_plain(owned, size.width, size.height, format)
            && is_plain(imported, size.width, size.height, format),
        owned.label@ == "gpui_owned_external_texture"@,
        owned.usage.copy_dst && owned.usage.texture_binding && !owned.usage.copy_src,
        imported.label@ == "gpui_imported_dmabuf_texture"@,
        imported.usage.copy_src && !imported.usage.copy_dst && !imported.usage.texture_binding,
{
}

/// Whether a plan is that of a copy of the whole texture: what is copied, what it is copied from
/// and what it is copied into are as wide and as high as the texture, and of its format.
pub open spec fn copies_all_of<Fd>(
    plan: CopyPlan,
    descriptor: DmabufTextureDescriptor<Fd>,
) -> bool {
    &&& plan.size.width == descriptor.width
    &&& plan.size.height == descriptor.height
    &&& plan.size.depth_or_array_layers == 1
    &&& plan.format == TextureFormat::Bgra8Unorm <==> is_bgra(descriptor.drm_format)
    &&& plan.format == TextureFormat::Rgba8Unorm <==> is_rgba(descriptor.drm_format)
    &&& is_plain(plan.imported, descriptor.width, descriptor.height, plan.format)
    &&& is_plain(plan.owned, descriptor.width, descriptor.height, plan.format)
    &&& plan.imported.label@ == "gpui_imported_dmabuf_texture"@
    &&& plan.owned.label@ == "gpui_owned_external_texture"@
    &&& plan.imported.usage.copy_src && !plan.imported.usage.copy_dst
        && !plan.imported.usage.texture_binding
    &&& plan.owned.usage.copy_dst && plan.owned.usage.texture_binding
        && !plan.owned.usage.copy_src
}

/// A copy covers the whole texture. It is planned exactly when the format can be copied and the
/// descriptor has no fault, and refused for the format first.
pub proof fn a_copy_covers_the_whole_texture<Fd>(
    descriptor: DmabufTextureDescriptor<Fd>,
    result: Result<CopyPlan, DmabufError>,
    valid: Result<(), DmabufError>,
)
    requires
        call_ensures(plan_copy::<Fd>, (&descriptor,), result),
        call_ensures(validate_descriptor::<Fd>, (&descriptor,), valid),
    ensures
        result is Ok <==> (is_bgra(descriptor.drm_format) || is_rgba(descriptor.drm_format))
            && valid is Ok,
        match result {
            Ok(plan) => copies_all_of(plan, descriptor),
            Err(error) => if is_bgra(descriptor.drm_format) || is_rgba(descriptor.drm_format) {
                valid == Err::<(), DmabufError>(error)
            } else {
                error == DmabufError::UnsupportedFormat(descriptor.drm_format)
            },
        },
{
    format_codes_spell_their_names();
}

/// A copy with a permit is planned in the same way, and keeps the permit. Without a permit it is
/// refused for want of it, whatever the texture.
pub proof fn a_permitted_copy_covers_the_whole_texture<Fd>(
    permit: Result<DmabufRetirementPermit, DmabufError>,
    descriptor: DmabufTextureDescriptor<Fd>,
    result: Result<(DmabufRetirementPermit, CopyPlan), DmabufError>,
    planned: Result<CopyPlan, DmabufError>,
)
    requires
        call_ensures(begin_copy::<Fd>, (permit, &descriptor), result),
        call_ensures(plan_copy::<Fd>, (&descriptor,), planned),
    ensures
        result is Ok <==> permit is Ok && planned is Ok,
        match result {
            Ok((kept, plan)) => permit == Ok::<DmabufRetirementPermit, DmabufError>(kept)
                && copies_all_of(plan, descriptor),
            Err(error) => match permit {
                Err(refused) => error == refused,
                Ok(_) => planned == Err::<CopyPlan, DmabufError>(error),
            },
        },
{
    format_codes_spell_their_names();
}

/// The image that an import asks for is as large as what is copied of it, and of its format.
pub proof fn the_image_is_as_large_as_its_copy<Fd>(
    descriptor: DmabufTextureDescriptor<Fd>,
    plan: CopyPlan,
    enabled: Option<Vec<String>>,
    request: ImageRequest,
)
    requires
        call_ensures(plan_copy::<Fd>, (&descriptor,), Ok(plan)),
        call_ensures(begin_import::<Fd>, (&enabled, &descriptor, plan.format), Ok(request)),
    ensures
        request.width == plan.size.width && request.width == plan.imported.size.width
            && request.width == plan.owned.size.width,
        request.height == plan.size.height && request.height == plan.imported.size.height
            && request.height == plan.owned.size.height,
        request.depth == plan.size.depth_or_array_layers,
        request.mip_levels == plan.imported.mip_level_count,
        request.samples == plan.imported.sample_count,
        request.format == VulkanFormat::B8G8R8A8Unorm <==> is_bgra(descriptor.drm_format),
        request.format == VulkanFormat::R8G8B8A8Unorm <==> is_rgba(descriptor.drm_format),
        request.layouts@.len() == descriptor.planes@.len(),
        1 <= request.layouts@.len() <= 4,
{
    format_codes_spell_their_names();
}

/// Whether an extension is among some extensions.
pub open spec fn is_among(extensions: Seq<String>, name: Seq<char>) -> bool {
    exists|i: int| 0 <= i < extensions.len() && (#[trigger] extensions[i])@ == name
}

proof fn lemma_is_among(extensions: Seq<String>, name: Seq<char>)
    ensures
        is_among(extensions, name) <==> string_views(extensions).contains(name),
{
    let views = string_views(extensions);
    if is_among(extensions, name) {
        let i = choose|i: int| 0 <= i < extensions.len() && (#[trigger] extensions[i])@ == name;
        assert(views[i] == name);
    }
    if views.contains(name) {
        let i = choose|i: int| 0 <= i < views.len() && views[i] == name;
        assert(extensions[i]@ == name);
    }
}

/// The extension that is missing: of the three that an import needs, the first that is not there.
pub open spec fn missing_of(extensions: Seq<String>) -> Option<Seq<char>> {
    if !is_among(extensions, "VK_KHR_external_memory_fd"@) {
        Some("VK_KHR_external_memory_fd"@)
    } else if !is_among(extensions, "VK_EXT_external_memory_dma_buf"@) {
        Some("VK_EXT_external_memory_dma_buf"@)
    } else if !is_among(extensions, "VK_EXT_image_drm_format_modifier"@) {
        Some("VK_EXT_image_drm_format_modifier"@)
    } else {
        None
    }
}

proof fn lemma_missing(extensions: Seq<String>)
    ensures
        first_missing(string_views(extensions), 0) == missing_of(extensions),
{
    reveal_with_fuel(first_missing, 4);
    lemma_is_among(extensions, "VK_KHR_external_memory_fd"@);
    lemma_is_among(extensions, "VK_EXT_external_memory_dma_buf"@);
    lemma_is_among(extensions, "VK_EXT_image_drm_format_modifier"@);
}

/// A device is opened exactly for a Vulkan adapter that has the three extensions, and the
/// modifier extension is asked for where it is not asked for yet.
pub proof fn a_device_needs_three_extensions(
    on_vulkan: bool,
    supported: Option<Vec<String>>,
    choice: DeviceChoice,
    extensions: Vec<String>,
    missing: Option<&'static str>,
    needed: bool,
)
    requires
        call_ensures(choose_device, (on_vulkan, &supported), choice),
        call_ensures(missing_extension, (&extensions,), missing),
        call_ensures(needs_modifier_extension, (&extensions,), needed),
    ensures
        choice is Open <==> on_vulkan && supported is Some && missing_of((supported->0)@) is None,
        choice is NoAdapter <==> on_vulkan && supported is None,
        missing is Some <==> missing_of(extensions@) is Some,
        missing matches Some(name) ==> missing_of(extensions@) == Some(name@),
        needed <==> !is_among(extensions@, "VK_EXT_image_drm_format_modifier"@),
{
    lemma_missing(extensions@);
    lemma_is_among(extensions@, "VK_EXT_image_drm_format_modifier"@);
    if supported is Some {
        lemma_missing((supported->0)@);
    }
}

/// The image that an import asks for is the texture: two-dimensional, of its size and format,
/// laid out plane by plane as the modifier says, and to be copied from. It is asked for exactly
/// on a Vulkan device with the three extensions.
pub proof fn an_import_asks_for_the_image_of_the_texture<Fd>(
    enabled: Option<Vec<String>>,
    descriptor: DmabufTextureDescriptor<Fd>,
    format: TextureFormat,
    result: Result<ImageRequest, DmabufError>,
)
    requires
        call_ensures(begin_import::<Fd>, (&enabled, &descriptor, format), result),
    ensures
        result is Ok <==> enabled is Some && missing_of((enabled->0)@) is None,
        match result {
            Ok(request) => {
                &&& request.kind == ImageKind::TwoDimensional
                &&& request.tiling == ImageTiling::FormatModifier
                &&& request.usage == ImageUsage::TransferSource
                &&& request.format == VulkanFormat::B8G8R8A8Unorm <==> format
                    == TextureFormat::Bgra8Unorm
                &&& request.width == descriptor.width
                &&& request.height == descriptor.height
                &&& request.depth == 1
                &&& request.mip_levels == 1
                &&& request.array_layers == 1
                &&& request.samples == 1
                &&& request.modifier == descriptor.modifier
                &&& request.layouts@.len() == descriptor.planes@.len()
                &&& forall|i: int|
                    0 <= i < descriptor.planes@.len() ==> {
                        &&& (#[trigger] request.layouts@[i]).offset == descriptor.planes@[i].offset
                        &&& request.layouts@[i].size == descriptor.planes@[i].size
                        &&& request.layouts@[i].row_pitch == descriptor.planes@[i].stride
                    }
            },
            Err(error) => match enabled {
                None => error == DmabufError::NotVulkan,
                Some(enabled) => error matches DmabufError::MissingExtension(name)
                    && missing_of(enabled@) == Some(name@),
            },
        },
{
    if enabled is Some {
        lemma_missing((enabled->0)@);
    }
}

/// The layouts of planes, and the Vulkan formats of textures, one by one.
pub proof fn planes_and_formats_are_taken_over<Fd>(
    planes: Vec<DmabufTexturePlane<Fd>>,
    layouts: Vec<PlaneLayout>,
    format: TextureFormat,
    vulkan: VulkanFormat,
)
    requires
        call_ensures(plane_layouts::<Fd>, (&planes,), layouts),
        call_ensures(vulkan_format, (format,), vulkan),
    ensures
        layouts@.len() == planes@.len(),
        forall|i: int|
            0 <= i < planes@.len() ==> {
                &&& (#[trigger] layouts@[i]).offset == planes@[i].offset
                &&& layouts@[i].size == planes@[i].size
                &&& layouts@[i].row_pitch == planes@[i].stride
            },
        vulkan == VulkanFormat::B8G8R8A8Unorm <==> format == TextureFormat::Bgra8Unorm,
        vulkan == VulkanFormat::R8G8B8A8Unorm <==> format == TextureFormat::Rgba8Unorm,
{
}

/// The memory type that is chosen is the lowest that is in both sets, and there is none exactly
/// when the two have none in common.
pub proof fn the_lowest_common_memory_type_is_chosen(
    required: u32,
    available: u32,
    chosen: Option<u32>,
    other: u32,
)
    requires
        call_ensures(memory_type_index, (required, available), chosen),
    ensures
        chosen matches Some(index) ==> index < 32 && required & (1u32 << index) != 0 && available
            & (1u32 << index) != 0,
        other < 32 && required & (1u32 << other) != 0 && available & (1u32 << other) != 0 ==> (
        chosen matches Some(index) && index <= other),
{
    if other < 32 && required & (1u32 << other) != 0 && available & (1u32 << other) != 0 {
        assert(has_type(required, other) && has_type(available, other));
        match chosen {
            Some(index) => {
                assert(is_first_common_type(required, available, index));
                if other < index {
                    assert(!(has_type(required, other) && has_type(available, other)));
                }
            },
            None => {
                assert(!(has_type(required, other) && has_type(available, other)));
            },
        }
    }
}

/// The value of a step of an import is all of it.
pub proof fn the_value_of_an_import_step_is_all_of_it<Fd>(step: ImportStep<Fd>)
    ensures
        match step {
            ImportStep::QueryMemory { fd, requirements } => step@ == (ImportModel::QueryMemory {
                fd,
                requirements,
            }),
            ImportStep::Allocate { fd, size, type_index } => step@ == (ImportModel::Allocate {
                fd,
                size,
                type_index,
            }),
            ImportStep::Bind { fd } => step@ == (ImportModel::<Fd>::Bind { fd }),
            ImportStep::Done => step@ == ImportModel::<Fd>::Done,
            ImportStep::Failed { error, releases } => step@ == (ImportModel::Failed {
                error,
                releases: releases@,
            }),
        },
{
}

/// Whether an import failed for a reason and gives back the descriptor and the image.
pub open spec fn gives_back<Fd>(
    step: ImportStep<Fd>,
    error: DmabufError,
    first: Release<Fd>,
) -> bool {
    &&& step matches ImportStep::Failed { error: reason, releases }
    &&& reason == error
    &&& releases@.len() == 2
    &&& releases@[0] == first
    &&& releases@[1] is Image
}

/// What each step of an import leads to. The descriptor of the first plane is queried and
/// imported, with the size that the image asks for and the lowest memory type that both have.
/// Where a step fails, what is held by then is given back: nothing before there is an image, the
/// descriptor and the image before there is memory, and the memory and the image after that.
pub proof fn each_step_of_an_import_leads_on_or_gives_back<Fd>(
    planes: Vec<DmabufTexturePlane<Fd>>,
    created: Option<MemoryRequirements>,
    after_creation: ImportStep<Fd>,
    fd: Fd,
    requirements: MemoryRequirements,
    available: Option<u32>,
    after_query_step: ImportStep<Fd>,
    chosen: Option<u32>,
    allocated: bool,
    after_allocation_step: ImportStep<Fd>,
    bound: bool,
    after_binding_step: ImportStep<Fd>,
)
    requires
        call_ensures(image_created::<Fd>, (planes, created), after_creation),
        call_ensures(memory_queried::<Fd>, (fd, requirements, available), after_query_step),
        available matches Some(available) ==> call_ensures(
            memory_type_index,
            (requirements.types, available),
            chosen,
        ),
        call_ensures(memory_allocated::<Fd>, (fd, allocated), after_allocation_step),
        call_ensures(image_bound::<Fd>, (bound,), after_binding_step),
    ensures
        match created {
            None => after_creation matches ImportStep::Failed { error, releases } && error
                == DmabufError::ImageCreation && releases@.len() == 0,
            Some(needed) => if planes@.len() == 0 {
                after_creation matches ImportStep::Failed { error, releases } && error
                    == DmabufError::NoPlanes && releases@.len() == 0
            } else {
                after_creation == (ImportStep::QueryMemory {
                    fd: planes@[0].fd,
                    requirements: needed,
                })
            },
        },
        match available {
            None => gives_back(
                after_query_step,
                DmabufError::MemoryQuery,
                Release::Descriptor(fd),
            ),
            Some(_) => match chosen {
                None => gives_back(
                    after_query_step,
                    DmabufError::NoMemoryType,
                    Release::Descriptor(fd),
                ),
                Some(index) => after_query_step == (ImportStep::Allocate {
                    fd,
                    size: requirements.size,
                    type_index: index,
                }),
            },
        },
        allocated ==> after_allocation_step == (ImportStep::Bind { fd }),
        !allocated ==> gives_back(
            after_allocation_step,
            DmabufError::MemoryImport,
            Release::Descriptor(fd),
        ),
        bound ==> after_binding_step is Done,
        !bound ==> gives_back(after_binding_step, DmabufError::MemoryBinding, Release::Memory),
{
    if available is Some {
        let types = requirements.types;
        let given = available->0;
        if chosen is Some {
            let index = chosen->0;
            assert(is_first_common_type(types, given, index));
            let first = choose|first: u32| is_first_common_type(types, given, first);
            lemma_first_common_type_is_one(types, given, index, first);
        } else {
            if exists|first: u32| is_first_common_type(types, given, first) {
                let first = choose|first: u32| is_first_common_type(types, given, first);
                assert(has_type(types, first) && has_type(given, first));
            }
        }
    }
}

/// The number that decimal digits spell.
pub open spec fn decimal_value(digits: Seq<char>) -> int
    decreases digits.len(),
{
    if digits.len() == 0 {
        0
    } else {
        10 * decimal_value(digits.drop_last()) + "0123456789"@.index_of(digits.last())
    }
}

/// The decimal text of a number spells it, in digits alone and without a zero before them.
pub proof fn a_decimal_text_spells_its_number(value: nat)
    ensures
        decimal_text(value).len() > 0,
        decimal_value(decimal_text(value)) == value,
        forall|i: int|
            0 <= i < decimal_text(value).len() ==> "0123456789"@.contains(
                #[trigger] decimal_text(value)[i],
            ),
        value > 0 ==> decimal_text(value)[0] != '0',
    decreases value,
{
    reveal_strlit("0123456789abcdef");
    reveal_strlit("0123456789");
    let digits = "0123456789"@;
    let text = decimal_text(value);
    let last = (value % 10) as int;
    assert(text.last() == digits[last]);
    assert(digits.contains(digits[last]));
    let found = digits.index_of(digits[last]);
    assert(digits[found] == digits[last] && found == last);
    if value < 10 {
        assert(decimal_value(text.drop_last()) == 0);
        assert(text[0] == digits[value as int]);
    } else {
        a_decimal_text_spells_its_number(value / 10);
        assert(text.drop_last() =~= decimal_text(value / 10));
        assert forall|i: int| 0 <= i < text.len() implies digits.contains(#[trigger] text[i]) by {
            if i < text.len() - 1 {
                assert(text[i] == decimal_text(value / 10)[i]);
            }
        }
        assert(text[0] == decimal_text(value / 10)[0]);
    }
}

/// The number that the first so many digits behind `0x` spell.
pub open spec fn hex_value(text: Seq<char>, places: nat) -> int
    decreases places,
{
    if places == 0 {
        0
    } else {
        16 * hex_value(text, (places - 1) as nat) + "0123456789abcdef"@.index_of(
            text[2 + places - 1],
        )
    }
}

proof fn lemma_hex_prefix(code: u32, places: nat)
    requires
        places <= 8,
    ensures
        hex_value(code_text(code), places) == code as int / pow(16, (8 - places) as nat),
    decreases places,
{
    reveal_strlit("0x");
    reveal_strlit("0123456789abcdef");
    if places == 0 {
        assert(pow(16, 8) == 0x1_0000_0000) by {
            reveal_with_fuel(pow, 9);
        }
    } else {
        let place = places - 1;
        lemma_hex_prefix(code, place as nat);
        let unit = pow(16, (7 - place) as nat);
        lemma_pow_positive(16, (7 - place) as nat);
        lemma_pow_adds(16, (7 - place) as nat, 1);
        lemma_pow1(16);
        lemma_div_denominator(code as int, unit, 16);
        lemma_fundamental_div_mod(code as int / unit, 16);
        let digits = "0123456789abcdef"@;
        let value = (code as int / unit) % 16;
        assert(code_text(code)[2 + place] == digits[value]);
        assert(digits.contains(digits[value]));
        let found = digits.index_of(digits[value]);
        assert(digits[found] == digits[value]);
        assert(found == value);
    }
}

/// The text of a format code is `0x` and eight lower-case hexadecimal digits that spell it.
pub proof fn the_text_of_a_code_spells_it(code: u32)
    ensures
        code_text(code).len() == 10,
        code_text(code)[0] == '0' && code_text(code)[1] == 'x',
        forall|i: int|
            2 <= i < 10 ==> "0123456789abcdef"@.contains(#[trigger] code_text(code)[i]),
        hex_value(code_text(code), 8) == code,
{
    reveal_strlit("0x");
    reveal_strlit("0123456789abcdef");
    lemma_hex_prefix(code, 8);
    lemma_pow0(16);
    assert forall|i: int| 2 <= i < 10 implies "0123456789abcdef"@.contains(
        #[trigger] code_text(code)[i],
    ) by {
        let value = (code as int / pow(16, (9 - i) as nat)) % 16;
        assert(code_text(code)[i] == "0123456789abcdef"@[value]);
    }
}

/// What each error says.
pub proof fn errors_say_what_is_wrong(error: DmabufError, message: String)
    requires
        call_ensures(DmabufError::message, (&error,), message),
    ensures
        message@ == match error {
            DmabufError::PollFailed => "Failed to poll completed DMA-BUF copies"@,
            DmabufError::TooManyPending(count) =>
                "too many DMA-BUF textures are awaiting GPU copy completion (maximum "@
                + decimal_text(count as nat) + ")"@,
            DmabufError::UnsupportedFormat(code) => "unsupported DMA-BUF DRM format "@ + code_text(
                code,
            ),
            DmabufError::ZeroDimensions => "DMA-BUF texture dimensions must be non-zero"@,
            DmabufError::PlaneCount => "DMA-BUF texture must have between one and four planes"@,
            DmabufError::ZeroPlane => "DMA-BUF plane stride and size must be non-zero"@,
            DmabufError::NotVulkan => "DMA-BUF import requires the Vulkan wgpu backend"@,
            DmabufError::MissingExtension(name) =>
                "Vulkan device did not enable required DMA-BUF extension "@ + name@,
            DmabufError::ImageCreation => "Failed to create Vulkan image for DMA-BUF"@,
            DmabufError::NoPlanes => "DMA-BUF texture has no planes"@,
            DmabufError::MemoryQuery => "Failed to query DMA-BUF memory properties"@,
            DmabufError::NoMemoryType => "DMA-BUF has no Vulkan-compatible memory type"@,
            DmabufError::MemoryImport => "Failed to import DMA-BUF Vulkan memory"@,
            DmabufError::MemoryBinding => "Failed to bind imported DMA-BUF memory"@,
        },
{
}

/// How a permit is asked for. A permit that is given leads on, and one that is refused to a poll.
/// After the poll a permit leads on again, and without one the copy is refused, with the number
/// of textures that there may be; a poll that failed refuses it too.
pub proof fn a_refused_permit_is_asked_for_once_more(
    permit: Option<DmabufRetirementPermit>,
    step: CopyStep,
    max_pending: usize,
    settled: Result<DmabufRetirementPermit, DmabufError>,
    retirement: Arc<DmabufRetirement>,
    first: CopyStep,
    polled: bool,
    second: Result<DmabufRetirementPermit, DmabufError>,
)
    requires
        call_ensures(step_for, (permit,), step),
        call_ensures(permit_or_refusal, (permit, max_pending), settled),
        call_ensures(first_ask, (&retirement,), first),
        call_ensures(acquire_after_poll, (&retirement, polled), second),
    ensures
        step is Permitted <==> permit is Some,
        step matches CopyStep::Permitted(kept) ==> permit == Some(kept),
        settled is Ok <==> permit is Some,
        settled matches Ok(kept) ==> permit == Some(kept),
        settled matches Err(error) ==> error == DmabufError::TooManyPending(max_pending),
        first matches CopyStep::Permitted(given) ==> given.issuer() == retirement && given.found()
            < retirement.capacity(),
        !polled ==> second == Err::<DmabufRetirementPermit, DmabufError>(DmabufError::PollFailed),
        polled ==> match second {
            Ok(given) => given.issuer() == retirement && given.found() < retirement.capacity(),
            Err(error) => error == DmabufError::TooManyPending(retirement.capacity()),
        },
{
}

/// One texture more is counted exactly where there are fewer than there may be. A counter is for
/// as many textures as it was made for, sixteen where no number was given.
pub proof fn a_counter_counts_up_to_its_capacity(
    pending: usize,
    max_pending: usize,
    next: Option<usize>,
    made: DmabufRetirement,
    usual: DmabufRetirement,
    shown: usize,
    retirement: Arc<DmabufRetirement>,
    permit: Option<DmabufRetirementPermit>,
)
    requires
        call_ensures(count_one_more, (pending, max_pending), next),
        call_ensures(DmabufRetirement::with_capacity, (max_pending,), made),
        call_ensures(DmabufRetirement::new, (), usual),
        call_ensures(DmabufRetirement::max_pending, (&made,), shown),
        call_ensures(DmabufRetirement::try_acquire, (&retirement,), permit),
    ensures
        next is Some <==> pending < max_pending,
        next matches Some(count) ==> count == pending + 1,
        made.capacity() == max_pending,
        shown == max_pending,
        usual.capacity() == 16,
        permit matches Some(permit) ==> permit.issuer() == retirement && permit.found()
            < retirement.capacity(),
{
}

} // verus!
