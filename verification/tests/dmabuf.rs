use std::sync::Arc;

use wayland_transfers::dmabuf::{
    acquire_after_poll, begin_copy, first_ask, imported_texture_descriptor,
    owned_texture_descriptor, permit_or_refusal, plan_copy, step_for,
    texture_format_for_drm_fourcc, validate_descriptor, CopyStep, DmabufError, Extent3d,
    TextureDimension, TextureFormat, TextureUsages, DRM_FORMAT_ABGR8888, DRM_FORMAT_ARGB8888,
    DRM_FORMAT_XBGR8888, DRM_FORMAT_XRGB8888,
};
use wayland_transfers::external_texture::{
    DmabufTextureDescriptor, DmabufTexturePlane, ExternalTexture,
};
use wayland_transfers::import::{
    begin_import, choose_device, image_bound, image_created, memory_allocated, memory_queried,
    memory_type_index, missing_extension, needs_modifier_extension, plane_layouts, vulkan_format,
    DeviceChoice, ImageKind, ImageTiling, ImageUsage, ImportStep, MemoryRequirements,
    PlaneLayout, Release, VulkanFormat, REQUIRED_EXTENSIONS,
};
use wayland_transfers::retirement::{
    count_one_more, DmabufRetirement, MAX_PENDING_DMABUF_RETIREMENTS,
};

fn plane(fd: u32) -> DmabufTexturePlane<u32> {
    DmabufTexturePlane { fd, stride: 256, offset: 64, size: 4096 }
}

fn descriptor(planes: Vec<DmabufTexturePlane<u32>>) -> DmabufTextureDescriptor<u32> {
    DmabufTextureDescriptor {
        width: 64,
        height: 16,
        drm_format: DRM_FORMAT_ARGB8888,
        modifier: 0x0100_0000_0000_0002,
        planes,
    }
}

fn all_extensions() -> Vec<String> {
    REQUIRED_EXTENSIONS.iter().map(|name| name.to_string()).collect()
}

#[test]
fn maps_drm_fourcc_formats() {
    assert_eq!(
        texture_format_for_drm_fourcc(DRM_FORMAT_ARGB8888).unwrap(),
        TextureFormat::Bgra8Unorm
    );
    assert_eq!(
        texture_format_for_drm_fourcc(DRM_FORMAT_ABGR8888).unwrap(),
        TextureFormat::Rgba8Unorm
    );
    assert!(texture_format_for_drm_fourcc(0).is_err());
}

#[test]
fn owned_texture_supports_copy_out_and_sampling() {
    let size = Extent3d {
        width: 2800,
        height: 1756,
        depth_or_array_layers: 1,
    };
    let descriptor = owned_texture_descriptor(size, TextureFormat::Bgra8Unorm);

    assert_eq!(descriptor.size, size);
    assert_eq!(descriptor.format, TextureFormat::Bgra8Unorm);
    assert_eq!(
        descriptor.usage,
        TextureUsages { copy_src: false, copy_dst: true, texture_binding: true }
    );
}

#[test]
fn dmabuf_retirement_is_bounded_and_releases_capacity() {
    let retirement = Arc::new(DmabufRetirement::with_capacity(2));
    let first = retirement
        .try_acquire()
        .expect("first retirement permit was unavailable");
    let second = retirement
        .try_acquire()
        .expect("second retirement permit was unavailable");

    assert!(retirement.try_acquire().is_none());
    drop(first);
    assert!(retirement.try_acquire().is_some());
    drop(second);
}

#[test]
fn the_usual_capacity_is_sixteen() {
    let retirement = Arc::new(DmabufRetirement::new());
    assert_eq!(retirement.max_pending(), 16);
    assert_eq!(MAX_PENDING_DMABUF_RETIREMENTS, 16);
    let permits: Vec<_> = (0..16).map(|_| retirement.try_acquire()).collect();
    assert!(permits.iter().all(|permit| permit.is_some()));
    assert!(retirement.try_acquire().is_none());
    drop(permits);
    assert!(retirement.try_acquire().is_some());
}

#[test]
fn one_more_is_counted_up_to_the_capacity() {
    assert_eq!(count_one_more(0, 2), Some(1));
    assert_eq!(count_one_more(1, 2), Some(2));
    assert_eq!(count_one_more(2, 2), None);
    assert_eq!(count_one_more(0, 0), None);
}

#[test]
fn a_refused_request_for_a_permit_asks_for_a_poll() {
    let retirement = Arc::new(DmabufRetirement::with_capacity(1));
    let held = first_ask(&retirement);
    assert!(matches!(held, CopyStep::Permitted(_)));
    assert!(matches!(first_ask(&retirement), CopyStep::Poll));
    drop(held);
    assert!(matches!(first_ask(&retirement), CopyStep::Permitted(_)));
    assert!(matches!(step_for(None), CopyStep::Poll));
    let nothing = Arc::new(DmabufRetirement::with_capacity(0));
    assert!(matches!(first_ask(&nothing), CopyStep::Poll));
}

#[test]
fn a_second_request_for_a_permit_follows_a_poll() {
    let retirement = Arc::new(DmabufRetirement::with_capacity(1));
    let held = acquire_after_poll(&retirement, true).ok().expect("permit was unavailable");
    assert!(matches!(acquire_after_poll(&retirement, false), Err(DmabufError::PollFailed)));
    assert!(matches!(acquire_after_poll(&retirement, true), Err(DmabufError::TooManyPending(1))));
    drop(held);
    assert!(acquire_after_poll(&retirement, true).is_ok());
    assert!(matches!(permit_or_refusal(None, 7), Err(DmabufError::TooManyPending(7))));
    assert!(permit_or_refusal(retirement.try_acquire(), 7).is_ok());
}

#[test]
fn format_codes_are_little_endian_names() {
    assert_eq!(DRM_FORMAT_ARGB8888, u32::from_le_bytes(*b"AR24"));
    assert_eq!(DRM_FORMAT_XRGB8888, u32::from_le_bytes(*b"XR24"));
    assert_eq!(DRM_FORMAT_ABGR8888, u32::from_le_bytes(*b"AB24"));
    assert_eq!(DRM_FORMAT_XBGR8888, u32::from_le_bytes(*b"XB24"));
    assert_eq!(
        texture_format_for_drm_fourcc(DRM_FORMAT_XRGB8888),
        Ok(TextureFormat::Bgra8Unorm)
    );
    assert_eq!(
        texture_format_for_drm_fourcc(DRM_FORMAT_XBGR8888),
        Ok(TextureFormat::Rgba8Unorm)
    );
}

#[test]
fn extension_names_are_those_of_the_bindings() {
    assert_eq!(
        ash::khr::external_memory_fd::NAME.to_str(),
        Ok(REQUIRED_EXTENSIONS[0])
    );
    assert_eq!(
        ash::ext::external_memory_dma_buf::NAME.to_str(),
        Ok(REQUIRED_EXTENSIONS[1])
    );
    assert_eq!(
        ash::ext::image_drm_format_modifier::NAME.to_str(),
        Ok(REQUIRED_EXTENSIONS[2])
    );
}

#[test]
fn descriptors_are_checked_in_order() {
    assert_eq!(validate_descriptor(&descriptor(vec![plane(3)])), Ok(()));
    let planes = vec![plane(1), plane(2), plane(3), plane(4)];
    assert_eq!(validate_descriptor(&descriptor(planes)), Ok(()));

    let mut flat = descriptor(vec![]);
    flat.height = 0;
    assert_eq!(validate_descriptor(&flat), Err(DmabufError::ZeroDimensions));
    let mut narrow = descriptor(vec![plane(1)]);
    narrow.width = 0;
    assert_eq!(validate_descriptor(&narrow), Err(DmabufError::ZeroDimensions));

    assert_eq!(validate_descriptor(&descriptor(vec![])), Err(DmabufError::PlaneCount));
    let planes = (0..5).map(|fd| plane(fd)).collect();
    assert_eq!(validate_descriptor(&descriptor(planes)), Err(DmabufError::PlaneCount));

    let mut planes = vec![plane(1), plane(2)];
    planes[1].stride = 0;
    assert_eq!(validate_descriptor(&descriptor(planes)), Err(DmabufError::ZeroPlane));
    let mut planes = vec![plane(1)];
    planes[0].size = 0;
    assert_eq!(validate_descriptor(&descriptor(planes)), Err(DmabufError::ZeroPlane));
    let mut planes = vec![plane(1)];
    planes[0].offset = 0;
    assert_eq!(validate_descriptor(&descriptor(planes)), Ok(()));
}

#[test]
fn a_copy_is_planned_from_format_and_size() {
    let plan = plan_copy(&descriptor(vec![plane(3)])).expect("plan was refused");
    let size = Extent3d { width: 64, height: 16, depth_or_array_layers: 1 };
    assert_eq!(plan.size, size);
    assert_eq!(plan.format, TextureFormat::Bgra8Unorm);
    assert_eq!(plan.owned, owned_texture_descriptor(size, TextureFormat::Bgra8Unorm));
    assert_eq!(plan.imported, imported_texture_descriptor(size, TextureFormat::Bgra8Unorm));
    assert_eq!(plan.owned.label, "gpui_owned_external_texture");
    assert_eq!(plan.imported.label, "gpui_imported_dmabuf_texture");
    assert_eq!(
        plan.imported.usage,
        TextureUsages { copy_src: true, copy_dst: false, texture_binding: false }
    );
    assert_eq!(plan.imported.mip_level_count, 1);
    assert_eq!(plan.imported.sample_count, 1);
    assert_eq!(plan.imported.dimension, TextureDimension::D2);

    let mut unsupported = descriptor(vec![]);
    unsupported.drm_format = 0x3231564e;
    assert_eq!(plan_copy(&unsupported), Err(DmabufError::UnsupportedFormat(0x3231564e)));
    assert_eq!(plan_copy(&descriptor(vec![])), Err(DmabufError::PlaneCount));
}

#[test]
fn a_copy_needs_a_permit_before_its_plan() {
    let retirement = Arc::new(DmabufRetirement::with_capacity(1));
    assert!(matches!(
        begin_copy(Err(DmabufError::TooManyPending(1)), &descriptor(vec![])),
        Err(DmabufError::TooManyPending(1))
    ));
    let permit = permit_or_refusal(retirement.try_acquire(), 1);
    assert!(matches!(
        begin_copy(permit, &descriptor(vec![])),
        Err(DmabufError::PlaneCount)
    ));
    let permit = permit_or_refusal(retirement.try_acquire(), 1);
    let (permit, plan) =
        begin_copy(permit, &descriptor(vec![plane(3)])).ok().expect("copy was refused");
    assert_eq!(plan.size.width, 64);
    assert!(retirement.try_acquire().is_none());
    drop(permit);
    assert!(retirement.try_acquire().is_some());
}

#[test]
fn errors_say_what_is_wrong() {
    assert_eq!(
        DmabufError::UnsupportedFormat(0xab).message(),
        "unsupported DMA-BUF DRM format 0x000000ab"
    );
    assert_eq!(
        DmabufError::UnsupportedFormat(0x3231564e).message(),
        "unsupported DMA-BUF DRM format 0x3231564e"
    );
    assert_eq!(
        DmabufError::TooManyPending(16).message(),
        "too many DMA-BUF textures are awaiting GPU copy completion (maximum 16)"
    );
    assert_eq!(
        DmabufError::UnsupportedFormat(0xfedcba98).message(),
        "unsupported DMA-BUF DRM format 0xfedcba98"
    );
    assert_eq!(
        DmabufError::TooManyPending(1234567890).message(),
        "too many DMA-BUF textures are awaiting GPU copy completion (maximum 1234567890)"
    );
    assert_eq!(
        DmabufError::TooManyPending(0).message(),
        "too many DMA-BUF textures are awaiting GPU copy completion (maximum 0)"
    );
    assert_eq!(
        DmabufError::MissingExtension("VK_KHR_external_memory_fd").message(),
        "Vulkan device did not enable required DMA-BUF extension VK_KHR_external_memory_fd"
    );
    assert_eq!(
        DmabufError::ZeroDimensions.message(),
        "DMA-BUF texture dimensions must be non-zero"
    );
    assert_eq!(
        DmabufError::PlaneCount.message(),
        "DMA-BUF texture must have between one and four planes"
    );
    assert_eq!(
        DmabufError::ZeroPlane.message(),
        "DMA-BUF plane stride and size must be non-zero"
    );
    assert_eq!(DmabufError::PollFailed.message(), "Failed to poll completed DMA-BUF copies");
    assert_eq!(
        DmabufError::NotVulkan.message(),
        "DMA-BUF import requires the Vulkan wgpu backend"
    );
    assert_eq!(
        DmabufError::ImageCreation.message(),
        "Failed to create Vulkan image for DMA-BUF"
    );
    assert_eq!(DmabufError::NoPlanes.message(), "DMA-BUF texture has no planes");
    assert_eq!(
        DmabufError::MemoryQuery.message(),
        "Failed to query DMA-BUF memory properties"
    );
    assert_eq!(
        DmabufError::NoMemoryType.message(),
        "DMA-BUF has no Vulkan-compatible memory type"
    );
    assert_eq!(
        DmabufError::MemoryImport.message(),
        "Failed to import DMA-BUF Vulkan memory"
    );
    assert_eq!(
        DmabufError::MemoryBinding.message(),
        "Failed to bind imported DMA-BUF memory"
    );
}

#[test]
fn the_first_missing_extension_is_named() {
    assert_eq!(missing_extension(&all_extensions()), None);
    assert_eq!(missing_extension(&vec![]), Some("VK_KHR_external_memory_fd"));
    let mut some = all_extensions();
    some.remove(1);
    assert_eq!(missing_extension(&some), Some("VK_EXT_external_memory_dma_buf"));
    let mut some = all_extensions();
    some.pop();
    some.push("VK_KHR_swapchain".to_string());
    assert_eq!(missing_extension(&some), Some("VK_EXT_image_drm_format_modifier"));
    assert!(needs_modifier_extension(&some));
    assert!(!needs_modifier_extension(&all_extensions()));
}

#[test]
fn a_device_is_opened_only_with_every_extension() {
    assert_eq!(choose_device(false, &Some(all_extensions())), DeviceChoice::Unsupported);
    assert_eq!(choose_device(false, &None), DeviceChoice::Unsupported);
    assert_eq!(choose_device(true, &None), DeviceChoice::NoAdapter);
    assert_eq!(choose_device(true, &Some(vec![])), DeviceChoice::Unsupported);
    assert_eq!(choose_device(true, &Some(all_extensions())), DeviceChoice::Open);
}

#[test]
fn an_import_begins_with_the_image() {
    let texture = descriptor(vec![plane(3), plane(4)]);
    let format = TextureFormat::Bgra8Unorm;
    assert_eq!(
        begin_import(&None, &texture, format).err(),
        Some(DmabufError::NotVulkan)
    );
    assert_eq!(
        begin_import(&Some(vec![]), &texture, format).err(),
        Some(DmabufError::MissingExtension("VK_KHR_external_memory_fd"))
    );
    let request = begin_import(&Some(all_extensions()), &texture, format)
        .expect("import was refused");
    assert_eq!(request.format, VulkanFormat::B8G8R8A8Unorm);
    assert_eq!(request.kind, ImageKind::TwoDimensional);
    assert_eq!(request.tiling, ImageTiling::FormatModifier);
    assert_eq!(request.usage, ImageUsage::TransferSource);
    assert_eq!((request.width, request.height, request.depth), (64, 16, 1));
    assert_eq!((request.mip_levels, request.array_layers, request.samples), (1, 1, 1));
    assert_eq!(request.modifier, 0x0100_0000_0000_0002);
    let layout = PlaneLayout { offset: 64, size: 4096, row_pitch: 256 };
    assert_eq!(request.layouts, vec![layout, layout]);
    assert_eq!(plane_layouts(&texture.planes), request.layouts);
    assert_eq!(vulkan_format(TextureFormat::Rgba8Unorm), VulkanFormat::R8G8B8A8Unorm);
}

#[test]
fn the_lowest_common_memory_type_is_chosen() {
    assert_eq!(memory_type_index(0b1100, 0b0110), Some(2));
    assert_eq!(memory_type_index(0b1, 0b1), Some(0));
    assert_eq!(memory_type_index(0x8000_0000, 0xffff_ffff), Some(31));
    assert_eq!(memory_type_index(0b1010, 0b0101), None);
    assert_eq!(memory_type_index(0, 0xffff_ffff), None);
}

const NEEDED: MemoryRequirements = MemoryRequirements { types: 0b0110, size: 8192 };

#[test]
fn a_whole_import_ends_with_the_bound_image() {
    let fd = match image_created(vec![plane(3), plane(4)], Some(NEEDED)) {
        ImportStep::QueryMemory { fd, requirements } => {
            assert_eq!(requirements, NEEDED);
            fd
        }
        _ => panic!("memory was not queried"),
    };
    assert_eq!(fd, 3);
    let fd = match memory_queried(fd, NEEDED, Some(0b1100)) {
        ImportStep::Allocate { fd, size, type_index } => {
            assert_eq!((size, type_index), (8192, 2));
            fd
        }
        _ => panic!("memory was not imported"),
    };
    assert!(matches!(memory_allocated(fd, true), ImportStep::Bind { fd: 3 }));
    assert!(matches!(image_bound::<u32>(true), ImportStep::Done));
}

fn failure(step: ImportStep<u32>) -> (DmabufError, Vec<Release<u32>>) {
    match step {
        ImportStep::Failed { error, releases } => (error, releases),
        _ => panic!("import did not fail"),
    }
}

#[test]
fn a_failed_import_gives_back_what_it_holds() {
    assert_eq!(
        failure(image_created(vec![plane(3)], None)),
        (DmabufError::ImageCreation, vec![])
    );
    assert_eq!(
        failure(image_created(vec![], Some(NEEDED))),
        (DmabufError::NoPlanes, vec![])
    );
    assert_eq!(
        failure(memory_queried(3, NEEDED, None)),
        (DmabufError::MemoryQuery, vec![Release::Descriptor(3), Release::Image])
    );
    assert_eq!(
        failure(memory_queried(3, NEEDED, Some(0b1001))),
        (DmabufError::NoMemoryType, vec![Release::Descriptor(3), Release::Image])
    );
    assert_eq!(
        failure(memory_allocated(3, false)),
        (DmabufError::MemoryImport, vec![Release::Descriptor(3), Release::Image])
    );
    assert_eq!(
        failure(image_bound(false)),
        (DmabufError::MemoryBinding, vec![Release::Memory, Release::Image])
    );
}

#[test]
fn a_texture_handle_gives_its_state() {
    let handle = ExternalTexture::new(Arc::new(41u32));
    assert_eq!(*handle.as_any(), 41);
    assert_eq!(*handle.clone().as_any(), 41);
    assert_eq!(handle.debug_text(), "ExternalTexture { .. }");
    let slice: Arc<[u8]> = Arc::from(vec![1u8, 2]);
    assert_eq!(ExternalTexture::new(slice).as_any(), &[1, 2]);
}
