use castaway_pipeline::error::PipelineError;
use castaway_pipeline::hwaccel::d3d11va::{
    check_call, poll_fence, ContextParts, D3d11Exporter, FencePoll, Slot, POOL_DEPTH,
};
use castaway_pipeline::hwaccel::dmabuf::{DmaBufSurface, PlaneLayout};
use castaway_pipeline::hwaccel::dx12_import::{
    check_extent, check_open_shared, dxgi_formats, Dx12Importer, ResourceDesc,
    DXGI_B8G8R8A8_TYPELESS, DXGI_B8G8R8A8_UNORM, DXGI_B8G8R8A8_UNORM_SRGB, DXGI_NV12,
    DXGI_R8G8B8A8_UNORM,
};
use castaway_pipeline::hwaccel::ffmpeg_hw::{
    attach, color_of, hw_pixel_format, signalled_range, signalled_space, take_format_rejected,
    HwConfig, Negotiation, OfferedFormat, SignalledRange, SignalledSpace, StreamRange, StreamSpace,
    MAX_ENTRIES, PIX_FMT_NONE,
};
use castaway_pipeline::hwaccel::vulkan_import::{
    interop_extensions, Aspect, Backend, BuildAction, BuildEvent, ImageBuild, ImageFormat,
    MemoryPlan, SubresourceLayout, VulkanImporter,
};
use castaway_pipeline::hwaccel::{
    Build, Extent, FrameGeometry, HwBackendKind, HwGiveUp, Platform, SurfaceExporter,
    TextureFormat,
};

fn names(list: &[&str]) -> Vec<String> {
    list.iter().map(|name| name.to_string()).collect()
}

fn plane(fd: i32, offset: u64, pitch: u64) -> PlaneLayout {
    PlaneLayout { fd, offset, pitch }
}

fn surface(luma: PlaneLayout, chroma: PlaneLayout) -> DmaBufSurface {
    DmaBufSurface {
        width: 1920,
        height: 1080,
        modifier: 7,
        luma,
        chroma,
        color: color_of(StreamSpace::Bt709, StreamRange::Mpeg, 1080),
    }
}

#[test]
fn ffmpeg_colorspace_tags_map_to_our_matrices() {
    // Both spellings of BT.601 must land on the same matrix.
    assert_eq!(
        signalled_space(StreamSpace::Bt470bg),
        SignalledSpace::Bt601
    );
    assert_eq!(
        signalled_space(StreamSpace::Smpte170m),
        SignalledSpace::Bt601
    );
    assert_eq!(signalled_space(StreamSpace::Bt709), SignalledSpace::Bt709);
    assert_eq!(
        signalled_space(StreamSpace::Bt2020Ncl),
        SignalledSpace::Bt2020Ncl
    );
    assert_eq!(
        signalled_space(StreamSpace::Unspecified),
        SignalledSpace::Unspecified
    );
    assert_eq!(
        signalled_space(StreamSpace::Smpte240m),
        SignalledSpace::Bt601
    );
    assert_eq!(
        signalled_space(StreamSpace::Other),
        SignalledSpace::Unsupported
    );
}

#[test]
fn ffmpeg_range_tags_map_to_ours() {
    assert_eq!(signalled_range(StreamRange::Jpeg), SignalledRange::Full);
    assert_eq!(signalled_range(StreamRange::Mpeg), SignalledRange::Limited);
    assert_eq!(
        signalled_range(StreamRange::Other),
        SignalledRange::Unspecified
    );
}

#[test]
fn a_frame_without_a_height_has_none() {
    assert_eq!(
        color_of(StreamSpace::Bt709, StreamRange::Mpeg, -1).height,
        0
    );
    assert_eq!(
        color_of(StreamSpace::Bt709, StreamRange::Mpeg, 720).height,
        720
    );
}

#[test]
fn the_interop_extension_list_is_the_one_the_spec_requires() {
    // `image_format_list` is easy to drop as "optional"; it is not, once the image may be
    // viewed in another format.
    let names = interop_extensions();
    assert!(names.contains(&"VK_KHR_external_memory_fd".to_string()));
    assert!(names.contains(&"VK_EXT_external_memory_dma_buf".to_string()));
    assert!(names.contains(&"VK_EXT_image_drm_format_modifier".to_string()));
    assert!(names.contains(&"VK_KHR_image_format_list".to_string()));
}

#[test]
fn the_negotiation_takes_the_hardware_format_when_offered() {
    let mut negotiation = Negotiation::new();
    negotiation.want(46);
    let offered = vec![
        OfferedFormat { format: 0, hardware: false },
        OfferedFormat { format: 46, hardware: true },
        OfferedFormat { format: PIX_FMT_NONE, hardware: false },
    ];
    assert_eq!(negotiation.choose_format(Some(&offered)), 46);
    assert!(!take_format_rejected(&mut negotiation));
}

#[test]
fn a_missing_hardware_format_yields_the_first_software_one_and_says_so() {
    let mut negotiation = Negotiation::new();
    negotiation.want(46);
    let offered = vec![
        OfferedFormat { format: 99, hardware: true },
        OfferedFormat { format: 12, hardware: false },
        OfferedFormat { format: 0, hardware: false },
        OfferedFormat { format: PIX_FMT_NONE, hardware: false },
        OfferedFormat { format: 46, hardware: true },
    ];
    assert_eq!(negotiation.choose_format(Some(&offered)), 12);
    assert!(take_format_rejected(&mut negotiation));
    assert!(!take_format_rejected(&mut negotiation));
}

#[test]
fn a_list_is_not_walked_without_end() {
    let mut negotiation = Negotiation::new();
    negotiation.want(46);
    let mut offered = vec![OfferedFormat { format: 99, hardware: true }; MAX_ENTRIES];
    offered.push(OfferedFormat { format: 46, hardware: true });
    assert_eq!(negotiation.choose_format(Some(&offered)), PIX_FMT_NONE);
    assert!(take_format_rejected(&mut negotiation));
    assert_eq!(negotiation.choose_format(None), PIX_FMT_NONE);
    assert!(take_format_rejected(&mut negotiation));
}

#[test]
fn a_codec_says_which_format_a_backend_yields() {
    let configs = vec![
        HwConfig { device: None, by_device_context: true, pix_fmt: 1 },
        HwConfig {
            device: Some(HwBackendKind::Vaapi),
            by_device_context: false,
            pix_fmt: 2,
        },
        HwConfig {
            device: Some(HwBackendKind::Vaapi),
            by_device_context: true,
            pix_fmt: 46,
        },
    ];
    assert_eq!(hw_pixel_format(&configs, HwBackendKind::Vaapi), Some(46));
    assert_eq!(hw_pixel_format(&configs, HwBackendKind::D3d11Va), None);

    let mut negotiation = Negotiation::new();
    assert_eq!(
        attach(&mut negotiation, Some(&configs), HwBackendKind::Vaapi).unwrap(),
        46
    );
    assert_eq!(negotiation.wanted, 46);
    assert!(matches!(
        attach(&mut negotiation, Some(&configs), HwBackendKind::D3d11Va),
        Err(HwGiveUp::CodecUnsupported(HwBackendKind::D3d11Va))
    ));
    assert!(matches!(
        attach(&mut negotiation, None, HwBackendKind::Vaapi),
        Err(HwGiveUp::CodecUnsupported(HwBackendKind::Vaapi))
    ));
    assert_eq!(negotiation.wanted, 46);
}

#[test]
fn a_vulkan_device_is_opened_with_what_import_needs() {
    let available = names(&[
        "VK_KHR_swapchain",
        "VK_KHR_image_format_list",
        "VK_KHR_external_memory_fd",
        "VK_EXT_external_memory_dma_buf",
        "VK_EXT_image_drm_format_modifier",
    ]);
    let required = names(&["VK_KHR_swapchain", "VK_KHR_image_format_list"]);
    let enabled = VulkanImporter::open_device(Backend::Vulkan, true, required, &available).unwrap();
    assert_eq!(
        enabled,
        names(&[
            "VK_KHR_swapchain",
            "VK_KHR_image_format_list",
            "VK_KHR_external_memory_fd",
            "VK_EXT_external_memory_dma_buf",
            "VK_EXT_image_drm_format_modifier",
        ])
    );
}

#[test]
fn an_adapter_that_cannot_import_says_why() {
    let refused = VulkanImporter::open_device(Backend::Gl, true, Vec::new(), &Vec::new());
    assert_eq!(
        refused.unwrap_err().message(),
        "gpu init failed: DMA-BUF import needs the Vulkan backend, this adapter is Gl"
    );
    let refused = VulkanImporter::open_device(Backend::Vulkan, false, Vec::new(), &Vec::new());
    assert_eq!(
        refused.unwrap_err().message(),
        "gpu init failed: adapter does not support TEXTURE_FORMAT_NV12"
    );
    let refused = VulkanImporter::open_device(
        Backend::Vulkan,
        true,
        Vec::new(),
        &names(&["VK_KHR_external_memory_fd"]),
    );
    assert_eq!(
        refused.unwrap_err().message(),
        "gpu init failed: driver lacks VK_EXT_external_memory_dma_buf, which DMA-BUF import needs"
    );
}

#[test]
fn a_decoded_surface_is_described_with_its_own_tiling() {
    let together = surface(plane(5, 0, 2048), plane(5, 2_228_224, 2048));
    let plan = VulkanImporter::import(Some(&together)).unwrap();
    assert_eq!(plan.image.format, ImageFormat::Nv12);
    assert_eq!((plan.image.width, plan.image.height), (1920, 1080));
    assert_eq!(plan.image.modifier, 7);
    assert_eq!(
        plan.image.planes,
        vec![
            SubresourceLayout { offset: 0, row_pitch: 2048 },
            SubresourceLayout { offset: 2_228_224, row_pitch: 2048 },
        ]
    );
    assert_eq!(
        plan.image.view_formats,
        vec![ImageFormat::Nv12, ImageFormat::R8, ImageFormat::Rg8]
    );
    assert!(plan.image.mutable_format && plan.image.alias && !plan.image.disjoint);
    assert_eq!(plan.fds, vec![5]);
    assert_eq!(plan.texture.label, "imported-nv12");

    let apart = surface(plane(5, 0, 2048), plane(6, 0, 2048));
    let plan = VulkanImporter::import(Some(&apart)).unwrap();
    assert!(plan.image.disjoint);
    assert_eq!(plan.fds, vec![5, 6]);

    assert_eq!(
        VulkanImporter::import(None).unwrap_err().message(),
        "gpu surface import failed: surface is not a DMA-BUF surface"
    );
}

#[test]
fn a_browser_frame_is_one_plane() {
    let geometry = FrameGeometry {
        width: 1280,
        height: 720,
        format: TextureFormat::Bgra8Unorm,
    };
    let plan = VulkanImporter::import_single_plane(geometry, 9, plane(3, 64, 5120)).unwrap();
    assert_eq!(plan.image.format, ImageFormat::Bgra8Unorm);
    assert_eq!(plan.image.modifier, 9);
    assert_eq!(
        plan.image.planes,
        vec![SubresourceLayout { offset: 64, row_pitch: 5120 }]
    );
    assert!(plan.image.view_formats.is_empty());
    assert!(!plan.image.mutable_format && !plan.image.alias && !plan.image.disjoint);
    assert_eq!(plan.fds, vec![3]);
    assert_eq!(plan.texture.label, "imported-browser-frame");

    let empty = FrameGeometry {
        width: 0,
        height: 720,
        format: TextureFormat::Bgra8Unorm,
    };
    let refused = VulkanImporter::import_single_plane(empty, 0, plane(3, 0, 0));
    assert_eq!(
        refused.unwrap_err().message(),
        "gpu surface import failed: browser frame has unusable dimensions 0x720"
    );
}

#[test]
fn device_local_memory_is_preferred() {
    let importer = VulkanImporter::new(vec![false, false, true, true]);
    assert_eq!(importer.pick_memory_type(0b1111), Some(2));
    assert_eq!(importer.pick_memory_type(0b0011), Some(0));
    assert_eq!(importer.pick_memory_type(0b0010), Some(1));
    assert_eq!(importer.pick_memory_type(0b1_0000), None);
    assert_eq!(
        importer.import_memory(0b1110, 0b1010, 4096).unwrap(),
        MemoryPlan { type_index: 3, size: 4096 }
    );
    assert_eq!(
        importer.import_memory(0b0001, 0b0010, 4096).unwrap_err().message(),
        "gpu surface import failed: no memory type is shared by this DMA-BUF and the image"
    );
}

#[test]
fn a_disjoint_image_imports_each_plane_before_it_binds() {
    let mut build = ImageBuild::new(true, 2);
    assert!(matches!(
        build.step(BuildEvent::Created(Ok(()))),
        BuildAction::Import { fd: 0, aspect: Aspect::Luma }
    ));
    assert!(matches!(
        build.step(BuildEvent::Imported(Ok(()))),
        BuildAction::Import { fd: 1, aspect: Aspect::Chroma }
    ));
    assert!(matches!(
        build.step(BuildEvent::Imported(Ok(()))),
        BuildAction::Bind
    ));
    assert_eq!(build.memories(), 2);
    assert!(matches!(
        build.step(BuildEvent::Bound(Ok(()))),
        BuildAction::Done
    ));
}

#[test]
fn a_failed_import_leaves_every_memory_accounted_for() {
    let mut build = ImageBuild::new(true, 2);
    let _ = build.step(BuildEvent::Created(Ok(())));
    let _ = build.step(BuildEvent::Imported(Ok(())));
    let why = PipelineError::GpuImport("no".to_string());
    match build.step(BuildEvent::Imported(Err(why))) {
        BuildAction::Fail(e) => assert_eq!(e.message(), "gpu surface import failed: no"),
        other => panic!("{other:?}"),
    }
    assert_eq!(build.memories(), 1);
}

#[test]
fn an_image_that_cannot_be_built_says_which_step_failed() {
    let failed = |action: BuildAction| match action {
        BuildAction::Fail(e) => e.message(),
        other => panic!("{other:?}"),
    };
    let mut build = ImageBuild::new(false, 1);
    assert_eq!(
        failed(build.step(BuildEvent::Created(Err("lost".to_string())))),
        "gpu surface import failed: vkCreateImage: lost"
    );
    let mut build = ImageBuild::new(false, 0);
    assert_eq!(
        failed(build.step(BuildEvent::Created(Ok(())))),
        "gpu surface import failed: no DMA-BUF to import"
    );
    let mut build = ImageBuild::new(true, 1);
    assert_eq!(
        failed(build.step(BuildEvent::Created(Ok(())))),
        "gpu surface import failed: disjoint surface has one fd"
    );
    let mut build = ImageBuild::new(false, 1);
    assert!(matches!(
        build.step(BuildEvent::Created(Ok(()))),
        BuildAction::Import { fd: 0, aspect: Aspect::Whole }
    ));
    let _ = build.step(BuildEvent::Imported(Ok(())));
    assert_eq!(
        failed(build.step(BuildEvent::Bound(Err("full".to_string())))),
        "gpu surface import failed: vkBindImageMemory2: full"
    );
}

#[test]
fn a_shared_resource_has_to_be_what_it_is_imported_as() {
    let claimed = Extent {
        width: 1280,
        height: 720,
        depth_or_array_layers: 1,
    };
    let desc = |width, height, format| ResourceDesc {
        width,
        height,
        format,
    };
    let bgra = TextureFormat::Bgra8Unorm;
    for format in [
        DXGI_B8G8R8A8_UNORM,
        DXGI_B8G8R8A8_UNORM_SRGB,
        DXGI_B8G8R8A8_TYPELESS,
    ] {
        assert!(check_extent(desc(1280, 720, format), claimed, &bgra).is_ok());
    }
    assert_eq!(
        check_extent(desc(1280, 700, DXGI_B8G8R8A8_UNORM), claimed, &bgra)
            .unwrap_err()
            .message(),
        "gpu surface import failed: shared resource is 1280×700 but was imported as 1280×720"
    );
    assert_eq!(
        check_extent(desc(1280, 720, DXGI_R8G8B8A8_UNORM), claimed, &bgra)
            .unwrap_err()
            .message(),
        "gpu surface import failed: shared resource is DXGI format 28 but was imported as Bgra8Unorm"
    );
    let other = TextureFormat::Other("R16Float".to_string());
    assert!(dxgi_formats(&other).is_empty());
    assert!(check_extent(desc(1280, 720, 54), claimed, &other).is_ok());
}

#[test]
fn a_dx12_import_checks_the_frame_before_the_resource() {
    assert!(Dx12Importer::open_device(Backend::Dx12, true).is_ok());
    assert_eq!(
        Dx12Importer::open_device(Backend::Vulkan, true).unwrap_err().message(),
        "gpu init failed: shared-texture import needs the DX12 backend, this adapter is Vulkan"
    );
    let desc = ResourceDesc {
        width: 1920,
        height: 1080,
        format: DXGI_NV12,
    };
    assert_eq!(
        Dx12Importer::import(Some((1920, 1080)), desc).unwrap(),
        Extent { width: 1920, height: 1080, depth_or_array_layers: 1 }
    );
    assert_eq!(
        Dx12Importer::import(None, desc).unwrap_err().message(),
        "gpu surface import failed: surface is not a D3D11 shared texture"
    );
    let geometry = FrameGeometry {
        width: 1920,
        height: 1080,
        format: TextureFormat::Nv12,
    };
    assert_eq!(
        Dx12Importer::import_single_plane(geometry, desc).unwrap_err().message(),
        "gpu surface import failed: single-plane import supports BGRA8/RGBA8, not NV12"
    );
    assert!(check_open_shared(Some((0, true))).is_ok());
    assert_eq!(
        check_open_shared(None).unwrap_err().message(),
        "gpu surface import failed: device has no DX12 backend"
    );
    assert_eq!(
        check_open_shared(Some((-2_147_024_809, false))).unwrap_err().message(),
        "gpu surface import failed: OpenSharedHandle failed (0x80070057)"
    );
}

#[test]
fn a_direct3d_call_reports_its_code() {
    assert!(check_call("CreateTexture2D", 0, true).is_ok());
    assert_eq!(
        check_call("CreateTexture2D", -2_147_024_882, false).unwrap_err().message(),
        "surface export failed: CreateTexture2D failed (0x8007000e)"
    );
    assert!(matches!(poll_fence(0), FencePoll::Retired));
    assert!(matches!(poll_fence(1), FencePoll::Pending));
    assert!(matches!(
        poll_fence(-1),
        FencePoll::Failed(HwGiveUp::ExportFailed(_))
    ));
}

#[test]
fn shared_textures_are_reused_and_bounded() {
    let whole = ContextParts {
        context: true,
        hwctx: true,
        device: true,
    };
    let mut ring = D3d11Exporter::new(whole).unwrap();
    assert!(ring.begin_frame(true, 1920, 1080).unwrap());
    assert!(!ring.begin_frame(true, 1920, 1080).unwrap());
    let mut free: Vec<bool> = Vec::new();
    for _ in 0..POOL_DEPTH {
        assert_eq!(ring.acquire_slot(&free).unwrap(), Slot::Create);
        ring.slot_created();
        free.push(false);
    }
    assert_eq!(
        ring.acquire_slot(&free).unwrap_err().message(),
        "surface export failed: all shared textures are still in use"
    );
    free[2] = true;
    assert_eq!(ring.acquire_slot(&free).unwrap(), Slot::Reuse(2));
    // A new size starts the ring over.
    assert!(ring.begin_frame(true, 1280, 720).unwrap());
    assert_eq!(ring.acquire_slot(&Vec::new()).unwrap(), Slot::Create);
    assert_eq!(
        ring.begin_frame(false, 1280, 720).unwrap_err().message(),
        "surface export failed: decoded frame has no texture"
    );
}

#[test]
fn a_decode_device_without_its_parts_is_unavailable() {
    let parts = |context, hwctx, device| ContextParts {
        context,
        hwctx,
        device,
    };
    let windows = Build {
        hwaccel: true,
        platform: Platform::Windows,
    };
    let refusal = |parts| SurfaceExporter::new(windows, parts).unwrap_err().message();
    assert!(refusal(parts(false, true, true)).ends_with("null hw device context"));
    assert!(refusal(parts(true, false, true)).ends_with("null D3D11VA hwctx"));
    assert!(refusal(parts(true, true, false)).ends_with("D3D11VA context has no device"));
    assert!(matches!(
        SurfaceExporter::new(windows, parts(true, true, true)),
        Ok(SurfaceExporter::D3d11Va(_))
    ));
    let unix = Build {
        hwaccel: true,
        platform: Platform::Unix,
    };
    assert!(matches!(
        SurfaceExporter::new(unix, parts(false, false, false)),
        Ok(SurfaceExporter::Vaapi)
    ));
    let other = Build {
        hwaccel: true,
        platform: Platform::Other,
    };
    assert!(matches!(
        SurfaceExporter::new(other, parts(true, true, true)),
        Err(HwGiveUp::NotCompiled)
    ));
}
