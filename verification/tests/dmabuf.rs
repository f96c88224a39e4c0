use castaway_pipeline::hwaccel::dmabuf::{
    plane_layout, DmaBufError, DmaBufSurface, DrmDescriptor, DrmLayer, DrmObject, DrmPlane,
    DRM_FORMAT_GR88, DRM_FORMAT_NV12, DRM_FORMAT_R8,
};
use castaway_pipeline::hwaccel::ffmpeg_hw::{color_of, SignalledColor, StreamRange, StreamSpace};
use castaway_pipeline::hwaccel::remote_handle::{opened, pulled, RemoteHandle};
use castaway_pipeline::hwaccel::vaapi::{check_device, export, Mapped};
use castaway_pipeline::hwaccel::{HwBackendKind, HwGiveUp};

/// How many slots each table of a driver's descriptor has.
const SLOTS: usize = 4;

/// One layer as the test spells it: a DRM fourcc and its planes, each an
/// `(object index, byte offset, row pitch)` triple.
type LayerSpec<'a> = (u32, &'a [(i32, i64, i64)]);

/// Build a descriptor the way a driver would: tables of a fixed size, zero where unused.
fn descriptor(objects: &[(i32, u64)], layers: &[LayerSpec<'_>]) -> DrmDescriptor {
    let mut object_slots = vec![
        DrmObject {
            fd: 0,
            format_modifier: 0
        };
        SLOTS
    ];
    for (slot, (fd, modifier)) in object_slots.iter_mut().zip(objects) {
        slot.fd = *fd;
        slot.format_modifier = *modifier;
    }
    let blank = DrmPlane {
        object_index: 0,
        offset: 0,
        pitch: 0,
    };
    let mut layer_slots = Vec::new();
    for i in 0..SLOTS {
        let mut planes = vec![blank; SLOTS];
        let (format, given): LayerSpec<'_> = layers.get(i).copied().unwrap_or((0, &[]));
        for (slot, (object_index, offset, pitch)) in planes.iter_mut().zip(given) {
            *slot = DrmPlane {
                object_index: *object_index,
                offset: *offset,
                pitch: *pitch,
            };
        }
        layer_slots.push(DrmLayer {
            format,
            nb_planes: given.len() as i32,
            planes,
        });
    }
    DrmDescriptor {
        nb_objects: objects.len() as i32,
        objects: object_slots,
        nb_layers: layers.len() as i32,
        layers: layer_slots,
    }
}

fn unlabelled() -> SignalledColor {
    color_of(StreamSpace::Unspecified, StreamRange::Other, 1080)
}

#[test]
fn one_nv12_layer_with_two_planes_normalizes() {
    // The common AMD/RADV shape: both planes in one buffer at different offsets.
    let desc = descriptor(
        &[(7, 0x02)],
        &[(DRM_FORMAT_NV12, &[(0, 0, 1920), (0, 2_073_600, 1920)])],
    );
    let got = plane_layout(&desc).expect("should normalize");
    assert_eq!(got.modifier, 0x02);
    assert_eq!(got.luma.fd, 7);
    assert_eq!(got.luma.offset, 0);
    assert_eq!(got.chroma.offset, 2_073_600);
    assert_eq!(got.chroma.pitch, 1920);
}

#[test]
fn two_single_channel_layers_normalize_to_the_same_thing() {
    // The other shape drivers report — R8 luma plus GR88 chroma, in separate buffers.
    // Treating this as "unsupported" would drop hwaccel on hardware that works fine.
    let desc = descriptor(
        &[(3, 0x02), (4, 0x02)],
        &[
            (DRM_FORMAT_R8, &[(0, 0, 1920)]),
            (DRM_FORMAT_GR88, &[(1, 0, 1920)]),
        ],
    );
    let got = plane_layout(&desc).expect("should normalize");
    assert_eq!(got.luma.fd, 3);
    assert_eq!(got.chroma.fd, 4);
}

#[test]
fn mixed_modifiers_are_refused() {
    // One Vulkan image carries one modifier; importing these as one image would
    // describe the second plane's tiling incorrectly and render garbage.
    let desc = descriptor(
        &[(3, 0x02), (4, 0x09)],
        &[
            (DRM_FORMAT_R8, &[(0, 0, 64)]),
            (DRM_FORMAT_GR88, &[(1, 0, 64)]),
        ],
    );
    assert!(matches!(
        plane_layout(&desc),
        Err(DmaBufError::MixedModifiers),
    ));
}

#[test]
fn a_ten_bit_surface_is_refused_rather_than_reinterpreted() {
    // P010 arrives as a format this path does not describe. Reading it as NV12 would
    // render a plausible-looking but wrong picture; refusing lets the caller fall
    // back to software, which is the whole point of the give-up path.
    let p010 = (b'P' as u32) | ((b'0' as u32) << 8) | ((b'1' as u32) << 16) | ((b'0' as u32) << 24);
    let desc = descriptor(&[(3, 0)], &[(p010, &[(0, 0, 3840)])]);
    assert!(matches!(
        plane_layout(&desc),
        Err(DmaBufError::UnsupportedFormat(f)) if f == p010,
    ));
}

#[test]
fn a_single_plane_surface_is_refused() {
    let desc = descriptor(&[(3, 0)], &[(DRM_FORMAT_R8, &[(0, 0, 64)])]);
    assert!(matches!(
        plane_layout(&desc),
        Err(DmaBufError::PlaneCount(1))
    ));
}

#[test]
fn any_other_arrangement_of_known_layers_is_refused() {
    let refused = |layers: &[LayerSpec<'_>]| {
        match plane_layout(&descriptor(&[(3, 0x02), (4, 0x02)], layers)) {
            Err(DmaBufError::UnsupportedFormat(format)) => format,
            other => panic!("{other:?}"),
        }
    };
    let first: &[(i32, i64, i64)] = &[(0, 0, 1920)];
    let second: &[(i32, i64, i64)] = &[(1, 0, 1920)];
    let both: &[(i32, i64, i64)] = &[(0, 0, 1920), (1, 0, 1920)];
    assert_eq!(
        refused(&[(DRM_FORMAT_R8, first), (DRM_FORMAT_R8, second)]),
        DRM_FORMAT_R8
    );
    assert_eq!(
        refused(&[(DRM_FORMAT_GR88, first), (DRM_FORMAT_R8, second)]),
        DRM_FORMAT_GR88
    );
    assert_eq!(refused(&[(DRM_FORMAT_R8, both)]), DRM_FORMAT_R8);
    assert_eq!(
        refused(&[(DRM_FORMAT_NV12, first), (DRM_FORMAT_GR88, second)]),
        DRM_FORMAT_NV12
    );
    assert_eq!(
        refused(&[(DRM_FORMAT_NV12, both), (DRM_FORMAT_GR88, &[])]),
        DRM_FORMAT_GR88
    );
}

#[test]
fn a_plane_pointing_past_the_object_table_is_refused() {
    // A malformed descriptor must not become an out-of-bounds read.
    let desc = descriptor(&[(3, 0)], &[(DRM_FORMAT_NV12, &[(0, 0, 64), (5, 0, 64)])]);
    assert!(matches!(
        plane_layout(&desc),
        Err(DmaBufError::BadDescriptor)
    ));
}

#[test]
fn fourcc_constants_match_the_drm_headers() {
    // These are copied by hand from `drm_fourcc.h`; a typo would show up as an
    // "unsupported format" on every frame, so pin the byte values.
    assert_eq!(DRM_FORMAT_NV12, 0x3231_564e);
    assert_eq!(DRM_FORMAT_R8, 0x2020_3852);
    assert_eq!(DRM_FORMAT_GR88, 0x3838_5247);
}

#[test]
fn counts_outside_the_tables_are_refused() {
    let good = || descriptor(&[(7, 0)], &[(DRM_FORMAT_NV12, &[(0, 0, 8), (0, 64, 8)])]);
    assert!(plane_layout(&good()).is_ok());
    for objects in [-1, 0, 5] {
        let mut desc = good();
        desc.nb_objects = objects;
        assert_eq!(plane_layout(&desc), Err(DmaBufError::BadDescriptor));
    }
    for layers in [-1, 0, 5] {
        let mut desc = good();
        desc.nb_layers = layers;
        assert_eq!(plane_layout(&desc), Err(DmaBufError::BadDescriptor));
    }
    let mut desc = good();
    desc.layers[0].nb_planes = 5;
    assert_eq!(plane_layout(&desc), Err(DmaBufError::BadDescriptor));
    let mut desc = good();
    desc.layers[0].planes[1].offset = -1;
    assert_eq!(plane_layout(&desc), Err(DmaBufError::BadDescriptor));
    let mut desc = good();
    desc.layers[0].planes[0].pitch = -1;
    assert_eq!(plane_layout(&desc), Err(DmaBufError::BadDescriptor));
}

#[test]
fn a_mapped_frame_becomes_a_surface() {
    let desc = descriptor(&[(7, 9)], &[(DRM_FORMAT_NV12, &[(0, 0, 8), (0, 64, 8)])]);
    let surface = DmaBufSurface::from_drm_frame(Some(&desc), 1920, 1080, unlabelled()).unwrap();
    assert_eq!((surface.width, surface.height), (1920, 1080));
    assert_eq!(surface.modifier, 9);
    assert_eq!(surface.chroma.offset, 64);
    assert_eq!(
        DmaBufSurface::from_drm_frame(None, 1920, 1080, unlabelled()),
        Err(DmaBufError::NoDescriptor)
    );
    for (width, height) in [(0, 1080), (1920, 0), (-1, 1080)] {
        assert_eq!(
            DmaBufSurface::from_drm_frame(Some(&desc), width, height, unlabelled()),
            Err(DmaBufError::BadGeometry)
        );
    }
}

#[test]
fn descriptor_failures_have_their_own_words() {
    let words = [
        (DmaBufError::NoDescriptor, "mapped frame has no DRM descriptor"),
        (
            DmaBufError::BadDescriptor,
            "DRM descriptor is internally inconsistent",
        ),
        (DmaBufError::BadGeometry, "surface has unusable dimensions"),
        (
            DmaBufError::MixedModifiers,
            "planes use different DRM format modifiers",
        ),
        (
            DmaBufError::UnsupportedFormat(0x3031_3050),
            "unsupported DRM layer format 0x30313050",
        ),
        (
            DmaBufError::UnsupportedFormat(0xab),
            "unsupported DRM layer format 0x000000ab",
        ),
        (
            DmaBufError::PlaneCount(13),
            "expected 2 planes for NV12, got 13",
        ),
    ];
    for (error, text) in words {
        assert_eq!(error.message(), text);
    }
}

#[test]
fn an_export_says_what_went_wrong() {
    let failed = |mapped: Mapped<'_>| match export(mapped) {
        Err(HwGiveUp::ExportFailed(why)) => why,
        other => panic!("expected a failed export, got {other:?}"),
    };
    assert_eq!(failed(Mapped::NotAllocated), "av_frame_alloc failed");
    assert_eq!(
        failed(Mapped::Refused("Invalid argument")),
        "av_hwframe_map to DRM_PRIME failed (Invalid argument)"
    );
    assert_eq!(
        failed(Mapped::Frame {
            desc: None,
            width: 1,
            height: 1,
            color: unlabelled()
        }),
        "vaapi: mapped frame has no DRM descriptor"
    );
    let desc = descriptor(&[(7, 9)], &[(DRM_FORMAT_NV12, &[(0, 0, 8), (0, 64, 8)])]);
    let surface = export(Mapped::Frame {
        desc: Some(&desc),
        width: 64,
        height: 48,
        color: unlabelled(),
    })
    .unwrap();
    assert_eq!((surface.width, surface.luma.fd), (64, 7));
}

#[test]
fn a_device_that_will_not_open_is_unavailable() {
    assert!(check_device(HwBackendKind::Vaapi, 0, "", true).is_ok());
    assert_eq!(
        check_device(HwBackendKind::Vaapi, -5, "I/O error", false),
        Err(HwGiveUp::DeviceUnavailable(
            "vaapi: av_hwdevice_ctx_create failed (I/O error)".into()
        ))
    );
    assert!(check_device(HwBackendKind::D3d11Va, 0, "ok", false).is_err());
}

#[test]
fn a_remote_handle_is_just_a_number_from_elsewhere() {
    // The whole point of the newtype: it must not be confusable with a local one.
    // If this ever starts converting to RawFd/HANDLE implicitly, the type has lost
    // the property it exists for.
    let remote = RemoteHandle(108);
    assert_eq!(remote.0, 108);
    assert_eq!(remote, RemoteHandle(108));
    assert_ne!(remote, RemoteHandle(109));
}

#[test]
fn what_the_kernel_returns_is_a_descriptor_or_an_error() {
    assert_eq!(opened(42, 7, "").unwrap(), 7);
    assert_eq!(
        opened(42, -1, "No such process").unwrap_err().message(),
        "gpu surface import failed: pidfd_open(42): No such process"
    );
    assert_eq!(
        opened(42, 5_000_000_000, "").unwrap_err().message(),
        "gpu surface import failed: pidfd_open returned 5000000000"
    );
    assert_eq!(pulled(RemoteHandle(3), 9, "").unwrap(), 9);
    let refused = pulled(RemoteHandle(-3), -1, "Operation not permitted")
        .unwrap_err()
        .message();
    assert!(
        refused.starts_with("gpu surface import failed: pidfd_getfd(-3): Operation not permitted"),
        "{refused}"
    );
    assert!(refused.contains("PTRACE_MODE_ATTACH"), "{refused}");
    assert!(pulled(RemoteHandle(3), i64::from(i32::MAX) + 1, "").is_err());
}
