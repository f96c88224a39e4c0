use castaway_pipeline::error::PipelineError;
use castaway_pipeline::hwaccel::{
    import_capability, mark_import_broken, Build, DecodePath, Extent, FallbackPolicy,
    FrameGeometry, GpuImporter, HwBackendKind, HwGiveUp, HwPreference, ImportState, Notice,
    Platform, Reaction, SurfaceImport, TextureFormat, TRANSIENT_BUDGET,
};

const LINUX: Build = Build {
    hwaccel: true,
    platform: Platform::Unix,
};
const WINDOWS: Build = Build {
    hwaccel: true,
    platform: Platform::Windows,
};
const PLAIN: Build = Build {
    hwaccel: false,
    platform: Platform::Unix,
};

/// A policy that believes hardware is available.
fn hw_policy(preference: HwPreference) -> FallbackPolicy {
    FallbackPolicy::new(preference, LINUX)
}

#[test]
fn software_only_never_starts_on_hardware() {
    let p = FallbackPolicy::new(HwPreference::SoftwareOnly, LINUX);
    assert_eq!(p.path(), DecodePath::Software);
    assert!(!p.wants_hardware());
}

#[test]
fn a_setup_failure_falls_back_immediately() {
    // No budget for these: if the device won't open or the codec has no hw config,
    // it will not open on the next frame either.
    let mut p = hw_policy(HwPreference::Auto);
    assert_eq!(
        p.give_up(HwGiveUp::DeviceUnavailable("no /dev/dri".into())),
        Reaction::FallBackToSoftware,
    );
    assert_eq!(p.path(), DecodePath::Software);
    assert!(!p.wants_hardware());
}

#[test]
fn a_rejected_format_falls_back_immediately() {
    let mut p = hw_policy(HwPreference::Auto);
    assert_eq!(
        p.give_up(HwGiveUp::FormatRejected(HwBackendKind::Vaapi)),
        Reaction::FallBackToSoftware,
    );
    assert_eq!(p.path(), DecodePath::Software);
}

#[test]
fn transient_export_failures_are_tolerated_then_are_not() {
    // One surface that won't export is a dropped frame on a live mirror — invisible.
    // A steady drip of them is worse than software decode, so the budget is small
    // and, once spent, the decision is permanent.
    let mut p = hw_policy(HwPreference::Auto);
    for i in 0..TRANSIENT_BUDGET {
        assert_eq!(
            p.give_up(HwGiveUp::ExportFailed(format!("pool empty {i}"))),
            Reaction::DropFrame,
            "failure {i} should have been absorbed",
        );
        assert!(p.wants_hardware());
    }
    assert_eq!(
        p.give_up(HwGiveUp::ExportFailed("pool empty again".into())),
        Reaction::FallBackToSoftware,
    );
    assert!(!p.wants_hardware());
}

#[test]
fn fallback_is_permanent_for_the_session() {
    // Re-probing on every keyframe would re-pay the setup cost and stutter while it
    // happens, and the stream parameters that were refused have not changed.
    let mut p = hw_policy(HwPreference::Auto);
    p.give_up(HwGiveUp::DecodeFailed("profile".into()));
    assert_eq!(p.path(), DecodePath::Software);
    assert_eq!(
        p.give_up(HwGiveUp::ExportFailed("late report".into())),
        Reaction::FallBackToSoftware,
        "a straggling failure must not resurrect hardware or re-decide",
    );
    assert_eq!(p.path(), DecodePath::Software);
}

#[test]
fn the_downgrade_is_announced_once_with_its_reason() {
    let mut p = hw_policy(HwPreference::Auto);
    assert_eq!(p.take_notice(), None);
    let hiccup = HwGiveUp::ExportFailed("pool".into());
    p.give_up(hiccup.clone());
    assert_eq!(
        p.take_notice(),
        Some(Notice::Hiccup {
            reason: hiccup,
            seen: 1
        })
    );
    let lost = HwGiveUp::DecodeFailed("profile".into());
    p.give_up(lost.clone());
    // A straggler says nothing, and does not change what is to be said.
    p.give_up(HwGiveUp::NotCompiled);
    assert_eq!(p.take_notice(), Some(Notice::FellBack(lost)));
    p.give_up(HwGiveUp::ExportFailed("late".into()));
    assert_eq!(p.take_notice(), None);

    let mut only = hw_policy(HwPreference::HardwareOnly);
    only.give_up(HwGiveUp::NotCompiled);
    assert_eq!(only.take_notice(), None);
}

#[test]
fn hardware_only_refuses_to_fall_back() {
    // The diagnostic mode: a broken hwaccel path is otherwise invisible, because
    // everything still plays — just on the CPU.
    let mut p = hw_policy(HwPreference::HardwareOnly);
    let reason = HwGiveUp::DeviceUnavailable("no render node".into());
    assert_eq!(p.give_up(reason.clone()), Reaction::Fail(reason));
    assert!(
        p.wants_hardware(),
        "HardwareOnly must not silently switch paths",
    );
}

#[test]
fn hardware_only_does_not_absorb_transient_failures_either() {
    // Tolerating drops here would hide exactly what the mode exists to expose.
    let mut p = hw_policy(HwPreference::HardwareOnly);
    assert!(matches!(
        p.give_up(HwGiveUp::ExportFailed("pool".into())),
        Reaction::Fail(_),
    ));
}

#[test]
fn a_build_with_no_backend_starts_in_software() {
    // Feature off, or a platform with no backend: `Auto` must still produce a
    // working decoder rather than an error.
    for build in [
        PLAIN,
        Build {
            hwaccel: true,
            platform: Platform::Other,
        },
    ] {
        assert!(HwBackendKind::for_this_platform(build).is_none());
        let p = FallbackPolicy::new(HwPreference::Auto, build);
        assert_eq!(p.path(), DecodePath::Software);
    }
}

#[test]
fn give_up_reasons_say_something_useful() {
    // These strings are the whole diagnostic surface when a mirror is slow on a box
    // nobody can attach a debugger to.
    let rendered = HwGiveUp::DeviceUnavailable("no /dev/dri/renderD128".into()).message();
    assert!(rendered.contains("no /dev/dri/renderD128"), "{rendered}");
    let rendered = HwGiveUp::FormatRejected(HwBackendKind::D3d11Va).message();
    assert!(rendered.contains("d3d11va"), "{rendered}");
}

#[test]
fn every_give_up_has_its_own_words() {
    let kind = HwBackendKind::Vaapi;
    assert_eq!(
        HwGiveUp::NotCompiled.message(),
        "no hardware decode backend compiled for this build"
    );
    assert_eq!(
        HwGiveUp::CodecUnsupported(kind).message(),
        "vaapi has no config for this codec"
    );
    assert_eq!(
        HwGiveUp::FormatRejected(kind).message(),
        "vaapi offered no hardware pixel format for this stream"
    );
    assert_eq!(
        HwGiveUp::DecodeFailed("x".into()).message(),
        "hardware decode failed: x"
    );
    assert_eq!(
        HwGiveUp::ExportFailed("y".into()).message(),
        "surface export failed: y"
    );
    assert_eq!(
        HwGiveUp::DeviceUnavailable("z".into()).message(),
        "hardware device unavailable: z"
    );
}

#[test]
fn the_backend_is_a_fact_about_the_build() {
    assert_eq!(
        HwBackendKind::for_this_platform(LINUX),
        Some(HwBackendKind::Vaapi)
    );
    assert_eq!(
        HwBackendKind::for_this_platform(WINDOWS),
        Some(HwBackendKind::D3d11Va)
    );
    assert_eq!(HwBackendKind::for_this_platform(PLAIN), None);
    assert_eq!(HwBackendKind::Vaapi.slug(), "vaapi");
    assert_eq!(HwBackendKind::D3d11Va.slug(), "d3d11va");
    assert_eq!(HwPreference::default(), HwPreference::Auto);
}

#[test]
fn hardware_is_confirmed_only_on_the_path_taken() {
    let mut p = hw_policy(HwPreference::Auto);
    assert!(p.confirm_hardware(HwBackendKind::Vaapi));
    assert!(!p.confirm_hardware(HwBackendKind::D3d11Va));
    p.give_up(HwGiveUp::NotCompiled);
    assert!(!p.confirm_hardware(HwBackendKind::Vaapi));
}

#[test]
fn no_compositor_means_no_import() {
    // The conservative answer matters: without a compositor there is nothing to
    // import *into*, so a decoder must not start producing GPU surfaces.
    assert_eq!(
        import_capability(ImportState::Unknown, LINUX),
        SurfaceImport::Unsupported,
    );
}

#[test]
fn capability_renders_for_logs() {
    assert_eq!(
        SurfaceImport::Supported(HwBackendKind::Vaapi).label(),
        "vaapi",
    );
    assert_eq!(SurfaceImport::Unsupported.label(), "none");
}

#[test]
fn an_opened_device_can_import_until_it_proves_it_cannot() {
    let mut state = ImportState::Unknown;
    let importer = GpuImporter::open_device(&mut state, LINUX, Some(Ok(())))
        .unwrap()
        .unwrap();
    assert_eq!(
        importer.capability(),
        SurfaceImport::Supported(HwBackendKind::Vaapi)
    );
    assert_eq!(
        import_capability(state, LINUX),
        SurfaceImport::Supported(HwBackendKind::Vaapi)
    );
    assert_eq!(import_capability(state, PLAIN), SurfaceImport::Unsupported);
    assert!(mark_import_broken(&mut state), "the first report is news");
    assert!(!mark_import_broken(&mut state), "the second is not");
    assert_eq!(import_capability(state, LINUX), SurfaceImport::Unsupported);
}

#[test]
fn a_device_that_would_not_open_is_recorded_and_reported() {
    let mut state = ImportState::Yes;
    let refused = GpuImporter::open_device(
        &mut state,
        LINUX,
        Some(Err(PipelineError::GpuInit("no".into()))),
    );
    assert!(matches!(refused, Err(PipelineError::GpuInit(why)) if why == "no"));
    assert_eq!(state, ImportState::No);
    let mut state = ImportState::Yes;
    assert!(GpuImporter::open_device(&mut state, PLAIN, None)
        .unwrap()
        .is_none());
    assert_eq!(state, ImportState::No);
    assert!(matches!(
        GpuImporter::import_backend(PLAIN),
        Err(PipelineError::GpuImport(why)) if why == "this build has no GPU surface importer"
    ));
    assert_eq!(
        GpuImporter::import_backend(WINDOWS).unwrap(),
        HwBackendKind::D3d11Va
    );
}

#[test]
fn a_frame_that_cannot_be_described_is_refused() {
    let geometry = |width, height, format| FrameGeometry {
        width,
        height,
        format,
    };
    let ok = geometry(1920, 1080, TextureFormat::Bgra8Unorm);
    assert_eq!(
        ok.extent(),
        Extent {
            width: 1920,
            height: 1080,
            depth_or_array_layers: 1
        }
    );
    assert!(ok.validate().is_ok());
    // What is read through the sRGB curve is the same bytes.
    for format in [
        TextureFormat::Rgba8Unorm,
        TextureFormat::Rgba8UnormSrgb,
        TextureFormat::Bgra8UnormSrgb,
    ] {
        assert!(geometry(1, 1, format).validate().is_ok());
    }
    let refused = geometry(1920, 1080, TextureFormat::Nv12)
        .validate()
        .unwrap_err();
    assert_eq!(
        refused.message(),
        "gpu surface import failed: single-plane import supports BGRA8/RGBA8, not NV12"
    );
    let refused = geometry(1920, 0, TextureFormat::Bgra8Unorm)
        .validate()
        .unwrap_err();
    assert_eq!(
        refused.message(),
        "gpu surface import failed: browser frame has unusable dimensions 1920x0"
    );
}
