//! Getting a decoded VA-API surface out of the decoder as DMA-BUF planes.
use super::dmabuf::{DmaBufError, DmaBufSurface, DrmDescriptor};
use super::ffmpeg_hw::SignalledColor;
use super::{HwBackendKind, HwGiveUp};
use crate::text::joined;
use vstd::prelude::*;
use vstd::string::*;

verus! {

/// What mapping a decoded frame came to.
#[derive(Debug)]
pub enum Mapped<'a> {
    /// There was no frame to map it into.
    NotAllocated,
    /// The map was refused, for this reason.
    Refused(&'a str),
    /// A frame with this descriptor, if it carries one, of this size and in these colours.
    Frame {
        desc: Option<&'a DrmDescriptor>,
        width: i32,
        height: i32,
        color: SignalledColor,
    },
}

/// What a mapped frame is described as.
pub open spec fn described(
    desc: Option<&DrmDescriptor>,
    width: i32,
    height: i32,
    color: SignalledColor,
) -> Result<DmaBufSurface, DmaBufError> {
    match desc {
        None => Err(DmaBufError::NoDescriptor),
        Some(desc) => match desc.normalized() {
            Err(e) => Err(e),
            Ok(layout) => if width <= 0 || height <= 0 {
                Err(DmaBufError::BadGeometry)
            } else {
                Ok(
                    DmaBufSurface {
                        width: width as u32,
                        height: height as u32,
                        modifier: layout.modifier,
                        luma: layout.luma,
                        chroma: layout.chroma,
                        color,
                    },
                )
            },
        },
    }
}

/// Describe a decoded frame as DMA-BUF planes.
///
/// A failure is the transient case: one surface failing to export is a dropped frame, and
/// only a run of them is worth abandoning hardware over. The mapped frame is let go on
/// every failure and kept with the surface otherwise.
pub fn export(mapped: Mapped<'_>) -> (surface: Result<DmaBufSurface, HwGiveUp>)
    ensures
        match mapped {
            Mapped::NotAllocated => {
                &&& surface matches Err(HwGiveUp::ExportFailed(why))
                &&& why@ == "av_frame_alloc failed"@
            },
            Mapped::Refused(said) => {
                &&& surface matches Err(HwGiveUp::ExportFailed(why))
                &&& why@ == "av_hwframe_map to DRM_PRIME failed ("@ + said@ + ")"@
            },
            Mapped::Frame { desc, width, height, color } => match described(
                desc,
                width,
                height,
                color,
            ) {
                Ok(described) => surface == Ok::<DmaBufSurface, HwGiveUp>(described),
                Err(e) => {
                    &&& surface matches Err(HwGiveUp::ExportFailed(why))
                    &&& why@ == "vaapi"@ + ": "@ + e.text()
                },
            },
        },
{
    match mapped {
        Mapped::NotAllocated => Err(
            HwGiveUp::ExportFailed(String::from_str("av_frame_alloc failed")),
        ),
        Mapped::Refused(said) => {
            let mut why: String = joined("av_hwframe_map to DRM_PRIME failed (", said);
            why.append(")");
            Err(HwGiveUp::ExportFailed(why))
        },
        Mapped::Frame { desc, width, height, color } => match DmaBufSurface::from_drm_frame(
            desc,
            width,
            height,
            color,
        ) {
            Ok(surface) => Ok(surface),
            Err(e) => {
                let mut why: String = joined(HwBackendKind::Vaapi.slug(), ": ");
                why.append(e.message().as_str());
                Err(HwGiveUp::ExportFailed(why))
            },
        },
    }
}

/// Judge an attempt to open a backend's decode device by its result code, what that code
/// is called, and whether it gave a device.
pub fn check_device(kind: HwBackendKind, code: i32, said: &str, gave: bool) -> (checked: Result<
    (),
    HwGiveUp,
>)
    ensures
        match checked {
            Ok(_) => code >= 0 && gave,
            Err(HwGiveUp::DeviceUnavailable(why)) => {
                &&& code < 0 || !gave
                &&& why@ == kind.slug_text() + ": av_hwdevice_ctx_create failed ("@ + said@ + ")"@
            },
            Err(_) => false,
        },
{
    if code < 0 || !gave {
        let mut why: String = joined(kind.slug(), ": av_hwdevice_ctx_create failed (");
        why.append(said);
        why.append(")");
        return Err(HwGiveUp::DeviceUnavailable(why));
    }
    Ok(())
}

/// **A mapped frame is described as it is.** It is described exactly where it carries a
/// descriptor that is accepted and has a size; then its size and its colours are its own.
pub proof fn a_mapped_frame_is_described_as_it_is(
    desc: Option<&DrmDescriptor>,
    width: i32,
    height: i32,
    color: SignalledColor,
)
    ensures
        ({
            let surface = described(desc, width, height, color);
            &&& surface is Ok <==> desc is Some && (desc->0).normalized() is Ok && width > 0
                && height > 0
            &&& surface matches Ok(surface) ==> {
                let layout = (desc->0).normalized()->Ok_0;
                &&& surface.width == width && surface.height == height
                &&& surface.color == color
                &&& surface.luma == layout.luma && surface.chroma == layout.chroma
                &&& surface.modifier == layout.modifier
            }
            &&& desc is None ==> surface == Err::<DmaBufSurface, DmaBufError>(
                DmaBufError::NoDescriptor,
            )
        }),
{
}

/// **A frame without a size is refused for that**, where its descriptor was accepted; and one
/// whose descriptor was not is refused for what is wrong with it.
pub proof fn a_frame_without_a_size_is_refused_for_that(
    desc: &DrmDescriptor,
    width: i32,
    height: i32,
    color: SignalledColor,
)
    ensures
        desc.normalized() is Ok && (width <= 0 || height <= 0) ==> described(
            Some(desc),
            width,
            height,
            color,
        ) == Err::<DmaBufSurface, DmaBufError>(DmaBufError::BadGeometry),
        desc.normalized() matches Err(e) ==> described(Some(desc), width, height, color) == Err::<
            DmaBufSurface,
            DmaBufError,
        >(e),
{
}

} // verus!
