//! One name for "turn this decoded hardware frame into a portable GPU surface", so that a
//! decode loop does not tell platforms apart.
use super::d3d11va::{context_refusal, ContextParts, D3d11Exporter, PoolState};
use super::{Build, HwGiveUp, Platform};
use vstd::prelude::*;

verus! {

/// Exports decoded hardware frames as surfaces the compositor can import.
///
/// Linux keeps nothing between frames; Windows owns a ring of shareable textures.
#[derive(Debug)]
pub enum SurfaceExporter {
    /// Map each frame straight off the decoder.
    Vaapi,
    /// Copy each frame into a texture of the ring.
    D3d11Va(D3d11Exporter),
}

impl SurfaceExporter {
    /// Build the exporter for an open hardware device, given what the device context turned
    /// out to hold.
    pub fn new(build: Build, parts: ContextParts) -> (exporter: Result<SurfaceExporter, HwGiveUp>)
        ensures
            match build.platform {
                Platform::Unix => exporter == Ok::<SurfaceExporter, HwGiveUp>(
                    SurfaceExporter::Vaapi,
                ),
                Platform::Windows => match exporter {
                    Ok(SurfaceExporter::D3d11Va(ring)) => {
                        &&& context_refusal(parts) is None
                        &&& ring.well_formed()
                        &&& ring@ == (PoolState { size: (0, 0), len: 0 })
                    },
                    Ok(SurfaceExporter::Vaapi) => false,
                    Err(HwGiveUp::DeviceUnavailable(why)) => context_refusal(parts) == Some(why@),
                    Err(_) => false,
                },
                Platform::Other => exporter == Err::<SurfaceExporter, HwGiveUp>(
                    HwGiveUp::NotCompiled,
                ),
            },
    {
        match build.platform {
            Platform::Unix => Ok(SurfaceExporter::Vaapi),
            Platform::Windows => match D3d11Exporter::new(parts) {
                Ok(ring) => Ok(SurfaceExporter::D3d11Va(ring)),
                Err(reason) => Err(reason),
            },
            Platform::Other => Err(HwGiveUp::NotCompiled),
        }
    }
}

} // verus!
