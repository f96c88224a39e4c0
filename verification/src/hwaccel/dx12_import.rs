//! Opening a shared texture on the compositor's Direct3D 12 device.
//!
//! A D3D12 device needs no special setup to accept a shared handle, and a shared handle
//! carries its own layout. What has to be checked is that the resource behind it really is
//! what the texture over it will claim: the claim is taken on trust from here on.
use super::vulkan_import::{adapter_refusal, check_adapter_for, Backend};
use super::{Extent, FrameGeometry, TextureFormat};
use crate::error::PipelineError;
use crate::text::{decimal, decimal_text, hex, hex_text, joined};
use vstd::prelude::*;
use vstd::string::*;

verus! {

/// `DXGI_FORMAT_R8G8B8A8_TYPELESS`.
pub const DXGI_R8G8B8A8_TYPELESS: u32 = 27;

/// `DXGI_FORMAT_R8G8B8A8_UNORM`.
pub const DXGI_R8G8B8A8_UNORM: u32 = 28;

/// `DXGI_FORMAT_R8G8B8A8_UNORM_SRGB`.
pub const DXGI_R8G8B8A8_UNORM_SRGB: u32 = 29;

/// `DXGI_FORMAT_B8G8R8A8_UNORM`.
pub const DXGI_B8G8R8A8_UNORM: u32 = 87;

/// `DXGI_FORMAT_B8G8R8A8_TYPELESS`.
pub const DXGI_B8G8R8A8_TYPELESS: u32 = 90;

/// `DXGI_FORMAT_B8G8R8A8_UNORM_SRGB`.
pub const DXGI_B8G8R8A8_UNORM_SRGB: u32 = 91;

/// `DXGI_FORMAT_NV12`.
pub const DXGI_NV12: u32 = 103;

/// Every DXGI format that a texture format may legitimately arrive as, or nothing for one
/// this path does not import.
///
/// A family rather than a single value: the typeless and sRGB members of an 8-bit family
/// differ only in how a *view* reads the same bits, and a producer picks whichever suits
/// it.
pub open spec fn family(format: TextureFormat) -> Seq<u32> {
    match format {
        TextureFormat::Nv12 => seq![DXGI_NV12],
        TextureFormat::Bgra8Unorm => seq![
            DXGI_B8G8R8A8_UNORM,
            DXGI_B8G8R8A8_UNORM_SRGB,
            DXGI_B8G8R8A8_TYPELESS,
        ],
        TextureFormat::Bgra8UnormSrgb => seq![
            DXGI_B8G8R8A8_UNORM,
            DXGI_B8G8R8A8_UNORM_SRGB,
            DXGI_B8G8R8A8_TYPELESS,
        ],
        TextureFormat::Rgba8Unorm => seq![
            DXGI_R8G8B8A8_UNORM,
            DXGI_R8G8B8A8_UNORM_SRGB,
            DXGI_R8G8B8A8_TYPELESS,
        ],
        TextureFormat::Rgba8UnormSrgb => seq![
            DXGI_R8G8B8A8_UNORM,
            DXGI_R8G8B8A8_UNORM_SRGB,
            DXGI_R8G8B8A8_TYPELESS,
        ],
        TextureFormat::Other(_) => Seq::empty(),
    }
}

/// Every DXGI format that a texture format may legitimately arrive as.
pub fn dxgi_formats(format: &TextureFormat) -> (formats: Vec<u32>)
    ensures
        formats@ == family(*format),
{
    let mut formats: Vec<u32> = Vec::new();
    match format {
        TextureFormat::Nv12 => {
            formats.push(DXGI_NV12);
        },
        TextureFormat::Bgra8Unorm | TextureFormat::Bgra8UnormSrgb => {
            formats.push(DXGI_B8G8R8A8_UNORM);
            formats.push(DXGI_B8G8R8A8_UNORM_SRGB);
            formats.push(DXGI_B8G8R8A8_TYPELESS);
        },
        TextureFormat::Rgba8Unorm | TextureFormat::Rgba8UnormSrgb => {
            formats.push(DXGI_R8G8B8A8_UNORM);
            formats.push(DXGI_R8G8B8A8_UNORM_SRGB);
            formats.push(DXGI_R8G8B8A8_TYPELESS);
        },
        TextureFormat::Other(_) => {},
    }
    assert(formats@ =~= family(*format));
    formats
}

/// What a shared resource says it is.
#[derive(Debug, Clone, Copy, PartialEq, Eq, Structural)]
pub struct ResourceDesc {
    /// Width in pixels.
    pub width: u64,
    /// Height in pixels.
    pub height: u32,
    /// DXGI format.
    pub format: u32,
}

/// What is wrong with taking a resource for a texture of this size and format: its size
/// first, then its format, where the format is one this path checks.
pub open spec fn mismatch(desc: ResourceDesc, claimed: Extent, format: TextureFormat) -> Option<
    Seq<char>,
> {
    if desc.width != claimed.width || desc.height != claimed.height {
        Some(
            "shared resource is "@ + decimal_text(desc.width as nat) + "×"@ + decimal_text(
                desc.height as nat,
            ) + " but was imported as "@ + decimal_text(claimed.width as nat) + "×"@
                + decimal_text(claimed.height as nat),
        )
    } else if family(format).len() > 0 && !family(format).contains(desc.format) {
        Some(
            "shared resource is DXGI format "@ + decimal_text(desc.format as nat)
                + " but was imported as "@ + format.label(),
        )
    } else {
        None
    }
}

/// Check that a resource really is the size and format it is about to be taken for.
///
/// This is the only place where the *real* dimensions are knowable: everything downstream
/// reports the claim back. A mismatch is a mis-import, not a rendering artefact to live
/// with.
pub fn check_extent(desc: ResourceDesc, claimed: Extent, format: &TextureFormat) -> (checked:
    Result<(), PipelineError>)
    ensures
        match checked {
            Ok(_) => mismatch(desc, claimed, *format) is None,
            Err(PipelineError::GpuImport(why)) => mismatch(desc, claimed, *format) == Some(why@),
            Err(_) => false,
        },
{
    if desc.width != claimed.width as u64 || desc.height != claimed.height {
        let mut why: String = String::from_str("shared resource is ");
        why.append(decimal(desc.width).as_str());
        why.append("×");
        why.append(decimal(desc.height as u64).as_str());
        why.append(" but was imported as ");
        why.append(decimal(claimed.width as u64).as_str());
        why.append("×");
        why.append(decimal(claimed.height as u64).as_str());
        return Err(PipelineError::GpuImport(why));
    }
    let accepted: Vec<u32> = dxgi_formats(format);
    let mut i: usize = 0;
    while i < accepted.len()
        invariant
            i <= accepted@.len(),
            accepted@ == family(*format),
            desc.width == claimed.width && desc.height == claimed.height,
            forall|j: int| 0 <= j < i ==> (#[trigger] accepted@[j]) != desc.format,
        decreases accepted@.len() - i,
    {
        if accepted[i] == desc.format {
            proof {
                assert(family(*format).contains(accepted@[i as int]));
            }
            return Ok(());
        }
        i += 1;
    }
    if accepted.len() == 0 {
        return Ok(());
    }
    let mut why: String = String::from_str("shared resource is DXGI format ");
    why.append(decimal(desc.format as u64).as_str());
    why.append(" but was imported as ");
    why.append(format.name());
    Err(PipelineError::GpuImport(why))
}

/// Imports shared textures into the compositor's D3D12 device.
///
/// Stateless: a handle is minted for one frame and identifies that frame's texture and
/// nothing else, so nothing keyed on its value may outlive the frame.
#[derive(Debug, Clone, Copy, PartialEq, Eq, Structural)]
pub struct Dx12Importer;

impl Dx12Importer {
    /// Decide whether a device can be opened on this adapter that samples NV12.
    pub fn open_device(backend: Backend, nv12: bool) -> (importer: Result<
        Dx12Importer,
        PipelineError,
    >)
        ensures
            ({
                let refusal = adapter_refusal(
                    backend,
                    nv12,
                    Backend::Dx12,
                    "shared-texture import needs the DX12 backend, this adapter is "@,
                );
                match importer {
                    Ok(_) => refusal is None,
                    Err(PipelineError::GpuInit(why)) => refusal == Some(why@),
                    Err(_) => false,
                }
            }),
    {
        match check_adapter_for(
            backend,
            nv12,
            Backend::Dx12,
            "shared-texture import needs the DX12 backend, this adapter is ",
        ) {
            Ok(()) => Ok(Dx12Importer),
            Err(e) => Err(e),
        }
    }

    /// Check the resource behind one decoded surface, and give the size of its texture.
    /// `None` stands for a surface that is not a shared texture.
    pub fn import(surface: Option<(u32, u32)>, desc: ResourceDesc) -> (size: Result<
        Extent,
        PipelineError,
    >)
        ensures
            match size {
                Ok(size) => {
                    &&& surface matches Some((width, height))
                    &&& size == (Extent { width, height, depth_or_array_layers: 1 })
                    &&& mismatch(desc, size, TextureFormat::Nv12) is None
                },
                Err(PipelineError::GpuImport(why)) => match surface {
                    None => why@ == "surface is not a D3D11 shared texture"@,
                    Some((width, height)) => mismatch(
                        desc,
                        Extent { width, height, depth_or_array_layers: 1 },
                        TextureFormat::Nv12,
                    ) == Some(why@),
                },
                Err(_) => false,
            },
    {
        match surface {
            None => Err(
                PipelineError::GpuImport(
                    String::from_str("surface is not a D3D11 shared texture"),
                ),
            ),
            Some((width, height)) => {
                let size: Extent = Extent { width, height, depth_or_array_layers: 1 };
                match check_extent(desc, size, &TextureFormat::Nv12) {
                    Ok(()) => Ok(size),
                    Err(e) => Err(e),
                }
            },
        }
    }

    /// Check the resource behind a browser's frame that has been opened, and give the size
    /// of its texture.
    pub fn import_single_plane(geometry: FrameGeometry, desc: ResourceDesc) -> (size: Result<
        Extent,
        PipelineError,
    >)
        ensures
            ({
                let claimed = Extent {
                    width: geometry.width,
                    height: geometry.height,
                    depth_or_array_layers: 1,
                };
                match size {
                    Ok(size) => {
                        &&& geometry.refusal() is None
                        &&& size == claimed
                        &&& mismatch(desc, claimed, geometry.format) is None
                    },
                    Err(PipelineError::GpuImport(why)) => if geometry.refusal() is Some {
                        geometry.refusal() == Some(why@)
                    } else {
                        mismatch(desc, claimed, geometry.format) == Some(why@)
                    },
                    Err(_) => false,
                }
            }),
    {
        let geometry: FrameGeometry = match geometry.validate() {
            Ok(geometry) => geometry,
            Err(e) => {
                return Err(e);
            },
        };
        let size: Extent = geometry.extent();
        match check_extent(desc, size, &geometry.format) {
            Ok(()) => Ok(size),
            Err(e) => Err(e),
        }
    }
}

/// Judge an attempt to open a shared handle: `None` stands for a device that is not D3D12
/// at all, and the rest is the call's result code and whether it gave a resource.
pub fn check_open_shared(attempt: Option<(i32, bool)>) -> (checked: Result<(), PipelineError>)
    ensures
        match checked {
            Ok(_) => attempt == Some((0i32, true)),
            Err(PipelineError::GpuImport(why)) => match attempt {
                None => why@ == "device has no DX12 backend"@,
                Some((code, gave)) => {
                    &&& code != 0 || !gave
                    &&& why@ == "OpenSharedHandle failed (0x"@ + hex_text(
                        (code as u32) as nat,
                        8,
                    ) + ")"@
                },
            },
            Err(_) => false,
        },
{
    match attempt {
        None => Err(PipelineError::GpuImport(String::from_str("device has no DX12 backend"))),
        Some((code, gave)) => if code != 0 || !gave {
            let mut why: String = joined("OpenSharedHandle failed (0x", hex(code as u32, 8).as_str());
            why.append(")");
            Err(PipelineError::GpuImport(why))
        } else {
            Ok(())
        },
    }
}

/// **A texture never claims what its resource is not.** Whatever passes the check is of the
/// claimed size, and of a format in the claimed family where the family is known.
pub proof fn an_accepted_claim_is_true(desc: ResourceDesc, claimed: Extent, format: TextureFormat)
    requires
        mismatch(desc, claimed, format) is None,
    ensures
        desc.width == claimed.width,
        desc.height == claimed.height,
        !(format is Other) ==> family(format).contains(desc.format),
{
}

/// **Nothing true is refused.** A resource of the claimed size is taken for any format of its
/// family, and for one that has no family here; one of another size never is.
pub proof fn nothing_true_is_refused(desc: ResourceDesc, claimed: Extent, format: TextureFormat)
    ensures
        mismatch(desc, claimed, format) is None <==> desc.width == claimed.width && desc.height
            == claimed.height && (format is Other || family(format).contains(desc.format)),
{
    if !(format is Other) {
        assert(family(format).len() > 0);
    }
}

/// **A family is one order of colours.** A resource that may arrive as one of the two ways to
/// read an order may arrive as the other, and no resource is of two orders.
pub proof fn a_family_is_one_order(dxgi: u32)
    ensures
        family(TextureFormat::Bgra8Unorm) == family(TextureFormat::Bgra8UnormSrgb),
        family(TextureFormat::Rgba8Unorm) == family(TextureFormat::Rgba8UnormSrgb),
        family(TextureFormat::Bgra8Unorm).contains(dxgi) <==> dxgi == 87 || dxgi == 90 || dxgi
            == 91,
        family(TextureFormat::Rgba8Unorm).contains(dxgi) <==> 27 <= dxgi <= 29,
        family(TextureFormat::Nv12).contains(dxgi) <==> dxgi == 103,
{
    let bgra = family(TextureFormat::Bgra8Unorm);
    let rgba = family(TextureFormat::Rgba8Unorm);
    let nv12 = family(TextureFormat::Nv12);
    assert(bgra[0] == 87 && bgra[1] == 91 && bgra[2] == 90);
    assert(rgba[0] == 28 && rgba[1] == 29 && rgba[2] == 27);
    assert(nv12[0] == 103);
}

/// **A shared handle is open only where the call succeeded and gave a resource.**
pub proof fn a_shared_handle_is_open_where_it_gave(
    attempt: Option<(i32, bool)>,
    checked: Result<(), PipelineError>,
)
    requires
        call_ensures(check_open_shared, (attempt,), checked),
    ensures
        checked is Ok <==> (attempt matches Some((code, gave)) && code == 0 && gave),
        checked matches Err(e) ==> e is GpuImport,
{
}

} // verus!
