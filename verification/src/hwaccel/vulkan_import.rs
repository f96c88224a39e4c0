//! DMA-BUF to image to texture, without a copy: what the device is opened with, how the
//! image is described, which memory it is bound to, and in what order.
//!
//! The image has to describe the driver's tiling. A decoded surface is not linear; it
//! carries a DRM format modifier, and handing that over wrong makes an import that
//! *succeeds* and shows a plausible-looking scrambled picture.
use super::dmabuf::{DmaBufSurface, PlaneLayout};
use super::{Extent, FrameGeometry, TextureFormat};
use crate::error::PipelineError;
use crate::text::{joined, same};
use vstd::prelude::*;
use vstd::string::*;

verus! {

/// The graphics API behind an adapter.
#[derive(Debug, Clone, Copy, PartialEq, Eq, Structural)]
pub enum Backend {
    /// None: a stand-in adapter.
    Empty,
    /// Vulkan.
    Vulkan,
    /// Metal.
    Metal,
    /// Direct3D 12.
    Dx12,
    /// OpenGL.
    Gl,
    /// WebGPU in a browser.
    BrowserWebGpu,
}

impl Backend {
    /// What the API is called in a log line.
    pub open spec fn label(self) -> Seq<char> {
        match self {
            Backend::Empty => "Empty"@,
            Backend::Vulkan => "Vulkan"@,
            Backend::Metal => "Metal"@,
            Backend::Dx12 => "Dx12"@,
            Backend::Gl => "Gl"@,
            Backend::BrowserWebGpu => "BrowserWebGpu"@,
        }
    }

    /// What the API is called in a log line.
    pub fn name(self) -> (name: &'static str)
        ensures
            name@ == self.label(),
    {
        match self {
            Backend::Empty => "Empty",
            Backend::Vulkan => "Vulkan",
            Backend::Metal => "Metal",
            Backend::Dx12 => "Dx12",
            Backend::Gl => "Gl",
            Backend::BrowserWebGpu => "BrowserWebGpu",
        }
    }
}

/// What keeps an adapter from taking surfaces through an import that needs `needed`: the
/// API first, then the format that the sampling half cannot do without.
pub open spec fn adapter_refusal(
    backend: Backend,
    nv12: bool,
    needed: Backend,
    intro: Seq<char>,
) -> Option<Seq<char>> {
    if backend != needed {
        Some(intro + backend.label())
    } else if !nv12 {
        Some("adapter does not support TEXTURE_FORMAT_NV12"@)
    } else {
        None
    }
}

/// Check that an adapter can open a device for an import that needs `needed`.
pub(crate) fn check_adapter_for(
    backend: Backend,
    nv12: bool,
    needed: Backend,
    intro: &str,
) -> (checked: Result<(), PipelineError>)
    ensures
        match checked {
            Ok(_) => adapter_refusal(backend, nv12, needed, intro@) is None,
            Err(PipelineError::GpuInit(why)) => adapter_refusal(backend, nv12, needed, intro@)
                == Some(why@),
            Err(_) => false,
        },
{
    if backend != needed {
        return Err(PipelineError::GpuInit(joined(intro, backend.name())));
    }
    if !nv12 {
        return Err(
            PipelineError::GpuInit(
                String::from_str("adapter does not support TEXTURE_FORMAT_NV12"),
            ),
        );
    }
    Ok(())
}

/// The interop extensions layered on top of what the graphics library asks for itself.
///
/// The last is not optional decoration: an image with a DRM modifier needs it whenever
/// per-plane views of it are taken.
pub open spec fn interop_names() -> Seq<Seq<char>> {
    seq![
        "VK_KHR_external_memory_fd"@,
        "VK_EXT_external_memory_dma_buf"@,
        "VK_EXT_image_drm_format_modifier"@,
        "VK_KHR_image_format_list"@,
    ]
}

/// The text of each string in a list.
pub open spec fn texts(names: Seq<String>) -> Seq<Seq<char>> {
    names.map_values(|name: String| name@)
}

/// The interop extensions.
pub fn interop_extensions() -> (names: Vec<String>)
    ensures
        texts(names@) == interop_names(),
{
    let mut names: Vec<String> = Vec::new();
    names.push(String::from_str("VK_KHR_external_memory_fd"));
    names.push(String::from_str("VK_EXT_external_memory_dma_buf"));
    names.push(String::from_str("VK_EXT_image_drm_format_modifier"));
    names.push(String::from_str("VK_KHR_image_format_list"));
    assert(texts(names@) =~= interop_names());
    names
}

/// What a device is opened with: what was required already, and behind it the first `n`
/// interop extensions that were not among it — or the name of the first one of those that
/// the driver lacks.
pub open spec fn enabled_upto(
    required: Seq<Seq<char>>,
    available: Seq<Seq<char>>,
    n: nat,
) -> Result<Seq<Seq<char>>, Seq<char>>
    decreases n,
{
    if n == 0 {
        Ok(required)
    } else {
        let name = interop_names()[n - 1];
        match enabled_upto(required, available, (n - 1) as nat) {
            Err(missing) => Err(missing),
            Ok(enabled) => if !available.contains(name) {
                Err(name)
            } else if enabled.contains(name) {
                Ok(enabled)
            } else {
                Ok(enabled.push(name))
            },
        }
    }
}

/// What a device is opened with, or the interop extension the driver lacks.
pub open spec fn enabled(required: Seq<Seq<char>>, available: Seq<Seq<char>>) -> Result<
    Seq<Seq<char>>,
    Seq<char>,
> {
    enabled_upto(required, available, 4)
}

/// Whether a list of names holds one.
fn contains(names: &Vec<String>, name: &str) -> (found: bool)
    ensures
        found == texts(names@).contains(name@),
{
    let mut i: usize = 0;
    while i < names.len()
        invariant
            i <= names@.len(),
            forall|j: int| 0 <= j < i ==> (#[trigger] texts(names@)[j]) != name@,
        decreases names@.len() - i,
    {
        if same(names[i].as_str(), name) {
            proof {
                assert(texts(names@)[i as int] == name@);
            }
            return true;
        }
        i += 1;
    }
    false
}

/// The extensions to open the device with.
///
/// What the graphics library requires comes first and stays as it is; each interop
/// extension follows unless it is there already, and a driver that lacks one cannot import
/// at all.
fn device_extensions(required: Vec<String>, available: &Vec<String>) -> (names: Result<
    Vec<String>,
    PipelineError,
>)
    ensures
        match names {
            Ok(names) => enabled(texts(required@), texts(available@)) == Ok::<
                Seq<Seq<char>>,
                Seq<char>,
            >(texts(names@)),
            Err(PipelineError::GpuInit(why)) => {
                &&& enabled(texts(required@), texts(available@)) matches Err(missing)
                &&& why@ == "driver lacks "@ + missing + ", which DMA-BUF import needs"@
            },
            Err(_) => false,
        },
{
    let ghost first = texts(required@);
    let mut names: Vec<String> = required;
    let interop: Vec<String> = interop_extensions();
    let mut i: usize = 0;
    assert(interop@.len() == texts(interop@).len());
    while i < interop.len()
        invariant
            i <= interop@.len(),
            interop@.len() == 4,
            first == texts(required@),
            texts(interop@) == interop_names(),
            enabled_upto(first, texts(available@), i as nat) == Ok::<Seq<Seq<char>>, Seq<char>>(
                texts(names@),
            ),
        decreases interop@.len() - i,
    {
        let name: &String = &interop[i];
        proof {
            assert(texts(interop@)[i as int] == name@);
        }
        if !contains(available, name.as_str()) {
            proof {
                assert(enabled_upto(first, texts(available@), (i + 1) as nat) == Err::<
                    Seq<Seq<char>>,
                    Seq<char>,
                >(name@));
                a_missing_extension_is_final(
                    first,
                    texts(available@),
                    (i + 1) as nat,
                    4,
                    name@,
                );
            }
            let mut why: String = joined("driver lacks ", name.as_str());
            why.append(", which DMA-BUF import needs");
            return Err(PipelineError::GpuInit(why));
        }
        if !contains(&names, name.as_str()) {
            let ghost before = names@;
            names.push(name.clone());
            proof {
                assert(texts(names@) =~= texts(before).push(name@));
            }
        }
        i += 1;
    }
    Ok(names)
}

proof fn a_missing_extension_is_final(
    required: Seq<Seq<char>>,
    available: Seq<Seq<char>>,
    n: nat,
    m: nat,
    missing: Seq<char>,
)
    requires
        n <= m,
        enabled_upto(required, available, n) == Err::<Seq<Seq<char>>, Seq<char>>(missing),
    ensures
        enabled_upto(required, available, m) == Err::<Seq<Seq<char>>, Seq<char>>(missing),
    decreases m - n,
{
    if n < m {
        a_missing_extension_is_final(required, available, n, (m - 1) as nat, missing);
    }
}

/// The pixel layout of an image.
#[derive(Debug, Clone, Copy, PartialEq, Eq, Structural)]
pub enum ImageFormat {
    /// Blue, green, red, alpha.
    Bgra8Unorm,
    /// Blue, green, red, alpha through the sRGB curve.
    Bgra8Srgb,
    /// Red, green, blue, alpha.
    Rgba8Unorm,
    /// Red, green, blue, alpha through the sRGB curve.
    Rgba8Srgb,
    /// A luma plane and an interleaved chroma plane of half the size.
    Nv12,
    /// One channel: a view of the luma plane.
    R8,
    /// Two channels: a view of the chroma plane.
    Rg8,
}

/// Where one plane of an image starts and how wide its rows are. What else a layout could
/// say is zero for an image with a DRM modifier.
#[derive(Debug, Clone, Copy, PartialEq, Eq, Structural)]
pub struct SubresourceLayout {
    /// Where the plane starts.
    pub offset: u64,
    /// Bytes per row.
    pub row_pitch: u64,
}

/// How an image is to be created: two-dimensional, one mip, one layer, one sample, tiled
/// by its modifier, sampled only, and with no layout to begin with.
#[derive(Debug, Clone)]
pub struct ImagePlan {
    /// The pixel layout.
    pub format: ImageFormat,
    /// Width in pixels.
    pub width: u32,
    /// Height in pixels.
    pub height: u32,
    /// The tiling that every plane shares.
    pub modifier: u64,
    /// One layout per plane.
    pub planes: Vec<SubresourceLayout>,
    /// The formats that views of it may be in; empty where it is viewed only as itself.
    pub view_formats: Vec<ImageFormat>,
    /// Whether views of it may be in another format.
    pub mutable_format: bool,
    /// Whether other images may lie on the same memory.
    pub alias: bool,
    /// Whether its planes are bound to separate memories.
    pub disjoint: bool,
}

/// A plane's layout as an image describes it.
pub open spec fn layout_of(plane: PlaneLayout) -> SubresourceLayout {
    SubresourceLayout { offset: plane.offset, row_pitch: plane.pitch }
}

/// Plan the image for a decoded surface: both planes, and views of each on its own.
fn plan_image(surface: &DmaBufSurface) -> (plan: ImagePlan)
    ensures
        plan.format == ImageFormat::Nv12,
        plan.width == surface.width,
        plan.height == surface.height,
        plan.modifier == surface.modifier,
        plan.planes@ == seq![layout_of(surface.luma), layout_of(surface.chroma)],
        plan.view_formats@ == seq![ImageFormat::Nv12, ImageFormat::R8, ImageFormat::Rg8],
        plan.mutable_format,
        plan.alias,
        plan.disjoint == surface.is_disjoint(),
{
    let mut planes: Vec<SubresourceLayout> = Vec::new();
    planes.push(
        SubresourceLayout { offset: surface.luma.offset, row_pitch: surface.luma.pitch },
    );
    planes.push(
        SubresourceLayout { offset: surface.chroma.offset, row_pitch: surface.chroma.pitch },
    );
    let mut view_formats: Vec<ImageFormat> = Vec::new();
    view_formats.push(ImageFormat::Nv12);
    view_formats.push(ImageFormat::R8);
    view_formats.push(ImageFormat::Rg8);
    assert(planes@ =~= seq![layout_of(surface.luma), layout_of(surface.chroma)]);
    assert(view_formats@ =~= seq![ImageFormat::Nv12, ImageFormat::R8, ImageFormat::Rg8]);
    ImagePlan {
        format: ImageFormat::Nv12,
        width: surface.width,
        height: surface.height,
        modifier: surface.modifier,
        planes,
        view_formats,
        mutable_format: true,
        alias: true,
        disjoint: surface.luma.fd != surface.chroma.fd,
    }
}

/// The image format of a frame that a single-plane import takes.
pub open spec fn single_plane_image(format: TextureFormat) -> ImageFormat {
    match format {
        TextureFormat::Bgra8Unorm => ImageFormat::Bgra8Unorm,
        TextureFormat::Bgra8UnormSrgb => ImageFormat::Bgra8Srgb,
        TextureFormat::Rgba8UnormSrgb => ImageFormat::Rgba8Srgb,
        _ => ImageFormat::Rgba8Unorm,
    }
}

/// The image for a browser's frame: one plane, viewed only as itself.
fn plan_single_plane(geometry: &FrameGeometry, modifier: u64, plane: PlaneLayout) -> (plan:
    ImagePlan)
    ensures
        plan.format == single_plane_image(geometry.format),
        plan.width == geometry.width,
        plan.height == geometry.height,
        plan.modifier == modifier,
        plan.planes@ == seq![layout_of(plane)],
        plan.view_formats@ == Seq::<ImageFormat>::empty(),
        !plan.mutable_format,
        !plan.alias,
        !plan.disjoint,
{
    let format: ImageFormat = match &geometry.format {
        TextureFormat::Bgra8Unorm => ImageFormat::Bgra8Unorm,
        TextureFormat::Bgra8UnormSrgb => ImageFormat::Bgra8Srgb,
        TextureFormat::Rgba8UnormSrgb => ImageFormat::Rgba8Srgb,
        _ => ImageFormat::Rgba8Unorm,
    };
    let mut planes: Vec<SubresourceLayout> = Vec::new();
    planes.push(SubresourceLayout { offset: plane.offset, row_pitch: plane.pitch });
    assert(planes@ =~= seq![layout_of(plane)]);
    ImagePlan {
        format,
        width: geometry.width,
        height: geometry.height,
        modifier,
        planes,
        view_formats: Vec::new(),
        mutable_format: false,
        alias: false,
        disjoint: false,
    }
}

/// The descriptors to duplicate for an import of a decoded surface: one where both planes
/// share a buffer, two where they do not. An import takes ownership of what it is given,
/// and the surface's own belong to the frame it holds.
fn fds_to_duplicate(surface: &DmaBufSurface) -> (fds: Vec<i32>)
    ensures
        fds@ == if surface.is_disjoint() {
            seq![surface.luma.fd, surface.chroma.fd]
        } else {
            seq![surface.luma.fd]
        },
{
    let mut fds: Vec<i32> = Vec::new();
    fds.push(surface.luma.fd);
    if surface.luma.fd != surface.chroma.fd {
        fds.push(surface.chroma.fd);
    }
    assert(fds@ =~= if surface.is_disjoint() {
        seq![surface.luma.fd, surface.chroma.fd]
    } else {
        seq![surface.luma.fd]
    });
    fds
}

/// How a texture over an imported image is described: two-dimensional, one mip, one
/// sample, for binding only.
#[derive(Debug, Clone)]
pub struct TexturePlan {
    /// What it is called in a capture.
    pub label: &'static str,
    /// Its size.
    pub size: Extent,
    /// Its pixel layout.
    pub format: TextureFormat,
}

/// The texture over a decoded surface.
fn decoded_texture(surface: &DmaBufSurface) -> (plan: TexturePlan)
    ensures
        plan.label@ == "imported-nv12"@,
        plan.size == (Extent {
            width: surface.width,
            height: surface.height,
            depth_or_array_layers: 1,
        }),
        plan.format == TextureFormat::Nv12,
{
    TexturePlan {
        label: "imported-nv12",
        size: Extent { width: surface.width, height: surface.height, depth_or_array_layers: 1 },
        format: TextureFormat::Nv12,
    }
}

/// The texture over a browser's frame.
fn browser_texture(geometry: FrameGeometry) -> (plan: TexturePlan)
    ensures
        plan.label@ == "imported-browser-frame"@,
        plan.size == (Extent {
            width: geometry.width,
            height: geometry.height,
            depth_or_array_layers: 1,
        }),
        plan.format == geometry.format,
{
    let size: Extent = geometry.extent();
    TexturePlan { label: "imported-browser-frame", size, format: geometry.format }
}

/// Whether a memory type is among those allowed.
pub open spec fn allows(allowed: u32, i: int) -> bool {
    (allowed >> (i as u32)) & 1 == 1
}

/// Whether `pick` is the memory type to use: the first allowed one that is local to the
/// device, else the first allowed one, else none.
pub open spec fn is_pick(local: Seq<bool>, allowed: u32, pick: Option<u32>) -> bool {
    match pick {
        Some(pick) => {
            &&& (pick as int) < local.len()
            &&& allows(allowed, pick as int)
            &&& local[pick as int] ==> forall|j: int|
                0 <= j < pick ==> !(#[trigger] allows(allowed, j) && local[j])
            &&& !local[pick as int] ==> {
                &&& forall|j: int| 0 <= j < pick ==> !#[trigger] allows(allowed, j)
                &&& forall|j: int|
                    0 <= j < local.len() ==> !(#[trigger] allows(allowed, j) && local[j])
            }
        },
        None => forall|j: int| 0 <= j < local.len() ==> !#[trigger] allows(allowed, j),
    }
}

/// Prefer device-local memory among the types allowed, else the first allowed one.
///
/// `local` says of each of the device's memory types whether it is local; there are at
/// most as many types as bits to allow them with.
fn pick_memory_type(local: &Vec<bool>, allowed: u32) -> (pick: Option<u32>)
    requires
        local@.len() <= 32,
    ensures
        is_pick(local@, allowed, pick),
{
    let count: u32 = local.len() as u32;
    let mut first: Option<u32> = None;
    let mut i: u32 = 0;
    while i < count
        invariant
            i <= count,
            count == local@.len(),
            count <= 32,
            forall|j: int| 0 <= j < i ==> !(#[trigger] allows(allowed, j) && local@[j]),
            match first {
                Some(first) => {
                    &&& first < i
                    &&& allows(allowed, first as int)
                    &&& forall|j: int| 0 <= j < first ==> !#[trigger] allows(allowed, j)
                },
                None => forall|j: int| 0 <= j < i ==> !#[trigger] allows(allowed, j),
            },
        decreases count - i,
    {
        let allowed_here: bool = (allowed >> i) & 1 == 1;
        assert(allowed_here == allows(allowed, i as int));
        if allowed_here {
            if local[i as usize] {
                return Some(i);
            }
            if first.is_none() {
                first = Some(i);
            }
        }
        i += 1;
    }
    first
}

/// The memory to import one DMA-BUF as.
#[derive(Debug, Clone, Copy, PartialEq, Eq, Structural)]
pub struct MemoryPlan {
    /// The memory type.
    pub type_index: u32,
    /// How many bytes.
    pub size: u64,
}

/// What importing a surface takes: the image to create, the descriptors to duplicate for
/// it, and the texture over it.
#[derive(Debug, Clone)]
pub struct ImportPlan {
    /// The image to create.
    pub image: ImagePlan,
    /// The descriptors to duplicate.
    pub fds: Vec<i32>,
    /// The texture over the image.
    pub texture: TexturePlan,
}

/// Imports decoded surfaces into the compositor's Vulkan device.
#[derive(Debug)]
pub struct VulkanImporter {
    local: Vec<bool>,
}

impl VulkanImporter {
    /// Of each of the device's memory types, whether it is local to the device.
    pub closed spec fn local(self) -> Seq<bool> {
        self.local@
    }

    /// There are at most as many memory types as bits to allow them with.
    pub open spec fn well_formed(self) -> bool {
        self.local().len() <= 32
    }

    /// Decide what to open a device with that can import DMA-BUFs.
    ///
    /// Refused where the adapter is not Vulkan, lacks NV12, or its driver lacks one of the
    /// interop extensions. Every one of these is a "decode in software instead" answer.
    pub fn open_device(
        backend: Backend,
        nv12: bool,
        required: Vec<String>,
        available: &Vec<String>,
    ) -> (extensions: Result<Vec<String>, PipelineError>)
        ensures
            ({
                let refusal = adapter_refusal(
                    backend,
                    nv12,
                    Backend::Vulkan,
                    "DMA-BUF import needs the Vulkan backend, this adapter is "@,
                );
                let names = enabled(texts(required@), texts(available@));
                match extensions {
                    Ok(extensions) => refusal is None && names == Ok::<Seq<Seq<char>>, Seq<char>>(
                        texts(extensions@),
                    ),
                    Err(PipelineError::GpuInit(why)) => if refusal is Some {
                        refusal == Some(why@)
                    } else {
                        &&& names matches Err(missing)
                        &&& why@ == "driver lacks "@ + missing + ", which DMA-BUF import needs"@
                    },
                    Err(_) => false,
                }
            }),
    {
        match check_adapter_for(
            backend,
            nv12,
            Backend::Vulkan,
            "DMA-BUF import needs the Vulkan backend, this adapter is ",
        ) {
            Err(e) => Err(e),
            Ok(()) => device_extensions(required, available),
        }
    }

    /// An importer for a device with these memory types.
    pub fn new(local: Vec<bool>) -> (importer: VulkanImporter)
        ensures
            importer.local() == local@,
    {
        VulkanImporter { local }
    }

    /// Decide how to import one decoded surface. `None` stands for a surface that is not
    /// described as DMA-BUF planes.
    pub fn import(surface: Option<&DmaBufSurface>) -> (plan: Result<ImportPlan, PipelineError>)
        ensures
            match plan {
                Ok(plan) => {
                    &&& surface is Some
                    &&& is_decoded_plan(*(surface->0), plan)
                },
                Err(PipelineError::GpuImport(why)) => {
                    &&& surface is None
                    &&& why@ == "surface is not a DMA-BUF surface"@
                },
                Err(_) => false,
            },
    {
        match surface {
            Some(surface) => Ok(
                ImportPlan {
                    image: plan_image(surface),
                    fds: fds_to_duplicate(surface),
                    texture: decoded_texture(surface),
                },
            ),
            None => Err(
                PipelineError::GpuImport(String::from_str("surface is not a DMA-BUF surface")),
            ),
        }
    }

    /// Decide how to import a browser's frame: one plane of pixels as they are sampled.
    pub fn import_single_plane(geometry: FrameGeometry, modifier: u64, plane: PlaneLayout) -> (plan:
        Result<ImportPlan, PipelineError>)
        ensures
            match plan {
                Ok(plan) => {
                    &&& geometry.refusal() is None
                    &&& plan.image.format == single_plane_image(geometry.format)
                    &&& plan.image.width == geometry.width
                    &&& plan.image.height == geometry.height
                    &&& plan.image.modifier == modifier
                    &&& plan.image.planes@ == seq![layout_of(plane)]
                    &&& plan.image.view_formats@ == Seq::<ImageFormat>::empty()
                    &&& !plan.image.mutable_format && !plan.image.alias && !plan.image.disjoint
                    &&& plan.fds@ == seq![plane.fd]
                    &&& plan.texture.label@ == "imported-browser-frame"@
                    &&& plan.texture.size == (Extent {
                        width: geometry.width,
                        height: geometry.height,
                        depth_or_array_layers: 1,
                    })
                    &&& plan.texture.format == geometry.format
                },
                Err(PipelineError::GpuImport(why)) => geometry.refusal() == Some(why@),
                Err(_) => false,
            },
    {
        let geometry: FrameGeometry = match geometry.validate() {
            Ok(geometry) => geometry,
            Err(e) => {
                return Err(e);
            },
        };
        let image: ImagePlan = plan_single_plane(&geometry, modifier, plane);
        let mut fds: Vec<i32> = Vec::new();
        fds.push(plane.fd);
        assert(fds@ =~= seq![plane.fd]);
        Ok(ImportPlan { image, fds, texture: browser_texture(geometry) })
    }

    /// Prefer device-local memory among the types allowed, else the first allowed one.
    pub fn pick_memory_type(&self, allowed: u32) -> (pick: Option<u32>)
        requires
            self.well_formed(),
        ensures
            is_pick(self.local(), allowed, pick),
    {
        pick_memory_type(&self.local, allowed)
    }

    /// Decide what memory to import one DMA-BUF as: of a type that both the image and the
    /// DMA-BUF accept, as large as the image asks.
    pub fn import_memory(&self, image_types: u32, fd_types: u32, size: u64) -> (plan: Result<
        MemoryPlan,
        PipelineError,
    >)
        requires
            self.well_formed(),
        ensures
            match plan {
                Ok(plan) => {
                    &&& plan.size == size
                    &&& is_pick(self.local(), image_types & fd_types, Some(plan.type_index))
                },
                Err(PipelineError::GpuImport(why)) => {
                    &&& is_pick(self.local(), image_types & fd_types, None)
                    &&& why@ == "no memory type is shared by this DMA-BUF and the image"@
                },
                Err(_) => false,
            },
    {
        match self.pick_memory_type(image_types & fd_types) {
            Some(type_index) => Ok(MemoryPlan { type_index, size }),
            None => Err(
                PipelineError::GpuImport(
                    String::from_str("no memory type is shared by this DMA-BUF and the image"),
                ),
            ),
        }
    }
}

/// Whether a plan is the one for a decoded surface: an image of both planes, tiled as the
/// surface is, that views of each plane can be taken of; a duplicate of each buffer; and a
/// texture of the surface's size.
pub open spec fn is_decoded_plan(surface: DmaBufSurface, plan: ImportPlan) -> bool {
    &&& plan.image.format == ImageFormat::Nv12
    &&& plan.image.width == surface.width
    &&& plan.image.height == surface.height
    &&& plan.image.modifier == surface.modifier
    &&& plan.image.planes@ == seq![layout_of(surface.luma), layout_of(surface.chroma)]
    &&& plan.image.view_formats@ == seq![ImageFormat::Nv12, ImageFormat::R8, ImageFormat::Rg8]
    &&& plan.image.mutable_format && plan.image.alias
    &&& plan.image.disjoint == surface.is_disjoint()
    &&& plan.fds@ == if surface.is_disjoint() {
        seq![surface.luma.fd, surface.chroma.fd]
    } else {
        seq![surface.luma.fd]
    }
    &&& plan.texture.label@ == "imported-nv12"@
    &&& plan.texture.size == (Extent {
        width: surface.width,
        height: surface.height,
        depth_or_array_layers: 1,
    })
    &&& plan.texture.format == TextureFormat::Nv12
}

/// What part of an image a memory backs.
#[derive(Debug, Clone, Copy, PartialEq, Eq, Structural)]
pub enum Aspect {
    /// All of it.
    Whole,
    /// Its luma plane.
    Luma,
    /// Its chroma plane.
    Chroma,
}

/// What building an image is waiting to hear.
#[derive(Debug, Clone, Copy, PartialEq, Eq, Structural)]
pub enum BuildPhase {
    /// Whether the image was created.
    Creating,
    /// Whether the memory was imported.
    Importing,
    /// Whether the memories were bound.
    Binding,
    /// Nothing: it is built, or given up.
    Ended,
}

/// What happened since the last instruction.
#[derive(Debug)]
pub enum BuildEvent {
    /// The image was created, or the driver said this.
    Created(Result<(), String>),
    /// The memory was imported, or could not be.
    Imported(Result<(), PipelineError>),
    /// The memories were bound, or the driver said this.
    Bound(Result<(), String>),
}

/// What to do next.
#[derive(Debug)]
pub enum BuildAction {
    /// Import the memory behind this descriptor, for this part of the image.
    Import { fd: usize, aspect: Aspect },
    /// Bind each imported memory, in order, to the part of the image it was imported for.
    Bind,
    /// The image is built.
    Done,
    /// Give up, destroying the image where it was created and freeing every memory that
    /// was imported.
    Fail(PipelineError),
}

/// What has been made of an image so far.
pub struct BuildState {
    /// Whether its planes are bound to separate memories.
    pub disjoint: bool,
    /// How many descriptors there are to import.
    pub fds: nat,
    /// Whether the image exists.
    pub created: bool,
    /// The memories imported, by what they back.
    pub memories: Seq<Aspect>,
    /// What is being waited to hear.
    pub phase: BuildPhase,
}

impl BuildState {
    /// The parts of the image that are bound to memories of their own, in order.
    pub open spec fn aspects(self) -> Seq<Aspect> {
        if self.disjoint {
            seq![Aspect::Luma, Aspect::Chroma]
        } else {
            seq![Aspect::Whole]
        }
    }

    /// The memories imported so far are for the first parts of the image, and there are
    /// descriptors for the rest while there is a rest.
    pub open spec fn well_formed(self) -> bool {
        &&& self.memories.len() <= self.aspects().len()
        &&& self.memories == self.aspects().take(self.memories.len() as int)
        &&& self.phase == BuildPhase::Creating ==> !self.created && self.memories.len() == 0
        &&& self.phase == BuildPhase::Importing ==> {
            &&& self.created
            &&& self.memories.len() < self.aspects().len() <= self.fds
        }
        &&& self.phase == BuildPhase::Binding ==> self.created && self.memories == self.aspects()
    }

    /// Whether an event is what is being waited to hear.
    pub open spec fn expects(self, event: BuildEvent) -> bool {
        match self.phase {
            BuildPhase::Creating => event is Created,
            BuildPhase::Importing => event is Imported,
            BuildPhase::Binding => event is Bound,
            BuildPhase::Ended => false,
        }
    }

    /// What the state becomes on an event.
    pub open spec fn after(self, event: BuildEvent) -> BuildState {
        match event {
            BuildEvent::Created(Ok(_)) => BuildState {
                created: true,
                phase: if self.fds >= self.aspects().len() {
                    BuildPhase::Importing
                } else {
                    BuildPhase::Ended
                },
                ..self
            },
            BuildEvent::Imported(Ok(_)) => {
                let memories = self.memories.push(self.aspects()[self.memories.len() as int]);
                BuildState {
                    memories,
                    phase: if memories.len() == self.aspects().len() {
                        BuildPhase::Binding
                    } else {
                        BuildPhase::Importing
                    },
                    ..self
                }
            },
            _ => BuildState { phase: BuildPhase::Ended, ..self },
        }
    }

    /// Whether `action` is what is to be done on an event.
    pub open spec fn answers(self, event: BuildEvent, action: BuildAction) -> bool {
        match event {
            BuildEvent::Created(Err(said)) => {
                &&& action matches BuildAction::Fail(PipelineError::GpuImport(why))
                &&& why@ == "vkCreateImage: "@ + said@
            },
            BuildEvent::Created(Ok(_)) => if self.fds == 0 {
                &&& action matches BuildAction::Fail(PipelineError::GpuImport(why))
                &&& why@ == "no DMA-BUF to import"@
            } else if self.disjoint && self.fds == 1 {
                &&& action matches BuildAction::Fail(PipelineError::GpuImport(why))
                &&& why@ == "disjoint surface has one fd"@
            } else {
                action == BuildAction::Import { fd: 0, aspect: self.aspects()[0] }
            },
            BuildEvent::Imported(Err(e)) => action == BuildAction::Fail(e),
            BuildEvent::Imported(Ok(_)) => {
                let next = self.memories.len() + 1;
                if next == self.aspects().len() {
                    action is Bind
                } else {
                    action == BuildAction::Import {
                        fd: next as usize,
                        aspect: self.aspects()[next as int],
                    }
                }
            },
            BuildEvent::Bound(Err(said)) => {
                &&& action matches BuildAction::Fail(PipelineError::GpuImport(why))
                &&& why@ == "vkBindImageMemory2: "@ + said@
            },
            BuildEvent::Bound(Ok(_)) => action is Done,
        }
    }
}

/// An image being built: created, given its memories, and bound to them.
#[derive(Debug)]
pub struct ImageBuild {
    disjoint: bool,
    fds: usize,
    created: bool,
    memories: Vec<Aspect>,
    phase: BuildPhase,
}

impl View for ImageBuild {
    type V = BuildState;

    closed spec fn view(&self) -> BuildState {
        BuildState {
            disjoint: self.disjoint,
            fds: self.fds as nat,
            created: self.created,
            memories: self.memories@,
            phase: self.phase,
        }
    }
}

impl ImageBuild {
    /// An image about to be created, with `fds` duplicated descriptors to import.
    pub fn new(disjoint: bool, fds: usize) -> (build: ImageBuild)
        ensures
            build@ == (BuildState {
                disjoint,
                fds: fds as nat,
                created: false,
                memories: Seq::empty(),
                phase: BuildPhase::Creating,
            }),
            build@.well_formed(),
    {
        let build: ImageBuild = ImageBuild {
            disjoint,
            fds,
            created: false,
            memories: Vec::new(),
            phase: BuildPhase::Creating,
        };
        assert(build@.memories =~= build@.aspects().take(0));
        build
    }

    /// Take what happened and say what to do next.
    pub fn step(&mut self, event: BuildEvent) -> (action: BuildAction)
        requires
            old(self)@.well_formed(),
            old(self)@.expects(event),
        ensures
            final(self)@ == old(self)@.after(event),
            old(self)@.answers(event, action),
            final(self)@.well_formed(),
    {
        match event {
            BuildEvent::Created(Err(said)) => {
                self.phase = BuildPhase::Ended;
                BuildAction::Fail(
                    PipelineError::GpuImport(joined("vkCreateImage: ", said.as_str())),
                )
            },
            BuildEvent::Created(Ok(())) => {
                self.created = true;
                if self.fds == 0 {
                    self.phase = BuildPhase::Ended;
                    return BuildAction::Fail(
                        PipelineError::GpuImport(String::from_str("no DMA-BUF to import")),
                    );
                }
                if self.disjoint && self.fds == 1 {
                    self.phase = BuildPhase::Ended;
                    return BuildAction::Fail(
                        PipelineError::GpuImport(String::from_str("disjoint surface has one fd")),
                    );
                }
                self.phase = BuildPhase::Importing;
                BuildAction::Import {
                    fd: 0,
                    aspect: if self.disjoint {
                        Aspect::Luma
                    } else {
                        Aspect::Whole
                    },
                }
            },
            BuildEvent::Imported(Err(e)) => {
                self.phase = BuildPhase::Ended;
                BuildAction::Fail(e)
            },
            BuildEvent::Imported(Ok(())) => {
                if self.disjoint && self.memories.len() == 0 {
                    self.memories.push(Aspect::Luma);
                    assert(self@.memories =~= self@.aspects().take(1));
                    BuildAction::Import { fd: 1, aspect: Aspect::Chroma }
                } else {
                    let aspect: Aspect = if self.disjoint {
                        Aspect::Chroma
                    } else {
                        Aspect::Whole
                    };
                    self.memories.push(aspect);
                    self.phase = BuildPhase::Binding;
                    assert(self@.memories =~= self@.aspects());
                    assert(self@.aspects().take(self@.aspects().len() as int) =~= self@.aspects());
                    BuildAction::Bind
                }
            },
            BuildEvent::Bound(Err(said)) => {
                self.phase = BuildPhase::Ended;
                BuildAction::Fail(
                    PipelineError::GpuImport(joined("vkBindImageMemory2: ", said.as_str())),
                )
            },
            BuildEvent::Bound(Ok(())) => {
                self.phase = BuildPhase::Ended;
                BuildAction::Done
            },
        }
    }

    /// How many memories there are to free should the image be given up now.
    pub fn memories(&self) -> (count: usize)
        ensures
            count == self@.memories.len(),
    {
        self.memories.len()
    }
}

/// **The device has every interop extension, once, behind what it had.** A device that can
/// be opened keeps its required extensions in place, and every interop extension is among
/// those it is opened with.
pub proof fn interop_is_complete(
    required: Seq<Seq<char>>,
    available: Seq<Seq<char>>,
    name: Seq<char>,
)
    requires
        enabled(required, available) is Ok,
        interop_names().contains(name),
    ensures
        (enabled(required, available)->Ok_0).contains(name),
        available.contains(name),
        required.is_prefix_of(enabled(required, available)->Ok_0),
{
    let at = choose|at: int| 0 <= at < 4 && interop_names()[at] == name;
    interop_is_complete_upto(required, available, at as nat, 4);
}

proof fn interop_is_complete_upto(
    required: Seq<Seq<char>>,
    available: Seq<Seq<char>>,
    at: nat,
    n: nat,
)
    requires
        n <= 4,
        enabled_upto(required, available, n) is Ok,
    ensures
        required.is_prefix_of(enabled_upto(required, available, n)->Ok_0),
        at < n ==> {
            &&& (enabled_upto(required, available, n)->Ok_0).contains(interop_names()[at as int])
            &&& available.contains(interop_names()[at as int])
        },
    decreases n,
{
    if n > 0 {
        interop_is_complete_upto(required, available, at, (n - 1) as nat);
        let before = enabled_upto(required, available, (n - 1) as nat)->Ok_0;
        let after = enabled_upto(required, available, n)->Ok_0;
        let name = interop_names()[n - 1];
        if after != before {
            assert(after == before.push(name));
            assert(after[before.len() as int] == name);
            if at < n - 1 {
                let i = choose|i: int|
                    0 <= i < before.len() && before[i] == interop_names()[at as int];
                assert(after[i] == interop_names()[at as int]);
            }
        }
    }
}

/// **Nothing bound is left out and nothing imported is lost.** An image that is finished
/// has a memory for each of its parts; one that is given up has imported no more than
/// those, every one of them on record to be freed.
pub proof fn every_memory_is_accounted_for(state: BuildState, event: BuildEvent)
    requires
        state.well_formed(),
        state.expects(event),
    ensures
        state.after(event).well_formed(),
        event matches BuildEvent::Bound(Ok(_)) ==> state.after(event).memories
            == state.after(event).aspects(),
        event is Imported && event->Imported_0 is Ok ==> state.after(event).memories.len()
            == state.memories.len() + 1,
        event is Imported && event->Imported_0 is Err ==> state.after(event).memories
            == state.memories,
{
    if event is Imported && event->Imported_0 is Ok {
        let n = state.memories.len();
        assert(state.after(event).memories =~= state.aspects().take((n + 1) as int));
        if n + 1 == state.aspects().len() {
            assert(state.aspects().take((n + 1) as int) =~= state.aspects());
        }
    }
}

/// **An adapter is refused for its API or its format, and for nothing else.**
pub proof fn an_adapter_is_refused_for_a_reason(
    backend: Backend,
    nv12: bool,
    needed: Backend,
    intro: Seq<char>,
)
    ensures
        adapter_refusal(backend, nv12, needed, intro) is None <==> backend == needed && nv12,
        backend != needed ==> (adapter_refusal(backend, nv12, needed, intro) matches Some(why)
            && crate::text::begins(why, intro)),
        backend != needed ==> adapter_refusal(backend, nv12, needed, intro) == adapter_refusal(
            backend,
            !nv12,
            needed,
            intro,
        ),
{
    assert((intro + backend.label()).take(intro.len() as int) =~= intro);
}

/// **A device opens where its driver has every interop extension, and asks for no more.** What is
/// missing otherwise is an interop extension that the driver lacks; and every extension a device
/// is opened with was required or is an interop one.
pub proof fn a_device_opens_where_interop_is_there(
    required: Seq<Seq<char>>,
    available: Seq<Seq<char>>,
)
    ensures
        enabled(required, available) is Ok <==> forall|i: int|
            0 <= i < 4 ==> available.contains(#[trigger] interop_names()[i]),
        enabled(required, available) matches Err(missing) ==> interop_names().contains(missing)
            && !available.contains(missing),
        enabled(required, available) matches Ok(names) ==> names.len() <= required.len() + 4
            && forall|i: int|
            0 <= i < names.len() ==> required.contains(#[trigger] names[i])
                || interop_names().contains(names[i]),
{
    interop_is_all_that_is_added(required, available, 4);
}

proof fn interop_is_all_that_is_added(
    required: Seq<Seq<char>>,
    available: Seq<Seq<char>>,
    n: nat,
)
    requires
        n <= 4,
    ensures
        enabled_upto(required, available, n) is Ok <==> forall|i: int|
            0 <= i < n ==> available.contains(#[trigger] interop_names()[i]),
        enabled_upto(required, available, n) matches Err(missing) ==> interop_names().contains(
            missing,
        ) && !available.contains(missing),
        enabled_upto(required, available, n) matches Ok(names) ==> names.len() <= required.len() + n
            && forall|i: int|
            0 <= i < names.len() ==> required.contains(#[trigger] names[i])
                || interop_names().contains(names[i]),
    decreases n,
{
    if n > 0 {
        interop_is_all_that_is_added(required, available, (n - 1) as nat);
        let name = interop_names()[n - 1];
        assert(interop_names().contains(name));
        if let Ok(names) = enabled_upto(required, available, n) {
            let before = enabled_upto(required, available, (n - 1) as nat)->Ok_0;
            assert forall|i: int| 0 <= i < names.len() implies required.contains(
                #[trigger] names[i],
            ) || interop_names().contains(names[i]) by {
                if i < before.len() {
                    assert(names[i] == before[i]);
                } else {
                    assert(names[i] == name);
                }
            }
        }
    }
}

/// **Which memory is used is settled.** There is one pick, none only where none is allowed, and
/// it is local to the device wherever an allowed one is.
pub proof fn which_memory_is_used_is_settled(
    local: Seq<bool>,
    allowed: u32,
    a: Option<u32>,
    b: Option<u32>,
)
    requires
        local.len() <= 32,
        is_pick(local, allowed, a),
        is_pick(local, allowed, b),
    ensures
        a == b,
        a matches Some(pick) ==> ((exists|j: int|
            0 <= j < local.len() && #[trigger] allows(allowed, j) && local[j])
            ==> local[pick as int]),
{
    if a is Some && b is None {
        assert(allows(allowed, a->0 as int));
    }
    if b is Some && a is None {
        assert(allows(allowed, b->0 as int));
    }
    if a is Some && b is Some {
        let x = a->0 as int;
        let y = b->0 as int;
        assert(allows(allowed, x) && allows(allowed, y));
    }
}

/// **Memory is allowed by both or not at all.** What a surface and its image allow together is
/// what each allows.
pub proof fn memory_is_allowed_by_both(image_types: u32, fd_types: u32, i: u32)
    requires
        i < 32,
    ensures
        allows(image_types & fd_types, i as int) <==> allows(image_types, i as int) && allows(
            fd_types,
            i as int,
        ),
{
    assert(((image_types & fd_types) >> i) & 1 == 1 <==> (image_types >> i) & 1 == 1 && (fd_types
        >> i) & 1 == 1) by (bit_vector);
}

/// **A frame's image is in the frame's own format.** Blue comes first in it where it does in the
/// frame, and it goes through the sRGB curve where the frame does.
pub proof fn a_frames_image_is_in_its_format(format: TextureFormat)
    ensures
        ({
            let image = single_plane_image(format);
            &&& image == ImageFormat::Bgra8Unorm <==> format is Bgra8Unorm
            &&& image == ImageFormat::Bgra8Srgb <==> format is Bgra8UnormSrgb
            &&& image == ImageFormat::Rgba8Srgb <==> format is Rgba8UnormSrgb
            &&& format is Rgba8Unorm ==> image == ImageFormat::Rgba8Unorm
        }),
{
}

/// **A plane is where its driver said.**
pub proof fn a_plane_is_where_its_driver_said(plane: PlaneLayout)
    ensures
        layout_of(plane).offset == plane.offset,
        layout_of(plane).row_pitch == plane.pitch,
{
}

/// **What is ordered of an image is what is awaited.** A memory is imported for the next part
/// that has none, from the descriptor of that part; the memories are bound once every part has
/// one; and nothing is awaited of an image that is done or given up. It is given up exactly where
/// something failed or descriptors are missing, and done exactly once it is bound.
pub proof fn what_is_ordered_of_an_image_is_awaited(
    state: BuildState,
    event: BuildEvent,
    action: BuildAction,
)
    requires
        state.well_formed(),
        state.expects(event),
        state.answers(event, action),
    ensures
        ({
            let after = state.after(event);
            let failed = match event {
                BuildEvent::Created(said) => said is Err || state.fds < state.aspects().len(),
                BuildEvent::Imported(said) => said is Err,
                BuildEvent::Bound(said) => said is Err,
            };
            &&& match action {
                BuildAction::Import { fd, aspect } => {
                    &&& after.phase == BuildPhase::Importing
                    &&& fd == after.memories.len()
                    &&& fd < after.aspects().len()
                    &&& aspect == after.aspects()[fd as int]
                },
                BuildAction::Bind => after.phase == BuildPhase::Binding && after.memories.len()
                    == after.aspects().len(),
                BuildAction::Done => after.phase == BuildPhase::Ended && !failed && event is Bound,
                BuildAction::Fail(_) => after.phase == BuildPhase::Ended && failed,
            }
            &&& failed ==> action is Fail
            &&& event is Bound && !failed ==> action is Done
            &&& after.disjoint == state.disjoint
            &&& after.fds == state.fds
            &&& state.created ==> after.created
            &&& event is Created ==> (after.created <==> event->Created_0 is Ok)
            &&& state.aspects().len() == if state.disjoint {
                2nat
            } else {
                1nat
            }
        }),
{
}

/// **A decoded surface's image is that surface.** It has its size and its tiling, a layout for
/// each of its two planes, the luma's first, where the driver put them; each plane can be viewed
/// by itself and the two together; a buffer is duplicated once, however many planes lie in it;
/// and the texture over it is as large as it is.
pub proof fn a_decoded_surfaces_image_is_that_surface(surface: DmaBufSurface, plan: ImportPlan)
    requires
        is_decoded_plan(surface, plan),
    ensures
        plan.image.format == ImageFormat::Nv12 && plan.texture.format is Nv12,
        plan.image.width == surface.width && plan.image.height == surface.height,
        plan.texture.size.width == plan.image.width,
        plan.texture.size.height == plan.image.height,
        plan.texture.size.depth_or_array_layers == 1,
        plan.image.modifier == surface.modifier,
        plan.image.planes@.len() == 2,
        plan.image.planes@[0].offset == surface.luma.offset,
        plan.image.planes@[0].row_pitch == surface.luma.pitch,
        plan.image.planes@[1].offset == surface.chroma.offset,
        plan.image.planes@[1].row_pitch == surface.chroma.pitch,
        plan.image.view_formats@.contains(ImageFormat::Nv12),
        plan.image.view_formats@.contains(ImageFormat::R8),
        plan.image.view_formats@.contains(ImageFormat::Rg8),
        plan.image.view_formats@.len() == 3,
        plan.image.mutable_format,
        plan.image.alias,
        plan.image.disjoint <==> surface.luma.fd != surface.chroma.fd,
        plan.fds@.len() == (if plan.image.disjoint {
            2nat
        } else {
            1nat
        }),
        plan.fds@[0] == surface.luma.fd,
        plan.fds@.last() == surface.chroma.fd,
{
    let views = plan.image.view_formats@;
    assert(views.contains(views[0]) && views.contains(views[1]) && views.contains(views[2]));
}

/// **An image's memories back its parts.** Where the planes lie apart, the luma has the first and
/// the chroma the second; otherwise one backs all of it.
pub proof fn an_images_memories_back_its_parts(state: BuildState)
    ensures
        state.disjoint ==> state.aspects().len() == 2 && state.aspects()[0] == Aspect::Luma
            && state.aspects()[1] == Aspect::Chroma,
        !state.disjoint ==> state.aspects().len() == 1 && state.aspects()[0] == Aspect::Whole,
{
}

} // verus!
