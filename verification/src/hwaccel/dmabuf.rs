//! The Linux hand-off type: a decoded surface described as DMA-BUF planes.
//!
//! This is what crosses from the decode thread to the render thread. What travels is a
//! description — file descriptors, a DRM format modifier, and per-plane offsets and
//! pitches — and whoever builds one keeps a reference on the decoded frame for as long as
//! the description is in use, so that the decoder does not hand the same surface to its
//! next picture.
use super::ffmpeg_hw::SignalledColor;
use crate::text::{decimal, decimal_text, hex, hex_text, joined};
use vstd::prelude::*;
use vstd::string::*;

verus! {

/// `DRM_FORMAT_NV12`: the character code `NV12`, first character lowest.
pub const DRM_FORMAT_NV12: u32 = 0x3231_564e;

/// `DRM_FORMAT_R8`: the single-channel layer the luma plane is sometimes reported as.
pub const DRM_FORMAT_R8: u32 = 0x2020_3852;

/// `DRM_FORMAT_GR88`: likewise for the interleaved chroma plane.
pub const DRM_FORMAT_GR88: u32 = 0x3838_5247;

/// One plane of an imported surface.
#[derive(Debug, Clone, Copy, PartialEq, Eq, Structural)]
pub struct PlaneLayout {
    /// The DMA-BUF this plane lives in. Borrowed from the frame behind the surface: an
    /// import duplicates it, because the import takes ownership of what it is given.
    pub fd: i32,
    /// Byte offset of the plane within its buffer.
    pub offset: u64,
    /// Bytes per row.
    pub pitch: u64,
}

/// One buffer of a driver's description of a surface.
#[derive(Debug, Clone, Copy, PartialEq, Eq, Structural)]
pub struct DrmObject {
    /// The DMA-BUF.
    pub fd: i32,
    /// How it is tiled and compressed.
    pub format_modifier: u64,
}

/// One plane of a layer, as the driver describes it.
#[derive(Debug, Clone, Copy, PartialEq, Eq, Structural)]
pub struct DrmPlane {
    /// Which buffer the plane lies in.
    pub object_index: i32,
    /// Byte offset within that buffer.
    pub offset: i64,
    /// Bytes per row.
    pub pitch: i64,
}

/// One layer of a surface, as the driver describes it.
#[derive(Debug, Clone)]
pub struct DrmLayer {
    /// The layer's DRM format.
    pub format: u32,
    /// How many of the slots below are in use.
    pub nb_planes: i32,
    /// The descriptor's plane slots.
    pub planes: Vec<DrmPlane>,
}

/// A driver's description of a surface.
#[derive(Debug, Clone)]
pub struct DrmDescriptor {
    /// How many of the object slots are in use.
    pub nb_objects: i32,
    /// The descriptor's object slots.
    pub objects: Vec<DrmObject>,
    /// How many of the layer slots are in use.
    pub nb_layers: i32,
    /// The descriptor's layer slots.
    pub layers: Vec<DrmLayer>,
}

/// Why a decoded surface could not be described as importable DMA-BUF planes.
#[derive(Debug, Clone, Copy, PartialEq, Eq, Structural)]
#[non_exhaustive]
pub enum DmaBufError {
    /// The mapped frame carried no DRM descriptor.
    NoDescriptor,
    /// Object/layer/plane counts were outside what the descriptor can hold.
    BadDescriptor,
    /// Zero or absurd picture dimensions.
    BadGeometry,
    /// Planes live in buffers with different tilings; one image cannot cover them.
    MixedModifiers,
    /// A layer format this path does not handle — 10-bit P010 lands here, and falling back
    /// is the right answer rather than reinterpreting the bytes.
    UnsupportedFormat(u32),
    /// Not the two planes NV12 requires.
    PlaneCount(usize),
}

impl DmaBufError {
    /// The failure as a log line carries it.
    pub open spec fn text(self) -> Seq<char> {
        match self {
            DmaBufError::NoDescriptor => "mapped frame has no DRM descriptor"@,
            DmaBufError::BadDescriptor => "DRM descriptor is internally inconsistent"@,
            DmaBufError::BadGeometry => "surface has unusable dimensions"@,
            DmaBufError::MixedModifiers => "planes use different DRM format modifiers"@,
            DmaBufError::UnsupportedFormat(format) => "unsupported DRM layer format 0x"@ + hex_text(
                format as nat,
                8,
            ),
            DmaBufError::PlaneCount(count) => "expected 2 planes for NV12, got "@ + decimal_text(
                count as nat,
            ),
        }
    }

    /// The failure as a log line carries it.
    pub fn message(&self) -> (line: String)
        ensures
            line@ == self.text(),
    {
        match self {
            DmaBufError::NoDescriptor => String::from_str("mapped frame has no DRM descriptor"),
            DmaBufError::BadDescriptor => String::from_str(
                "DRM descriptor is internally inconsistent",
            ),
            DmaBufError::BadGeometry => String::from_str("surface has unusable dimensions"),
            DmaBufError::MixedModifiers => String::from_str(
                "planes use different DRM format modifiers",
            ),
            DmaBufError::UnsupportedFormat(format) => joined(
                "unsupported DRM layer format 0x",
                hex(*format, 8).as_str(),
            ),
            DmaBufError::PlaneCount(count) => joined(
                "expected 2 planes for NV12, got ",
                decimal(*count as u64).as_str(),
            ),
        }
    }
}

/// The two-plane view of whatever shape the driver described.
#[derive(Debug, Clone, Copy, PartialEq, Eq, Structural)]
pub struct Normalized {
    /// The modifier every buffer shares.
    pub modifier: u64,
    /// The luma plane.
    pub luma: PlaneLayout,
    /// The chroma plane.
    pub chroma: PlaneLayout,
}

/// Whether a layer format is one this path reads.
pub open spec fn known_format(format: u32) -> bool {
    format == DRM_FORMAT_NV12 || format == DRM_FORMAT_R8 || format == DRM_FORMAT_GR88
}

impl DrmDescriptor {
    /// Whether the counts are within what the descriptor holds.
    pub open spec fn counts_fit(self) -> bool {
        &&& 0 < self.nb_objects <= self.objects@.len()
        &&& 0 < self.nb_layers <= self.layers@.len()
    }

    /// Whether every buffer in use is tiled the same way.
    pub open spec fn one_modifier(self) -> bool {
        forall|i: int|
            0 <= i < self.nb_objects ==> (#[trigger] self.objects@[i]).format_modifier
                == self.objects@[0].format_modifier
    }

    /// Whether a plane lies in a buffer that is in use, at a place that can be.
    pub open spec fn plane_fits(self, plane: DrmPlane) -> bool {
        &&& 0 <= plane.object_index < self.nb_objects
        &&& plane.offset >= 0
        &&& plane.pitch >= 0
    }

    /// A plane with its buffer looked up.
    pub open spec fn plane_at(self, plane: DrmPlane) -> PlaneLayout {
        PlaneLayout {
            fd: self.objects@[plane.object_index as int].fd,
            offset: plane.offset as u64,
            pitch: plane.pitch as u64,
        }
    }

    /// The planes of one layer.
    pub open spec fn layer_planes(self, layer: DrmLayer) -> Result<Seq<PlaneLayout>, DmaBufError> {
        if !known_format(layer.format) {
            Err(DmaBufError::UnsupportedFormat(layer.format))
        } else if !(0 <= layer.nb_planes <= layer.planes@.len()) {
            Err(DmaBufError::BadDescriptor)
        } else if exists|i: int|
            0 <= i < layer.nb_planes && !self.plane_fits(#[trigger] layer.planes@[i]) {
            Err(DmaBufError::BadDescriptor)
        } else {
            Ok(
                Seq::new(
                    layer.nb_planes as nat,
                    |i: int| self.plane_at(layer.planes@[i]),
                ),
            )
        }
    }

    /// The planes of the first `n` layers, or what is wrong with the first bad one.
    pub open spec fn planes_of(self, n: nat) -> Result<Seq<PlaneLayout>, DmaBufError>
        decreases n,
    {
        if n == 0 {
            Ok(Seq::empty())
        } else {
            match self.planes_of((n - 1) as nat) {
                Err(e) => Err(e),
                Ok(before) => match self.layer_planes(self.layers@[n - 1]) {
                    Err(e) => Err(e),
                    Ok(more) => Ok(before + more),
                },
            }
        }
    }

    /// Whether the description is one NV12 layer with both planes.
    pub open spec fn is_whole(self) -> bool {
        &&& self.nb_layers == 1
        &&& self.layers@[0].format == DRM_FORMAT_NV12
        &&& self.layers@[0].nb_planes == 2
    }

    /// Whether the description is an R8 layer for the luma and then a GR88 layer for the
    /// chroma.
    pub open spec fn is_split(self) -> bool {
        &&& self.nb_layers == 2
        &&& self.layers@[0].format == DRM_FORMAT_R8
        &&& self.layers@[0].nb_planes == 1
        &&& self.layers@[1].format == DRM_FORMAT_GR88
        &&& self.layers@[1].nb_planes == 1
    }

    /// The format that is out of place in two planes that are neither: the first layer's,
    /// unless that could begin a surface and it is the second that does not go on with it.
    pub open spec fn stray(self) -> u32 {
        let first = self.layers@[0];
        if first.format == DRM_FORMAT_NV12 && first.nb_planes != 2 || first.format
            == DRM_FORMAT_GR88 || first.format == DRM_FORMAT_R8 && first.nb_planes != 1 {
            first.format
        } else {
            self.layers@[1].format
        }
    }

    /// What the description comes to: two planes in one of the two shapes that are NV12 and
    /// one modifier, or what is wrong.
    pub open spec fn normalized(self) -> Result<Normalized, DmaBufError> {
        if !self.counts_fit() {
            Err(DmaBufError::BadDescriptor)
        } else if !self.one_modifier() {
            Err(DmaBufError::MixedModifiers)
        } else {
            match self.planes_of(self.nb_layers as nat) {
                Err(e) => Err(e),
                Ok(planes) => if planes.len() != 2 {
                    Err(DmaBufError::PlaneCount(planes.len() as usize))
                } else if self.is_whole() || self.is_split() {
                    Ok(
                        Normalized {
                            modifier: self.objects@[0].format_modifier,
                            luma: planes[0],
                            chroma: planes[1],
                        },
                    )
                } else {
                    Err(DmaBufError::UnsupportedFormat(self.stray()))
                },
            }
        }
    }
}

/// Append one layer's planes to those already collected.
fn collect_layer(
    desc: &DrmDescriptor,
    layer: &DrmLayer,
    collected: &mut Vec<PlaneLayout>,
) -> (outcome: Result<(), DmaBufError>)
    requires
        desc.counts_fit(),
    ensures
        match outcome {
            Ok(_) => {
                &&& desc.layer_planes(*layer) matches Ok(more)
                &&& final(collected)@ == old(collected)@ + more
            },
            Err(e) => desc.layer_planes(*layer) == Err::<Seq<PlaneLayout>, DmaBufError>(e),
        },
{
    if !(layer.format == DRM_FORMAT_NV12 || layer.format == DRM_FORMAT_R8 || layer.format
        == DRM_FORMAT_GR88) {
        return Err(DmaBufError::UnsupportedFormat(layer.format));
    }
    if layer.nb_planes < 0 || layer.nb_planes as usize > layer.planes.len() {
        return Err(DmaBufError::BadDescriptor);
    }
    let count: usize = layer.nb_planes as usize;
    let ghost more = Seq::new(count as nat, |i: int| desc.plane_at(layer.planes@[i]));
    let mut at: usize = 0;
    while at < count
        invariant
            at <= count <= layer.planes@.len(),
            count == layer.nb_planes,
            desc.counts_fit(),
            known_format(layer.format),
            more == Seq::new(count as nat, |i: int| desc.plane_at(layer.planes@[i])),
            collected@ == old(collected)@ + more.take(at as int),
            forall|i: int| 0 <= i < at ==> desc.plane_fits(#[trigger] layer.planes@[i]),
        decreases count - at,
    {
        let plane: DrmPlane = layer.planes[at];
        if plane.object_index < 0 || plane.object_index >= desc.nb_objects || plane.offset < 0
            || plane.pitch < 0 {
            proof {
                assert(!desc.plane_fits(layer.planes@[at as int]));
            }
            return Err(DmaBufError::BadDescriptor);
        }
        let object: DrmObject = desc.objects[plane.object_index as usize];
        collected.push(
            PlaneLayout { fd: object.fd, offset: plane.offset as u64, pitch: plane.pitch as u64 },
        );
        proof {
            assert(more.take(at + 1) =~= more.take(at as int).push(more[at as int]));
            assert(collected@ =~= old(collected)@ + more.take(at + 1));
        }
        at += 1;
    }
    proof {
        assert(more.take(count as int) =~= more);
    }
    Ok(())
}

/// Reduce a driver's description to "NV12, two planes, one modifier", or say why it cannot
/// be.
///
/// Drivers describe the same surface two different ways: one NV12 layer with two planes,
/// or two single-channel layers (R8 luma, then GR88 chroma). Both are accepted; anything
/// else is a format this path does not handle, and the honest answer is to fall back rather
/// than guess at the layout.
pub fn plane_layout(desc: &DrmDescriptor) -> (layout: Result<Normalized, DmaBufError>)
    ensures
        layout == desc.normalized(),
{
    if desc.nb_objects <= 0 || desc.nb_objects as usize > desc.objects.len() || desc.nb_layers <= 0
        || desc.nb_layers as usize > desc.layers.len() {
        return Err(DmaBufError::BadDescriptor);
    }
    let objects: usize = desc.nb_objects as usize;
    let modifier: u64 = desc.objects[0].format_modifier;
    let mut i: usize = 0;
    while i < objects
        invariant
            i <= objects <= desc.objects@.len(),
            objects == desc.nb_objects,
            desc.counts_fit(),
            modifier == desc.objects@[0].format_modifier,
            forall|j: int|
                0 <= j < i ==> (#[trigger] desc.objects@[j]).format_modifier == modifier,
        decreases objects - i,
    {
        if desc.objects[i].format_modifier != modifier {
            proof {
                assert(desc.objects@[i as int].format_modifier
                    != desc.objects@[0].format_modifier);
            }
            return Err(DmaBufError::MixedModifiers);
        }
        i += 1;
    }
    let layers: usize = desc.nb_layers as usize;
    let mut collected: Vec<PlaneLayout> = Vec::new();
    let mut at: usize = 0;
    while at < layers
        invariant
            at <= layers <= desc.layers@.len(),
            layers == desc.nb_layers,
            desc.counts_fit(),
            desc.one_modifier(),
            desc.planes_of(at as nat) == Ok::<Seq<PlaneLayout>, DmaBufError>(collected@),
        decreases layers - at,
    {
        let outcome: Result<(), DmaBufError> = collect_layer(
            desc,
            &desc.layers[at],
            &mut collected,
        );
        if let Err(e) = outcome {
            proof {
                assert(desc.planes_of((at + 1) as nat) == Err::<Seq<PlaneLayout>, DmaBufError>(e));
                a_bad_layer_is_final(*desc, (at + 1) as nat, layers as nat, e);
            }
            return Err(e);
        }
        at += 1;
    }
    if collected.len() != 2 {
        return Err(DmaBufError::PlaneCount(collected.len()));
    }
    let first: &DrmLayer = &desc.layers[0];
    let whole: bool = first.format == DRM_FORMAT_NV12 && first.nb_planes == 2;
    let luma: bool = first.format == DRM_FORMAT_R8 && first.nb_planes == 1;
    if !whole && !luma {
        proof {
            assert(desc.planes_of(0) == Ok::<Seq<PlaneLayout>, DmaBufError>(Seq::empty()));
            if !known_format(first.format) {
                let e = DmaBufError::UnsupportedFormat(first.format);
                assert(desc.planes_of(1) == Err::<Seq<PlaneLayout>, DmaBufError>(e));
                a_bad_layer_is_final(*desc, 1, layers as nat, e);
            }
        }
        return Err(DmaBufError::UnsupportedFormat(first.format));
    }
    if whole && layers == 1 {
        return Ok(Normalized { modifier, luma: collected[0], chroma: collected[1] });
    }
    proof {
        if layers == 1 {
            assert(desc.planes_of(0) == Ok::<Seq<PlaneLayout>, DmaBufError>(Seq::empty()));
            assert(desc.layer_planes(desc.layers@[0])->Ok_0.len() == 1);
            assert(desc.planes_of(1)->Ok_0.len() == 1);
        }
    }
    let second: &DrmLayer = &desc.layers[1];
    if luma && layers == 2 && second.format == DRM_FORMAT_GR88 && second.nb_planes == 1 {
        return Ok(Normalized { modifier, luma: collected[0], chroma: collected[1] });
    }
    Err(DmaBufError::UnsupportedFormat(second.format))
}

/// What is wrong with one layer is what is wrong with the whole, whatever follows it.
proof fn a_bad_layer_is_final(desc: DrmDescriptor, n: nat, m: nat, e: DmaBufError)
    requires
        n <= m,
        desc.planes_of(n) == Err::<Seq<PlaneLayout>, DmaBufError>(e),
    ensures
        desc.planes_of(m) == Err::<Seq<PlaneLayout>, DmaBufError>(e),
    decreases m - n,
{
    if n < m {
        a_bad_layer_is_final(desc, n, (m - 1) as nat, e);
    }
}

/// A decoded NV12 surface, described as DMA-BUF planes.
#[derive(Debug, Clone, Copy, PartialEq, Eq, Structural)]
pub struct DmaBufSurface {
    /// Picture width in pixels.
    pub width: u32,
    /// Picture height in pixels.
    pub height: u32,
    /// The DRM format modifier all planes share (tiling/compression layout).
    pub modifier: u64,
    /// The luma plane. This path handles 8-bit NV12 only, so there are always two planes.
    pub luma: PlaneLayout,
    /// The chroma plane.
    pub chroma: PlaneLayout,
    /// What the frame says of its colours.
    pub color: SignalledColor,
}

impl DmaBufSurface {
    /// Describe a mapped frame: its descriptor, if it carries one, its size and its colours.
    pub fn from_drm_frame(
        desc: Option<&DrmDescriptor>,
        width: i32,
        height: i32,
        color: SignalledColor,
    ) -> (surface: Result<DmaBufSurface, DmaBufError>)
        ensures
            surface == match desc {
                None => Err(DmaBufError::NoDescriptor),
                Some(desc) => match desc.normalized() {
                    Err(e) => Err(e),
                    Ok(layout) => if width <= 0 || height <= 0 {
                        Err(DmaBufError::BadGeometry)
                    } else {
                        Ok(
                            DmaBufSurface {
                                width: width as u32,
                                height: height as u32,
                                modifier: layout.modifier,
                                luma: layout.luma,
                                chroma: layout.chroma,
                                color,
                            },
                        )
                    },
                },
            },
    {
        match desc {
            None => Err(DmaBufError::NoDescriptor),
            Some(desc) => match plane_layout(desc) {
                Err(e) => Err(e),
                Ok(layout) => if width <= 0 || height <= 0 {
                    Err(DmaBufError::BadGeometry)
                } else {
                    Ok(
                        DmaBufSurface {
                            width: width as u32,
                            height: height as u32,
                            modifier: layout.modifier,
                            luma: layout.luma,
                            chroma: layout.chroma,
                            color,
                        },
                    )
                },
            },
        }
    }

    /// Whether the planes live in different buffers.
    pub open spec fn is_disjoint(self) -> bool {
        self.luma.fd != self.chroma.fd
    }
}

/// **A malformed descriptor never becomes a read out of bounds.** Every plane of a
/// description that is accepted lies in a buffer that the driver declared in use, and all
/// of those buffers are tiled the same way.
pub proof fn accepted_planes_are_declared(desc: DrmDescriptor)
    requires
        desc.normalized() is Ok,
    ensures
        ({
            let layout = desc.normalized()->Ok_0;
            &&& desc.one_modifier()
            &&& layout.modifier == desc.objects@[0].format_modifier
            &&& exists|i: int|
                0 <= i < desc.nb_objects && (#[trigger] desc.objects@[i]).fd == layout.luma.fd
            &&& exists|i: int|
                0 <= i < desc.nb_objects && (#[trigger] desc.objects@[i]).fd == layout.chroma.fd
        }),
{
    let planes = desc.planes_of(desc.nb_layers as nat)->Ok_0;
    planes_are_declared(desc, desc.nb_layers as nat, 0);
    planes_are_declared(desc, desc.nb_layers as nat, 1);
}

proof fn planes_are_declared(desc: DrmDescriptor, n: nat, at: int)
    requires
        n <= desc.layers@.len(),
        desc.planes_of(n) is Ok,
        0 <= at < desc.planes_of(n)->Ok_0.len(),
    ensures
        exists|i: int|
            0 <= i < desc.nb_objects && (#[trigger] desc.objects@[i]).fd == (desc.planes_of(
                n,
            )->Ok_0)[at].fd,
    decreases n,
{
    let before = desc.planes_of((n - 1) as nat)->Ok_0;
    if at < before.len() {
        planes_are_declared(desc, (n - 1) as nat, at);
    } else {
        let layer = desc.layers@[n - 1];
        let plane = layer.planes@[at - before.len()];
        assert(desc.plane_fits(plane));
        assert(desc.objects@[plane.object_index as int].fd == (desc.planes_of(n)->Ok_0)[at].fd);
    }
}

/// **A surface is accepted exactly where it is NV12 in one of its two shapes.** Its counts fit,
/// its buffers are tiled one way, its layers are the one of two planes or the two of one, and
/// each of those planes lies in a buffer. It is then described by those planes as they are.
#[verifier::rlimit(40)]
pub proof fn a_surface_is_accepted_for_its_shape(desc: DrmDescriptor)
    ensures
        ({
            let first = desc.layers@[0];
            let second = desc.layers@[1];
            let whole = desc.is_whole() && first.planes@.len() >= 2 && desc.plane_fits(
                first.planes@[0],
            ) && desc.plane_fits(first.planes@[1]);
            let split = desc.is_split() && first.planes@.len() >= 1 && second.planes@.len() >= 1
                && desc.plane_fits(first.planes@[0]) && desc.plane_fits(second.planes@[0]);
            &&& desc.normalized() is Ok <==> desc.counts_fit() && desc.one_modifier() && (whole
                || split)
            &&& desc.normalized() matches Ok(layout) ==> {
                let chroma = if whole {
                    first.planes@[1]
                } else {
                    second.planes@[0]
                };
                let luma = first.planes@[0];
                &&& layout.luma.offset == luma.offset && layout.luma.pitch == luma.pitch
                &&& layout.luma.fd == desc.objects@[luma.object_index as int].fd
                &&& layout.chroma.offset == chroma.offset && layout.chroma.pitch == chroma.pitch
                &&& layout.chroma.fd == desc.objects@[chroma.object_index as int].fd
                &&& layout.modifier == desc.objects@[0].format_modifier
            }
        }),
{
    reveal_with_fuel(DrmDescriptor::planes_of, 3);
    let first = desc.layers@[0];
    let second = desc.layers@[1];
    if desc.counts_fit() && desc.one_modifier() {
        if desc.is_whole() {
            if desc.normalized() is Ok {
                assert(desc.plane_fits(first.planes@[0]) && desc.plane_fits(first.planes@[1]));
            } else if first.planes@.len() >= 2 {
                let i = choose|i: int|
                    0 <= i < first.nb_planes && !desc.plane_fits(#[trigger] first.planes@[i]);
                assert(i == 0 || i == 1);
            }
        }
        if desc.is_split() {
            if desc.normalized() is Ok {
                assert(desc.plane_fits(first.planes@[0]) && desc.plane_fits(second.planes@[0]));
            }
        }
    }
}

/// **How a driver describes a surface does not matter.** Two descriptions of the same buffers
/// and the same two planes, one whole and one in two layers, come to the same surface.
pub proof fn both_shapes_are_one_surface(whole: DrmDescriptor, split: DrmDescriptor)
    requires
        whole.is_whole(),
        split.is_split(),
        whole.normalized() is Ok,
        split.normalized() is Ok,
        whole.objects@ == split.objects@,
        whole.layers@[0].planes@[0] == split.layers@[0].planes@[0],
        whole.layers@[0].planes@[1] == split.layers@[1].planes@[0],
    ensures
        whole.normalized() == split.normalized(),
{
    a_surface_is_accepted_for_its_shape(whole);
    a_surface_is_accepted_for_its_shape(split);
}

/// **What is wrong is said of what is wrong.** Counts that do not fit and buffers tiled
/// differently are told apart, and come before anything that a layer may have wrong; a layer in a
/// format this path does not read is named by that format, wherever the first such stands.
pub proof fn what_is_wrong_is_said(desc: DrmDescriptor)
    ensures
        desc.normalized() == Err::<Normalized, DmaBufError>(DmaBufError::MixedModifiers) <==>
            desc.counts_fit() && !desc.one_modifier(),
        !desc.counts_fit() ==> desc.normalized() == Err::<Normalized, DmaBufError>(
            DmaBufError::BadDescriptor,
        ),
        desc.counts_fit() && desc.one_modifier() && !known_format(desc.layers@[0].format)
            ==> desc.normalized() == Err::<Normalized, DmaBufError>(
            DmaBufError::UnsupportedFormat(desc.layers@[0].format),
        ),
        desc.normalized() != Err::<Normalized, DmaBufError>(DmaBufError::NoDescriptor),
{
    if desc.counts_fit() && desc.one_modifier() {
        layers_know_nothing_of_buffers(desc, desc.nb_layers as nat);
        if !known_format(desc.layers@[0].format) {
            let e = DmaBufError::UnsupportedFormat(desc.layers@[0].format);
            assert(desc.planes_of(0) == Ok::<Seq<PlaneLayout>, DmaBufError>(Seq::empty()));
            assert(desc.planes_of(1) == Err::<Seq<PlaneLayout>, DmaBufError>(e));
            a_bad_layer_is_final(desc, 1, desc.nb_layers as nat, e);
        }
    }
}

/// What a layer has wrong is its format or its counts.
proof fn layers_know_nothing_of_buffers(desc: DrmDescriptor, n: nat)
    ensures
        desc.planes_of(n) matches Err(e) ==> e is UnsupportedFormat || e is BadDescriptor,
    decreases n,
{
    if n > 0 {
        layers_know_nothing_of_buffers(desc, (n - 1) as nat);
    }
}

/// **What is out of place is what is named.** Of two planes in a shape that is not NV12, the
/// first layer is named where it could not begin a surface, whole or split, and the second where
/// it is that which does not go on with the first.
pub proof fn what_is_out_of_place_is_named(desc: DrmDescriptor)
    requires
        desc.counts_fit(),
        desc.one_modifier(),
        desc.planes_of(desc.nb_layers as nat) matches Ok(planes) && planes.len() == 2,
        !desc.is_whole(),
        !desc.is_split(),
    ensures
        ({
            let first = desc.layers@[0];
            let begins = (first.format == DRM_FORMAT_NV12 && first.nb_planes == 2) || (first.format
                == DRM_FORMAT_R8 && first.nb_planes == 1);
            desc.normalized() == Err::<Normalized, DmaBufError>(
                DmaBufError::UnsupportedFormat(
                    if begins {
                        desc.layers@[1].format
                    } else {
                        first.format
                    },
                ),
            )
        }),
{
    let first = desc.layers@[0];
    if !known_format(first.format) {
        let e = DmaBufError::UnsupportedFormat(first.format);
        assert(desc.planes_of(0) == Ok::<Seq<PlaneLayout>, DmaBufError>(Seq::empty()));
        assert(desc.planes_of(1) == Err::<Seq<PlaneLayout>, DmaBufError>(e));
        a_bad_layer_is_final(desc, 1, desc.nb_layers as nat, e);
    }
}

/// **A plane fits wherever it can be.** In any buffer in use, from its very beginning on and with
/// rows of any length, and nowhere before a buffer or in one that is not in use; and it is then
/// looked up in that buffer.
pub proof fn a_plane_fits_wherever_it_can_be(desc: DrmDescriptor, plane: DrmPlane)
    ensures
        desc.plane_fits(plane) <==> 0 <= plane.object_index && plane.object_index < desc.nb_objects
            && plane.offset > -1 && plane.pitch > -1,
        desc.plane_fits(plane) ==> desc.plane_at(plane).offset == plane.offset && desc.plane_at(
            plane,
        ).pitch == plane.pitch && desc.plane_at(plane).fd
            == desc.objects@[plane.object_index as int].fd,
{
}

} // verus!
