//! The render-thread half of hardware decode: whether the compositor's device can take a
//! decoder's surfaces, as recorded when the device was opened.
//!
//! Both halves of the zero-copy path have to agree, and they are set up at opposite ends
//! of the program. The decode side asks here before it commits to a hardware decoder,
//! because the render thread has no way to tell a decoder that its surfaces land nowhere.
use super::{backend_of, Build, HwBackendKind};
use crate::error::PipelineError;
use vstd::prelude::*;
use vstd::string::*;

verus! {

/// Whether the compositor's device can take a hardware decoder's surfaces.
#[derive(Debug, Clone, Copy, PartialEq, Eq, Structural)]
pub enum SurfaceImport {
    /// Surfaces from this backend import zero-copy.
    Supported(HwBackendKind),
    /// No import path — anything decoded on the GPU would have to be read back, which
    /// costs more than it saves. Decode belongs on the CPU.
    Unsupported,
}

impl SurfaceImport {
    /// The capability as a log line carries it.
    pub fn label(&self) -> (label: &'static str)
        ensures
            label@ == match *self {
                SurfaceImport::Supported(kind) => kind.slug_text(),
                SurfaceImport::Unsupported => "none"@,
            },
    {
        match self {
            SurfaceImport::Supported(kind) => kind.slug(),
            SurfaceImport::Unsupported => "none",
        }
    }
}

/// What is known of the most recently opened compositor device.
#[derive(Debug, Clone, Copy, PartialEq, Eq, Structural)]
pub enum ImportState {
    /// No device has been opened yet.
    Unknown,
    /// The device opened with the interop extensions.
    Yes,
    /// The device would not open that way, or imports have proven unusable.
    No,
}

/// What a backend, or the lack of one, can import.
pub open spec fn import_by(build: Build) -> SurfaceImport {
    match backend_of(build) {
        Some(kind) => SurfaceImport::Supported(kind),
        None => SurfaceImport::Unsupported,
    }
}

/// What a device can import, going by what is known of it.
pub open spec fn capability_of(state: ImportState, build: Build) -> SurfaceImport {
    if state == ImportState::Yes {
        import_by(build)
    } else {
        SurfaceImport::Unsupported
    }
}

/// What the most recently opened compositor device can import.
///
/// [`SurfaceImport::Unsupported`] before any compositor exists, which is the conservative
/// answer: without a compositor there is nothing to import *into*.
#[must_use]
pub fn import_capability(state: ImportState, build: Build) -> (capability: SurfaceImport)
    ensures
        capability == capability_of(state, build),
{
    match state {
        ImportState::Yes => backend_import(build),
        _ => SurfaceImport::Unsupported,
    }
}

/// What a build's backend can import.
fn backend_import(build: Build) -> (capability: SurfaceImport)
    ensures
        capability == import_by(build),
{
    match HwBackendKind::for_this_platform(build) {
        Some(kind) => SurfaceImport::Supported(kind),
        None => SurfaceImport::Unsupported,
    }
}

/// Record that GPU surface import has proven unusable, so the next session does not try.
///
/// Returns whether this is news: the first such report is worth a warning, and the ones
/// after it say nothing that is not already known.
pub fn mark_import_broken(state: &mut ImportState) -> (news: bool)
    ensures
        *final(state) == ImportState::No,
        news == (*old(state) != ImportState::No),
{
    let news: bool = *state != ImportState::No;
    *state = ImportState::No;
    news
}

/// Imports decoder surfaces into the compositor's device.
#[derive(Debug)]
pub struct GpuImporter {
    kind: HwBackendKind,
}

impl GpuImporter {
    /// The backend whose surfaces this importer takes.
    pub closed spec fn backend(self) -> HwBackendKind {
        self.kind
    }

    /// Record how opening an interop-capable render device went, and build its importer.
    ///
    /// `opened` is what the platform's device open came to, or `None` for a build that has
    /// no backend and so never tried. `Ok(None)` means this build has no hardware backend
    /// at all — expected, and not a downgrade worth logging. `Err` means a backend exists
    /// but its device could not be opened, which *is* worth logging.
    pub fn open_device(
        state: &mut ImportState,
        build: Build,
        opened: Option<Result<(), PipelineError>>,
    ) -> (importer: Result<Option<GpuImporter>, PipelineError>)
        requires
            opened is Some == backend_of(build) is Some,
        ensures
            match opened {
                Some(Ok(_)) => {
                    &&& *final(state) == ImportState::Yes
                    &&& importer matches Ok(Some(built))
                    &&& Some(built.backend()) == backend_of(build)
                },
                Some(Err(e)) => {
                    &&& *final(state) == ImportState::No
                    &&& importer == Err::<Option<GpuImporter>, PipelineError>(e)
                },
                None => {
                    &&& *final(state) == ImportState::No
                    &&& importer == Ok::<Option<GpuImporter>, PipelineError>(None)
                },
            },
    {
        match HwBackendKind::for_this_platform(build) {
            Some(kind) => match opened {
                Some(Ok(())) => {
                    *state = ImportState::Yes;
                    Ok(Some(GpuImporter { kind }))
                },
                Some(Err(e)) => {
                    *state = ImportState::No;
                    Err(e)
                },
                None => {
                    *state = ImportState::No;
                    Ok(None)
                },
            },
            None => {
                *state = ImportState::No;
                Ok(None)
            },
        }
    }

    /// What this importer can take.
    #[must_use]
    pub fn capability(&self) -> (capability: SurfaceImport)
        ensures
            capability == SurfaceImport::Supported(self.backend()),
    {
        SurfaceImport::Supported(self.kind)
    }

    /// The backend through which a build imports one decoder surface.
    pub fn import_backend(build: Build) -> (kind: Result<HwBackendKind, PipelineError>)
        ensures
            match kind {
                Ok(kind) => backend_of(build) == Some(kind),
                Err(PipelineError::GpuImport(why)) => {
                    &&& backend_of(build) is None
                    &&& why@ == "this build has no GPU surface importer"@
                },
                Err(_) => false,
            },
    {
        match HwBackendKind::for_this_platform(build) {
            Some(kind) => Ok(kind),
            None => Err(
                PipelineError::GpuImport(String::from_str("this build has no GPU surface importer")),
            ),
        }
    }
}

/// **A decoder is offered hardware only where its surfaces have somewhere to go.** What is
/// importable is a backend of this very build, and only once a device has been opened for
/// it and has not been found broken since.
pub proof fn importable_surfaces_have_a_device(
    state: ImportState,
    build: Build,
    kind: HwBackendKind,
)
    requires
        capability_of(state, build) == SurfaceImport::Supported(kind),
    ensures
        state == ImportState::Yes,
        backend_of(build) == Some(kind),
{
}

/// **A device that opened takes what its build decodes.** Where the build has a backend its
/// surfaces are importable exactly once a device was opened for them, and where it has none
/// nothing ever is.
pub proof fn a_device_that_opened_takes_what_is_decoded(state: ImportState, build: Build)
    ensures
        capability_of(state, build) == SurfaceImport::Unsupported <==> state != ImportState::Yes
            || backend_of(build) is None,
        backend_of(build) matches Some(kind) ==> capability_of(ImportState::Yes, build)
            == SurfaceImport::Supported(kind),
{
}

} // verus!
