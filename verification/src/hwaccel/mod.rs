//! Hardware-accelerated decode: which path decode is on, and how it gives up.
//!
//! The framing question is not "turn on the accelerator" — it is *who owns the decoded
//! surface*. A surface decoded on the GPU is worth having only if it is sampled on the GPU
//! too, so decode and compositor have to agree before a session commits to hardware.
//!
//! The choice is made at run time. Hardware decode fails routinely in the field —
//! unsupported profile, too many reference frames, a virtual machine with no render node —
//! and it fails mid-session as often as at startup. So every give-up is recoverable and
//! lands on software decode without dropping the stream. [`FallbackPolicy`] is that
//! decision, as a state machine over metadata.
use crate::error::PipelineError;
use crate::text::{decimal, decimal_text, joined};
use vstd::prelude::*;
use vstd::string::*;

pub mod d3d11va;
pub mod dmabuf;
pub mod dx12_import;
pub mod export;
pub mod ffmpeg_hw;
pub mod import;
pub mod remote_handle;
pub mod vaapi;
pub mod vulkan_import;

pub use export::SurfaceExporter;
pub use import::{import_capability, mark_import_broken, GpuImporter, ImportState, SurfaceImport};

verus! {

/// The platform a build runs on, as far as decode backends tell platforms apart.
#[derive(Debug, Clone, Copy, PartialEq, Eq, Structural)]
pub enum Platform {
    /// Linux and its relatives.
    Unix,
    /// Windows.
    Windows,
    /// Anything else: no backend exists for it.
    Other,
}

/// What went into the running build.
#[derive(Debug, Clone, Copy, PartialEq, Eq, Structural)]
pub struct Build {
    /// Whether the hardware decode backends were compiled in.
    pub hwaccel: bool,
    /// The platform it was compiled for.
    pub platform: Platform,
}

/// How a texture lays its pixels out, as far as the import paths tell layouts apart.
#[derive(Debug, Clone, PartialEq, Eq)]
pub enum TextureFormat {
    /// Blue, green, red, alpha; one byte each.
    Bgra8Unorm,
    /// [`Self::Bgra8Unorm`] read through the sRGB curve.
    Bgra8UnormSrgb,
    /// Red, green, blue, alpha; one byte each.
    Rgba8Unorm,
    /// [`Self::Rgba8Unorm`] read through the sRGB curve.
    Rgba8UnormSrgb,
    /// A luma plane and an interleaved chroma plane of half the size.
    Nv12,
    /// A layout no import path describes, by name.
    Other(String),
}

impl TextureFormat {
    /// What the layout is called in a log line.
    pub open spec fn label(self) -> Seq<char> {
        match self {
            TextureFormat::Bgra8Unorm => "Bgra8Unorm"@,
            TextureFormat::Bgra8UnormSrgb => "Bgra8UnormSrgb"@,
            TextureFormat::Rgba8Unorm => "Rgba8Unorm"@,
            TextureFormat::Rgba8UnormSrgb => "Rgba8UnormSrgb"@,
            TextureFormat::Nv12 => "NV12"@,
            TextureFormat::Other(name) => name@,
        }
    }

    /// What the layout is called in a log line.
    pub fn name(&self) -> (name: &str)
        ensures
            name@ == self.label(),
    {
        match self {
            TextureFormat::Bgra8Unorm => "Bgra8Unorm",
            TextureFormat::Bgra8UnormSrgb => "Bgra8UnormSrgb",
            TextureFormat::Rgba8Unorm => "Rgba8Unorm",
            TextureFormat::Rgba8UnormSrgb => "Rgba8UnormSrgb",
            TextureFormat::Nv12 => "NV12",
            TextureFormat::Other(name) => name.as_str(),
        }
    }
}

/// The size of a texture: one layer of so many pixels by so many.
#[derive(Debug, Clone, Copy, PartialEq, Eq, Structural)]
pub struct Extent {
    /// Width in pixels.
    pub width: u32,
    /// Height in pixels.
    pub height: u32,
    /// How many layers.
    pub depth_or_array_layers: u32,
}

/// What a browser frame *is*, independent of how the platform hands it over.
///
/// The two single-plane import paths differ only in how the platform describes where the
/// pixels are; this is the half they share.
#[derive(Debug, Clone, PartialEq, Eq)]
pub struct FrameGeometry {
    /// Width in pixels.
    pub width: u32,
    /// Height in pixels.
    pub height: u32,
    /// Channel order as the producer wrote it.
    pub format: TextureFormat,
}

/// Whether a single-plane import can describe this layout.
pub open spec fn single_plane_format(format: TextureFormat) -> bool {
    format is Bgra8Unorm || format is Bgra8UnormSrgb || format is Rgba8Unorm || format
        is Rgba8UnormSrgb
}

impl FrameGeometry {
    /// What keeps a frame from a single-plane import: its layout first, then its size.
    pub open spec fn refusal(self) -> Option<Seq<char>> {
        if !single_plane_format(self.format) {
            Some("single-plane import supports BGRA8/RGBA8, not "@ + self.format.label())
        } else if self.width == 0 || self.height == 0 {
            Some(
                "browser frame has unusable dimensions "@ + decimal_text(self.width as nat) + "x"@
                    + decimal_text(self.height as nat),
            )
        } else {
            None
        }
    }

    /// Reject anything the single-plane import cannot describe.
    ///
    /// A frame in another layout, or with no pixels, imports *successfully* if waved
    /// through and then renders garbage.
    pub fn validate(self) -> (checked: Result<FrameGeometry, PipelineError>)
        ensures
            match checked {
                Ok(same) => self.refusal() is None && same == self,
                Err(PipelineError::GpuImport(why)) => self.refusal() == Some(why@),
                Err(_) => false,
            },
    {
        let fits: bool = match &self.format {
            TextureFormat::Bgra8Unorm => true,
            TextureFormat::Bgra8UnormSrgb => true,
            TextureFormat::Rgba8Unorm => true,
            TextureFormat::Rgba8UnormSrgb => true,
            _ => false,
        };
        if !fits {
            return Err(
                PipelineError::GpuImport(
                    joined("single-plane import supports BGRA8/RGBA8, not ", self.format.name()),
                ),
            );
        }
        if self.width == 0 || self.height == 0 {
            let mut why: String = String::from_str("browser frame has unusable dimensions ");
            why.append(decimal(self.width as u64).as_str());
            why.append("x");
            why.append(decimal(self.height as u64).as_str());
            return Err(PipelineError::GpuImport(why));
        }
        Ok(self)
    }

    /// The texture size for this frame: a single layer.
    pub fn extent(&self) -> (extent: Extent)
        ensures
            extent == (Extent {
                width: self.width,
                height: self.height,
                depth_or_array_layers: 1,
            }),
    {
        Extent { width: self.width, height: self.height, depth_or_array_layers: 1 }
    }
}

/// A hardware decode family this library knows how to drive.
#[derive(Debug, Clone, Copy, PartialEq, Eq, Hash, Structural)]
pub enum HwBackendKind {
    /// VA-API decode, exported as DMA-BUF and imported into Vulkan. Linux.
    Vaapi,
    /// D3D11VA decode, copied into a shared NV12 texture and opened by D3D12. Windows.
    D3d11Va,
}

/// The backend a build drives, if it has one.
pub open spec fn backend_of(build: Build) -> Option<HwBackendKind> {
    if !build.hwaccel {
        None
    } else {
        match build.platform {
            Platform::Unix => Some(HwBackendKind::Vaapi),
            Platform::Windows => Some(HwBackendKind::D3d11Va),
            Platform::Other => None,
        }
    }
}

impl HwBackendKind {
    /// The short stable identifier of a backend.
    pub open spec fn slug_text(self) -> Seq<char> {
        match self {
            HwBackendKind::Vaapi => "vaapi"@,
            HwBackendKind::D3d11Va => "d3d11va"@,
        }
    }

    /// A short stable identifier for logs.
    #[must_use]
    pub fn slug(self) -> (slug: &'static str)
        ensures
            slug@ == self.slug_text(),
    {
        match self {
            HwBackendKind::Vaapi => "vaapi",
            HwBackendKind::D3d11Va => "d3d11va",
        }
    }

    /// The backend a build would use, if any is compiled in.
    ///
    /// This is a fact about the *build*, not an availability check: whether the device
    /// actually opens is discovered by trying.
    #[must_use]
    pub fn for_this_platform(build: Build) -> (kind: Option<HwBackendKind>)
        ensures
            kind == backend_of(build),
    {
        if !build.hwaccel {
            return None;
        }
        match build.platform {
            Platform::Unix => Some(HwBackendKind::Vaapi),
            Platform::Windows => Some(HwBackendKind::D3d11Va),
            Platform::Other => None,
        }
    }
}

/// What the operator asked for. The default is [`Self::Auto`]; the other two exist so a
/// regression can be pinned down without recompiling.
#[derive(Debug, Clone, Copy, PartialEq, Eq, Structural)]
pub enum HwPreference {
    /// Try hardware, fall back to software on any give-up. What ships.
    Auto,
    /// Never attempt hardware.
    SoftwareOnly,
    /// Attempt hardware and never fall back — a give-up is a hard decode error.
    ///
    /// A *diagnostic* mode: without it a broken hardware path is invisible, because
    /// everything still plays, just on the CPU.
    HardwareOnly,
}

impl Default for HwPreference {
    fn default() -> (preference: HwPreference)
        ensures
            preference == HwPreference::Auto,
    {
        HwPreference::Auto
    }
}

/// Where decode is running.
#[derive(Debug, Clone, Copy, PartialEq, Eq, Structural)]
pub enum DecodePath {
    /// Frames come out as GPU surfaces from this backend.
    Hardware(HwBackendKind),
    /// Frames come out as packed RGBA in system memory.
    Software,
}

/// Why a hardware decode attempt gave up.
///
/// The variants are the real failure modes, each carrying enough to make the log line
/// actionable.
#[derive(Debug, Clone, PartialEq, Eq)]
#[non_exhaustive]
pub enum HwGiveUp {
    /// No backend is compiled for this platform/feature set.
    NotCompiled,
    /// The hardware device could not be opened: no render node, no driver, a virtual
    /// machine.
    DeviceUnavailable(String),
    /// The decoder exists but has no hardware config for this codec/profile.
    CodecUnsupported(HwBackendKind),
    /// Format negotiation offered no hardware pixel format — the usual shape of "this
    /// profile, bit depth, or reference-frame count is beyond the fixed-function block".
    FormatRejected(HwBackendKind),
    /// The hardware decoder opened but then failed while decoding.
    DecodeFailed(String),
    /// A decoded surface could not be exported to a shareable handle. Often transient (a
    /// pool exhausted for a frame), which is why it gets a budget rather than an immediate
    /// fallback.
    ExportFailed(String),
}

impl HwGiveUp {
    /// The give-up as a log line carries it.
    pub open spec fn text(self) -> Seq<char> {
        match self {
            HwGiveUp::NotCompiled => "no hardware decode backend compiled for this build"@,
            HwGiveUp::DeviceUnavailable(why) => "hardware device unavailable: "@ + why@,
            HwGiveUp::CodecUnsupported(kind) => kind.slug_text() + " has no config for this codec"@,
            HwGiveUp::FormatRejected(kind) => kind.slug_text()
                + " offered no hardware pixel format for this stream"@,
            HwGiveUp::DecodeFailed(why) => "hardware decode failed: "@ + why@,
            HwGiveUp::ExportFailed(why) => "surface export failed: "@ + why@,
        }
    }

    /// The give-up as a log line carries it.
    pub fn message(&self) -> (line: String)
        ensures
            line@ == self.text(),
    {
        match self {
            HwGiveUp::NotCompiled => String::from_str(
                "no hardware decode backend compiled for this build",
            ),
            HwGiveUp::DeviceUnavailable(why) => joined(
                "hardware device unavailable: ",
                why.as_str(),
            ),
            HwGiveUp::CodecUnsupported(kind) => joined(
                kind.slug(),
                " has no config for this codec",
            ),
            HwGiveUp::FormatRejected(kind) => joined(
                kind.slug(),
                " offered no hardware pixel format for this stream",
            ),
            HwGiveUp::DecodeFailed(why) => joined("hardware decode failed: ", why.as_str()),
            HwGiveUp::ExportFailed(why) => joined("surface export failed: ", why.as_str()),
        }
    }

    /// Whether this failure is worth tolerating for a few frames before giving up on
    /// hardware entirely. Setup failures are permanent by nature; a failed export of one
    /// surface usually is not.
    pub fn is_transient(&self) -> (transient: bool)
        ensures
            transient == (self is ExportFailed),
    {
        match self {
            HwGiveUp::ExportFailed(_) => true,
            _ => false,
        }
    }
}

/// How many transient export failures to absorb before concluding that hardware is not
/// working. Small on purpose: a mirror that drops every third frame is worse than one
/// decoded on the CPU.
pub const TRANSIENT_BUDGET: u32 = 3;

/// The hardware/software decision for one decode session.
///
/// Once it falls back it stays fallen back for the rest of the session: the stream's
/// parameters are what failed, and those do not usually improve mid-session.
#[derive(Debug)]
pub struct FallbackPolicy {
    preference: HwPreference,
    path: DecodePath,
    transient_seen: u32,
    notice: Option<Notice>,
}

/// Something to be said of a session's hardware decoding, once.
#[derive(Debug, Clone, PartialEq, Eq)]
pub enum Notice {
    /// A failure was absorbed: the frame is dropped and decode stays on hardware.
    Hiccup {
        /// What failed.
        reason: HwGiveUp,
        /// How many have been absorbed, this one with them.
        seen: u32,
    },
    /// Decode is in software for the rest of the session. A silent downgrade is a performance
    /// regression with no symptom but heat, so this is to be said loudly.
    FellBack(HwGiveUp),
}

/// What a [`FallbackPolicy`] has decided so far.
pub struct PolicyState {
    /// What the operator asked for.
    pub preference: HwPreference,
    /// Where decode is running.
    pub path: DecodePath,
    /// How many transient failures have been absorbed.
    pub transient_seen: nat,
    /// What is to be said and has not been yet.
    pub notice: Option<Notice>,
}

/// What the decode loop should do about a give-up.
#[derive(Debug, Clone, PartialEq, Eq)]
pub enum Reaction {
    /// Drop this frame and stay on hardware — the failure was within budget.
    DropFrame,
    /// Rebuild the decoder in software and carry on. The mirror survives.
    FallBackToSoftware,
    /// Surface the failure to the caller: the operator asked for hardware only.
    Fail(HwGiveUp),
}

impl PolicyState {
    /// A session's first decision.
    pub open spec fn start(preference: HwPreference, build: Build) -> PolicyState {
        PolicyState {
            preference,
            path: match backend_of(build) {
                Some(kind) if preference != HwPreference::SoftwareOnly => DecodePath::Hardware(
                    kind,
                ),
                _ => DecodePath::Software,
            },
            transient_seen: 0,
            notice: None,
        }
    }

    /// Whether hardware is to be attempted.
    pub open spec fn wants_hardware(self) -> bool {
        self.path is Hardware
    }

    /// How the decode loop answers a give-up.
    pub open spec fn reaction(self, reason: HwGiveUp) -> Reaction {
        if self.preference == HwPreference::HardwareOnly {
            Reaction::Fail(reason)
        } else if self.wants_hardware() && reason is ExportFailed && self.transient_seen
            < TRANSIENT_BUDGET {
            Reaction::DropFrame
        } else {
            Reaction::FallBackToSoftware
        }
    }

    /// What is decided once a give-up has been answered.
    pub open spec fn after(self, reason: HwGiveUp) -> PolicyState {
        match self.reaction(reason) {
            Reaction::Fail(_) => self,
            Reaction::DropFrame => PolicyState {
                transient_seen: self.transient_seen + 1,
                notice: Some(Notice::Hiccup { reason, seen: (self.transient_seen + 1) as u32 }),
                ..self
            },
            Reaction::FallBackToSoftware => if self.switches(reason) {
                PolicyState {
                    path: DecodePath::Software,
                    notice: Some(Notice::FellBack(reason)),
                    ..self
                }
            } else {
                self
            },
        }
    }

    /// Whether a give-up is the one that moves the session to software. It alone is announced.
    pub open spec fn switches(self, reason: HwGiveUp) -> bool {
        self.wants_hardware() && self.reaction(reason) is FallBackToSoftware
    }

    /// How often a run of give-ups announces the downgrade.
    pub open spec fn announcements(self, reasons: Seq<HwGiveUp>) -> nat
        decreases reasons.len(),
    {
        if reasons.len() == 0 {
            0
        } else {
            self.announcements(reasons.drop_last()) + if self.after_all(
                reasons.drop_last(),
            ).switches(reasons.last()) {
                1nat
            } else {
                0
            }
        }
    }

    /// What is decided once a run of give-ups has been answered.
    pub open spec fn after_all(self, reasons: Seq<HwGiveUp>) -> PolicyState
        decreases reasons.len(),
    {
        if reasons.len() == 0 {
            self
        } else {
            self.after_all(reasons.drop_last()).after(reasons.last())
        }
    }
}

impl View for FallbackPolicy {
    type V = PolicyState;

    closed spec fn view(&self) -> PolicyState {
        PolicyState {
            preference: self.preference,
            path: self.path,
            transient_seen: self.transient_seen as nat,
            notice: self.notice,
        }
    }
}

impl FallbackPolicy {
    /// Start a session with the given preference, on the backend the build has.
    #[must_use]
    pub fn new(preference: HwPreference, build: Build) -> (policy: FallbackPolicy)
        ensures
            policy@ == PolicyState::start(preference, build),
    {
        let path: DecodePath = match HwBackendKind::for_this_platform(build) {
            Some(kind) => if preference == HwPreference::SoftwareOnly {
                DecodePath::Software
            } else {
                DecodePath::Hardware(kind)
            },
            None => DecodePath::Software,
        };
        FallbackPolicy { preference, path, transient_seen: 0, notice: None }
    }

    /// The path decode should currently take.
    #[must_use]
    pub fn path(&self) -> (path: DecodePath)
        ensures
            path == self@.path,
    {
        self.path
    }

    /// Whether the decode loop should attempt a hardware decoder right now.
    #[must_use]
    pub fn wants_hardware(&self) -> (wants: bool)
        ensures
            wants == self@.wants_hardware(),
    {
        match self.path {
            DecodePath::Hardware(_) => true,
            DecodePath::Software => false,
        }
    }

    /// Record a hardware give-up and decide what happens next. What there is to say of it is
    /// for [`Self::take_notice`]: the fallback itself exactly once a session, with the reason
    /// for it, so that a per-frame failure cannot become a per-frame log line.
    pub fn give_up(&mut self, reason: HwGiveUp) -> (reaction: Reaction)
        ensures
            reaction == old(self)@.reaction(reason),
            final(self)@ == old(self)@.after(reason),
    {
        if self.preference == HwPreference::HardwareOnly {
            return Reaction::Fail(reason);
        }
        if !self.wants_hardware() {
            // Already software. A stray report must not decide anything again.
            return Reaction::FallBackToSoftware;
        }
        if reason.is_transient() && self.transient_seen < TRANSIENT_BUDGET {
            self.transient_seen += 1;
            self.notice = Some(Notice::Hiccup { reason, seen: self.transient_seen });
            return Reaction::DropFrame;
        }
        self.path = DecodePath::Software;
        self.notice = Some(Notice::FellBack(reason));
        Reaction::FallBackToSoftware
    }

    /// What is to be said of the last give-up, where that has not been said yet.
    pub fn take_notice(&mut self) -> (notice: Option<Notice>)
        ensures
            notice == old(self)@.notice,
            final(self)@ == (PolicyState { notice: None, ..old(self)@ }),
    {
        self.notice.take()
    }

    /// Whether `kind` is the backend that hardware decode is confirmed to run on, now that
    /// its decoder has opened. Nothing is decided by this: it is what the announcement of
    /// an active hardware decoder asks.
    pub fn confirm_hardware(&self, kind: HwBackendKind) -> (active: bool)
        ensures
            active == (self@.path == DecodePath::Hardware(kind)),
    {
        self.path == DecodePath::Hardware(kind)
    }
}

/// **Fallback is permanent.** A session in software stays in software, whatever is
/// reported to it afterwards.
pub proof fn fallback_is_permanent(policy: PolicyState, reasons: Seq<HwGiveUp>)
    requires
        !policy.wants_hardware(),
    ensures
        policy.after_all(reasons).path == DecodePath::Software,
        policy.after_all(reasons) == policy,
    decreases reasons.len(),
{
    if reasons.len() > 0 {
        fallback_is_permanent(policy, reasons.drop_last());
    }
}

/// **The downgrade is announced once, with its reason.** Whatever is reported to a session, it
/// announces its move to software at most once, and does so exactly where it made one; what it
/// then has to say, until it is said, is the report that moved it.
pub proof fn the_downgrade_is_announced_once(policy: PolicyState, reasons: Seq<HwGiveUp>)
    ensures
        policy.announcements(reasons) <= 1,
        policy.announcements(reasons) == 1 <==> policy.wants_hardware() && !policy.after_all(
            reasons,
        ).wants_hardware(),
        policy.announcements(reasons) == 1 ==> (policy.after_all(reasons).notice matches Some(
            Notice::FellBack(reason),
        ) && reasons.contains(reason)),
    decreases reasons.len(),
{
    if reasons.len() > 0 {
        let fewer = reasons.drop_last();
        the_downgrade_is_announced_once(policy, fewer);
        if !policy.wants_hardware() {
            fallback_is_permanent(policy, fewer);
        }
        assert(reasons[reasons.len() - 1] == reasons.last());
        if policy.announcements(fewer) == 1 {
            let reason = policy.after_all(fewer).notice->0->FellBack_0;
            let at = choose|at: int| 0 <= at < fewer.len() && fewer[at] == reason;
            assert(reasons[at] == reason);
        }
    }
}

/// **Hardware only means hardware only.** Under that preference no report moves a session
/// off its path, and every report is handed back as the failure that it is.
pub proof fn hardware_only_never_switches(policy: PolicyState, reasons: Seq<HwGiveUp>)
    requires
        policy.preference == HwPreference::HardwareOnly,
    ensures
        policy.after_all(reasons) == policy,
        forall|reason: HwGiveUp|
            #[trigger] policy.after_all(reasons).reaction(reason) == Reaction::Fail(reason),
    decreases reasons.len(),
{
    if reasons.len() > 0 {
        hardware_only_never_switches(policy, reasons.drop_last());
    }
}

/// **The budget is small and spent once.** Over any run of reports a session absorbs at
/// most [`TRANSIENT_BUDGET`] failures in all, and its preference never changes.
pub proof fn transient_failures_are_bounded(
    preference: HwPreference,
    build: Build,
    reasons: Seq<HwGiveUp>,
)
    ensures
        PolicyState::start(preference, build).after_all(reasons).transient_seen <= TRANSIENT_BUDGET,
        PolicyState::start(preference, build).after_all(reasons).preference == preference,
    decreases reasons.len(),
{
    if reasons.len() > 0 {
        transient_failures_are_bounded(preference, build, reasons.drop_last());
    }
}

/// **A failure that is not a failed export falls back at once**, unless hardware was the
/// only thing asked for.
pub proof fn setup_failures_fall_back_at_once(policy: PolicyState, reason: HwGiveUp)
    requires
        policy.preference != HwPreference::HardwareOnly,
        !(reason is ExportFailed),
    ensures
        policy.reaction(reason) == Reaction::FallBackToSoftware,
        !policy.after(reason).wants_hardware(),
{
}

/// **Exactly the budget is tolerated.** A session on hardware that may fall back drops a
/// frame for each of the first [`TRANSIENT_BUDGET`] failed exports, and falls back on the
/// one after them.
pub proof fn the_budget_is_tolerated_then_is_not(
    preference: HwPreference,
    build: Build,
    reasons: Seq<HwGiveUp>,
    next: HwGiveUp,
)
    requires
        preference == HwPreference::Auto,
        backend_of(build) is Some,
        reasons.len() <= TRANSIENT_BUDGET,
        forall|i: int| 0 <= i < reasons.len() ==> (#[trigger] reasons[i]) is ExportFailed,
        next is ExportFailed,
    ensures
        ({
            let policy = PolicyState::start(preference, build).after_all(reasons);
            &&& policy.wants_hardware()
            &&& policy.transient_seen == reasons.len()
            &&& policy.reaction(next) == if reasons.len() < TRANSIENT_BUDGET {
                Reaction::DropFrame
            } else {
                Reaction::FallBackToSoftware
            }
        }),
    decreases reasons.len(),
{
    if reasons.len() > 0 {
        assert forall|i: int| 0 <= i < reasons.drop_last().len() implies (
        #[trigger] reasons.drop_last()[i]) is ExportFailed by {
            assert(reasons[i] is ExportFailed);
        }
        assert(reasons[reasons.len() - 1] is ExportFailed);
        the_budget_is_tolerated_then_is_not(preference, build, reasons.drop_last(), next);
    }
}

/// **Hardware is tried where it can be and is not forbidden.** A session starts on hardware
/// exactly where the build has a backend and the operator did not ask for software only, and
/// then on that backend; nothing has been absorbed or announced yet.
pub proof fn hardware_is_tried_where_it_can_be(preference: HwPreference, build: Build)
    ensures
        ({
            let policy = PolicyState::start(preference, build);
            let backend = match build.platform {
                Platform::Unix => Some(HwBackendKind::Vaapi),
                Platform::Windows => Some(HwBackendKind::D3d11Va),
                Platform::Other => None,
            };
            &&& policy.wants_hardware() <==> build.hwaccel && build.platform != Platform::Other
                && preference != HwPreference::SoftwareOnly
            &&& policy.wants_hardware() ==> policy.path == DecodePath::Hardware(backend->0)
            &&& policy.preference == preference
            &&& policy.transient_seen == 0
            &&& policy.notice is None
        }),
{
}

/// **A frame is refused for what it is, and for nothing else.** It is taken where it is one of
/// the RGBA family and has pixels, and refused otherwise.
pub proof fn a_frame_is_refused_for_what_it_is(frame: FrameGeometry)
    ensures
        frame.refusal() is None <==> frame.width > 0 && frame.height > 0 && (frame.format
            is Bgra8Unorm || frame.format is Bgra8UnormSrgb || frame.format is Rgba8Unorm
            || frame.format is Rgba8UnormSrgb),
{
}

/// **A give-up changes where decode runs only by falling back.** What it answers and what it
/// leaves behind agree: a dropped frame leaves the session on hardware with one more absorbed, a
/// fallback leaves it in software, and a failure leaves it as it was.
pub proof fn an_answer_and_its_outcome_agree(policy: PolicyState, reason: HwGiveUp)
    requires
        policy.transient_seen < u32::MAX,
    ensures
        ({
            let after = policy.after(reason);
            match policy.reaction(reason) {
                Reaction::Fail(why) => why == reason && after == policy,
                Reaction::DropFrame => {
                    &&& after.path == policy.path
                    &&& policy.wants_hardware()
                    &&& after.transient_seen == policy.transient_seen + 1
                    &&& after.notice == Some(
                        Notice::Hiccup { reason, seen: after.transient_seen as u32 },
                    )
                },
                Reaction::FallBackToSoftware => {
                    &&& after.path == DecodePath::Software
                    &&& after.transient_seen == policy.transient_seen
                },
            }
        }),
{
}

} // verus!
