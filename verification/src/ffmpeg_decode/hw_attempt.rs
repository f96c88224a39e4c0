//! The hardware-decode attempt for one decode session: the policy, plus whatever is
//! currently attached to the decoder.
//!
//! The calls that open devices and export surfaces are made by whoever drives this; each
//! reports what came of it and is told what to do next.
use crate::error::PipelineError;
use crate::hwaccel::{
    backend_of, Build, DecodePath, FallbackPolicy, HwBackendKind, HwGiveUp, HwPreference, Notice,
    PolicyState, Reaction, SurfaceImport,
};
use vstd::prelude::*;
use vstd::string::*;

verus! {

/// What happened when a decoded frame was offered to the hardware export path.
#[derive(Debug, Clone, Copy, PartialEq, Eq, Structural)]
pub enum Export {
    /// A GPU surface, ready for the compositor to import.
    Gpu,
    /// Not a hardware frame — the software conversion applies.
    Software,
    /// Export failed within budget; drop this frame and keep going.
    Dropped,
    /// Hardware has been abandoned; rebuild the decoder in software.
    Restart,
}

/// What came of the last step of attaching a hardware decoder.
#[derive(Debug)]
pub enum AttachEvent {
    /// Nothing has been tried yet.
    Begin,
    /// The platform's decode device was opened, or was not.
    Opened(Result<(), HwGiveUp>),
    /// The surface exporter for that device was built, or was not.
    ExporterBuilt(Result<(), HwGiveUp>),
    /// The decoder was pointed at the device and will produce this pixel format, or could
    /// not be.
    Attached(Result<i32, HwGiveUp>),
}

/// What to do next about attaching a hardware decoder.
#[derive(Debug)]
pub enum AttachAction {
    /// Open this backend's decode device.
    OpenDevice(HwBackendKind),
    /// Build the surface exporter for the open device.
    BuildExporter,
    /// Point the unopened decoder at the device.
    AttachDecoder,
    /// Nothing more: the decoder opens as it now stands, on hardware or not.
    Done,
    /// The session fails: hardware was the only thing asked for.
    Fail(PipelineError),
}

/// What an attempt has decided so far.
pub struct AttemptState {
    /// The hardware/software decision.
    pub policy: PolicyState,
    /// The pixel format a frame carries when it really is a GPU surface, while a hardware
    /// decoder is attached.
    pub live: Option<i32>,
}

impl AttemptState {
    /// Only a session on hardware has a hardware decoder attached.
    pub open spec fn well_formed(self) -> bool {
        self.live is Some ==> self.policy.wants_hardware()
    }

    /// The state once a give-up has been answered. A refusal to fall back leaves the
    /// decoder attached; anything else lets go of it, a dropped frame included.
    pub open spec fn given_up(self, reason: HwGiveUp) -> AttemptState {
        AttemptState {
            policy: self.policy.after(reason),
            live: if self.policy.reaction(reason) is Fail {
                self.live
            } else {
                None
            },
        }
    }

    /// Whether a frame in this pixel format is one for the exporter.
    pub open spec fn exports(self, format: i32) -> bool {
        self.live == Some(format)
    }

    /// What becomes of a frame that was handed to the exporter with this outcome; `None`
    /// where the session fails, because hardware was the only thing asked for.
    pub open spec fn verdict(self, outcome: Option<Result<(), HwGiveUp>>) -> Option<Export> {
        match outcome {
            None => Some(Export::Software),
            Some(Ok(_)) => Some(Export::Gpu),
            Some(Err(reason)) => match self.policy.reaction(reason) {
                Reaction::DropFrame => Some(Export::Dropped),
                Reaction::FallBackToSoftware => Some(Export::Restart),
                Reaction::Fail(_) => None,
            },
        }
    }

    /// The state after that frame: only a fallback lets go of the decoder.
    pub open spec fn after_export(self, outcome: Option<Result<(), HwGiveUp>>) -> AttemptState {
        match outcome {
            Some(Err(reason)) => AttemptState {
                policy: self.policy.after(reason),
                live: if self.policy.reaction(reason) is FallBackToSoftware {
                    None
                } else {
                    self.live
                },
            },
            _ => self,
        }
    }

    /// Whether the first decision of a session is a give-up: hardware is to be attempted, and
    /// the compositor's device, where the build has a compositor at all, cannot import what it
    /// would produce.
    pub open spec fn starts_blind(
        preference: HwPreference,
        build: Build,
        import: Option<SurfaceImport>,
    ) -> bool {
        PolicyState::start(preference, build).wants_hardware() && import == Some(
            SurfaceImport::Unsupported,
        )
    }

    /// Whether this is the first state of a session that may fall back.
    pub open spec fn is_start(
        self,
        preference: HwPreference,
        build: Build,
        import: Option<SurfaceImport>,
    ) -> bool {
        let policy = PolicyState::start(preference, build);
        &&& self.live is None
        &&& if AttemptState::starts_blind(preference, build, import) {
            &&& self.policy == (PolicyState {
                path: DecodePath::Software,
                notice: self.policy.notice,
                ..policy
            })
            &&& self.policy.notice matches Some(
                Notice::FellBack(HwGiveUp::DeviceUnavailable(why)),
            ) && why@ == "the compositor's device cannot import GPU surfaces"@
        } else {
            self.policy == policy
        }
    }
}

/// The hardware-decode attempt for one decode session.
#[derive(Debug)]
pub struct HwAttempt {
    policy: FallbackPolicy,
    live: Option<i32>,
}

impl View for HwAttempt {
    type V = AttemptState;

    closed spec fn view(&self) -> AttemptState {
        AttemptState { policy: self.policy@, live: self.live }
    }
}

impl HwAttempt {
    /// Decide whether to try hardware at all.
    ///
    /// The compositor's import capability is part of the decision, not an afterthought:
    /// decoding to GPU surfaces that nothing can sample is strictly worse than decoding on
    /// the CPU, and the render thread has no way to tell the decoder it is dropping
    /// everything it sends. Where hardware was the only thing asked for, that is an error.
    pub fn new(
        preference: HwPreference,
        build: Build,
        import: Option<SurfaceImport>,
    ) -> (attempt: Result<HwAttempt, PipelineError>)
        ensures
            match attempt {
                Ok(attempt) => {
                    &&& attempt@.is_start(preference, build, import)
                    &&& attempt@.well_formed()
                    &&& !(AttemptState::starts_blind(preference, build, import) && preference
                        == HwPreference::HardwareOnly)
                },
                Err(PipelineError::HwDecode(why)) => {
                    &&& AttemptState::starts_blind(preference, build, import)
                    &&& preference == HwPreference::HardwareOnly
                    &&& why@ == "hardware device unavailable: "@
                        + "the compositor's device cannot import GPU surfaces"@
                },
                Err(_) => false,
            },
    {
        let mut policy: FallbackPolicy = FallbackPolicy::new(preference, build);
        if policy.wants_hardware() {
            if let Some(SurfaceImport::Unsupported) = import {
                let reason = HwGiveUp::DeviceUnavailable(
                    String::from_str("the compositor's device cannot import GPU surfaces"),
                );
                if let Reaction::Fail(reason) = policy.give_up(reason) {
                    return Err(PipelineError::HwDecode(reason.message()));
                }
            }
        }
        Ok(HwAttempt { policy, live: None })
    }

    /// Whether a hardware decoder should be attached to the next decoder that is opened.
    pub fn wants_hardware(&self) -> (wants: bool)
        ensures
            wants == self@.policy.wants_hardware(),
    {
        self.policy.wants_hardware()
    }

    /// What is to be said of the last give-up, where that has not been said yet.
    pub fn take_notice(&mut self) -> (notice: Option<Notice>)
        ensures
            notice == old(self)@.policy.notice,
            final(self)@ == (AttemptState {
                policy: PolicyState { notice: None, ..old(self)@.policy },
                ..old(self)@
            }),
    {
        self.policy.take_notice()
    }

    /// Whether hardware decode is actually running on `kind`: its decoder is attached, and was
    /// not merely attempted.
    pub fn confirm_hardware(&self, kind: HwBackendKind) -> (active: bool)
        ensures
            active == (self@.live is Some && self@.policy.path == DecodePath::Hardware(kind)),
    {
        self.live.is_some() && self.policy.confirm_hardware(kind)
    }

    /// Feed a give-up through the policy, turning a refusal into an error only when the
    /// operator asked for one.
    pub fn give_up(&mut self, reason: HwGiveUp) -> (answer: Result<(), PipelineError>)
        requires
            old(self)@.well_formed(),
        ensures
            final(self)@ == old(self)@.given_up(reason),
            final(self)@.well_formed(),
            match answer {
                Ok(_) => !(old(self)@.policy.reaction(reason) is Fail),
                Err(PipelineError::HwDecode(why)) => {
                    &&& old(self)@.policy.reaction(reason) is Fail
                    &&& why@ == reason.text()
                },
                Err(_) => false,
            },
    {
        match self.policy.give_up(reason) {
            Reaction::Fail(reason) => Err(PipelineError::HwDecode(reason.message())),
            _ => {
                self.live = None;
                Ok(())
            },
        }
    }

    /// [`Self::give_up`] while a decoder is being attached.
    fn abandon(&mut self, reason: HwGiveUp) -> (action: AttachAction)
        requires
            old(self)@.well_formed(),
        ensures
            final(self)@ == old(self)@.given_up(reason),
            final(self)@.well_formed(),
            match action {
                AttachAction::Done => !(old(self)@.policy.reaction(reason) is Fail),
                AttachAction::Fail(PipelineError::HwDecode(why)) => {
                    &&& old(self)@.policy.reaction(reason) is Fail
                    &&& why@ == reason.text()
                },
                _ => false,
            },
    {
        match self.give_up(reason) {
            Ok(()) => AttachAction::Done,
            Err(e) => AttachAction::Fail(e),
        }
    }

    /// Attach a hardware decoder to an unopened context, if the policy still wants one.
    ///
    /// Never fails the session by itself: an unavailable device or an unsupported codec
    /// becomes a fallback and a software decoder, unless the operator asked for
    /// [`HwPreference::HardwareOnly`].
    pub fn attach(&mut self, build: Build, event: AttachEvent) -> (action: AttachAction)
        requires
            old(self)@.well_formed(),
            !(event is Begin) ==> old(self)@.policy.wants_hardware(),
        ensures
            final(self)@.well_formed(),
            ({
                let before = if event is Begin {
                    AttemptState { live: None, ..old(self)@ }
                } else {
                    old(self)@
                };
                let refused = match event {
                    AttachEvent::Begin => if before.policy.wants_hardware() && backend_of(
                        build,
                    ) is None {
                        Some(HwGiveUp::NotCompiled)
                    } else {
                        None
                    },
                    AttachEvent::Opened(Err(reason)) => Some(reason),
                    AttachEvent::ExporterBuilt(Err(reason)) => Some(reason),
                    AttachEvent::Attached(Err(reason)) => Some(reason),
                    _ => None,
                };
                match refused {
                    Some(reason) => {
                        &&& final(self)@ == before.given_up(reason)
                        &&& match action {
                            AttachAction::Done => !(before.policy.reaction(reason) is Fail),
                            AttachAction::Fail(PipelineError::HwDecode(why)) => {
                                &&& before.policy.reaction(reason) is Fail
                                &&& why@ == reason.text()
                            },
                            _ => false,
                        }
                    },
                    None => match event {
                        AttachEvent::Begin => {
                            &&& final(self)@ == before
                            &&& action == match backend_of(build) {
                                Some(kind) if before.policy.wants_hardware() =>
                                    AttachAction::OpenDevice(kind),
                                _ => AttachAction::Done,
                            }
                        },
                        AttachEvent::Opened(_) => {
                            &&& final(self)@ == before
                            &&& action is BuildExporter
                        },
                        AttachEvent::ExporterBuilt(_) => {
                            &&& final(self)@ == before
                            &&& action is AttachDecoder
                        },
                        AttachEvent::Attached(format) => {
                            &&& final(self)@ == (AttemptState { live: Some(format->Ok_0), ..before })
                            &&& action is Done
                        },
                    },
                }
            }),
    {
        match event {
            AttachEvent::Begin => {
                self.live = None;
                if !self.policy.wants_hardware() {
                    return AttachAction::Done;
                }
                match HwBackendKind::for_this_platform(build) {
                    Some(kind) => AttachAction::OpenDevice(kind),
                    None => self.abandon(HwGiveUp::NotCompiled),
                }
            },
            AttachEvent::Opened(Ok(())) => AttachAction::BuildExporter,
            AttachEvent::Opened(Err(reason)) => self.abandon(reason),
            AttachEvent::ExporterBuilt(Ok(())) => AttachAction::AttachDecoder,
            AttachEvent::ExporterBuilt(Err(reason)) => self.abandon(reason),
            AttachEvent::Attached(Ok(format)) => {
                self.live = Some(format);
                AttachAction::Done
            },
            AttachEvent::Attached(Err(reason)) => self.abandon(reason),
        }
    }

    /// Whether a decoder is attached whose format negotiation is to be asked about.
    pub fn asks_negotiation(&self) -> (asks: bool)
        ensures
            asks == self@.live is Some,
    {
        self.live.is_some()
    }

    /// Notice a refusal in format negotiation. The decoder answers "not this stream" by
    /// simply not offering the hardware format, which is not an error anywhere — so it has
    /// to be asked about explicitly, or the session quietly runs in software forever.
    pub fn check_negotiation(&mut self, build: Build, rejected: bool) -> (answer: Result<
        (),
        PipelineError,
    >)
        requires
            old(self)@.well_formed(),
        ensures
            final(self)@.well_formed(),
            ({
                let reason = HwGiveUp::FormatRejected(backend_of(build)->0);
                if old(self)@.live is Some && rejected && backend_of(build) is Some {
                    &&& final(self)@ == old(self)@.given_up(reason)
                    &&& match answer {
                        Ok(_) => !(old(self)@.policy.reaction(reason) is Fail),
                        Err(PipelineError::HwDecode(why)) => {
                            &&& old(self)@.policy.reaction(reason) is Fail
                            &&& why@ == reason.text()
                        },
                        Err(_) => false,
                    }
                } else {
                    &&& final(self)@ == old(self)@
                    &&& answer is Ok
                }
            }),
    {
        if self.live.is_some() && rejected {
            if let Some(kind) = HwBackendKind::for_this_platform(build) {
                return self.give_up(HwGiveUp::FormatRejected(kind));
            }
        }
        Ok(())
    }

    /// Whether a decoded frame in this pixel format is to be handed to the exporter. One
    /// that is not is a software frame from a decoder that declined.
    pub fn exports(&self, format: i32) -> (yes: bool)
        ensures
            yes == self@.exports(format),
    {
        match self.live {
            Some(live) => live == format,
            None => false,
        }
    }

    /// Decide what becomes of a decoded frame, given what its export came to where it was
    /// handed to the exporter.
    ///
    /// Never fails the session by itself, unless the operator asked for
    /// [`HwPreference::HardwareOnly`]: then a failed export is an error.
    pub fn export(&mut self, format: i32, outcome: Option<Result<(), HwGiveUp>>) -> (export: Result<
        Export,
        PipelineError,
    >)
        requires
            old(self)@.well_formed(),
            outcome is Some == old(self)@.exports(format),
        ensures
            match export {
                Ok(export) => old(self)@.verdict(outcome) == Some(export),
                Err(PipelineError::HwDecode(why)) => {
                    &&& old(self)@.verdict(outcome) is None
                    &&& outcome matches Some(Err(reason)) && why@ == reason.text()
                },
                Err(_) => false,
            },
            final(self)@ == old(self)@.after_export(outcome),
            final(self)@.well_formed(),
    {
        match outcome {
            None => Ok(Export::Software),
            Some(Ok(())) => Ok(Export::Gpu),
            Some(Err(reason)) => match self.policy.give_up(reason) {
                Reaction::DropFrame => Ok(Export::Dropped),
                Reaction::FallBackToSoftware => {
                    self.live = None;
                    Ok(Export::Restart)
                },
                Reaction::Fail(reason) => Err(PipelineError::HwDecode(reason.message())),
            },
        }
    }
}

/// **A rebuild is a rebuild in software.** A session told to restart its decoder has left
/// hardware for good and has nothing attached.
pub proof fn a_restart_is_into_software(
    state: AttemptState,
    outcome: Option<Result<(), HwGiveUp>>,
)
    requires
        state.verdict(outcome) == Some(Export::Restart),
    ensures
        !state.after_export(outcome).policy.wants_hardware(),
        state.after_export(outcome).live is None,
{
}

/// **A session that asked for hardware only never loses a frame in silence.** A failed export
/// fails it, and nothing else does.
pub proof fn hardware_only_fails_aloud(
    state: AttemptState,
    outcome: Option<Result<(), HwGiveUp>>,
)
    ensures
        state.verdict(outcome) is None <==> (outcome matches Some(Err(_))
            && state.policy.preference == HwPreference::HardwareOnly),
{
}

/// **A session rebuilds at most once.** With hardware given up and nothing attached, no
/// frame is for the exporter, so none can ask for another restart, and no report changes
/// that.
pub proof fn software_never_restarts(
    state: AttemptState,
    format: i32,
    outcome: Option<Result<(), HwGiveUp>>,
    reason: HwGiveUp,
)
    requires
        !state.policy.wants_hardware(),
        state.live is None,
        outcome is Some == state.exports(format),
    ensures
        state.verdict(outcome) == Some(Export::Software),
        state.after_export(outcome) == state,
        !state.given_up(reason).policy.wants_hardware(),
        state.given_up(reason).live is None,
{
}

/// **A frame is what its export came to.** One that is no hardware frame is converted in
/// software, one that was exported is a GPU surface, and one whose export failed is dropped
/// within budget and restarts the decoder past it. No frame is any of these for another reason.
pub proof fn a_frame_is_what_its_export_came_to(
    state: AttemptState,
    outcome: Option<Result<(), HwGiveUp>>,
)
    ensures
        state.verdict(outcome) == Some(Export::Software) <==> outcome is None,
        state.verdict(outcome) == Some(Export::Gpu) <==> (outcome matches Some(Ok(_))),
        state.verdict(outcome) == Some(Export::Dropped) <==> (outcome matches Some(Err(reason))
            && state.policy.preference != HwPreference::HardwareOnly
            && state.policy.wants_hardware() && reason is ExportFailed
            && state.policy.transient_seen < crate::hwaccel::TRANSIENT_BUDGET),
        !(outcome matches Some(Err(_))) ==> state.after_export(outcome) == state,
        state.verdict(outcome) == Some(Export::Dropped) ==> state.after_export(outcome).live
            == state.live,
{
}

/// **Only the format that was negotiated is a hardware frame.** With nothing attached no frame
/// is one.
pub proof fn only_the_attached_format_is_exported(state: AttemptState, format: i32, other: i32)
    ensures
        state.live is None ==> !state.exports(format),
        state.exports(format) && state.exports(other) ==> format == other,
        state.exports(format) ==> state.live == Some(format),
        state.live matches Some(live) ==> state.exports(live),
{
}

/// **Giving up lets go of the decoder, unless hardware was the only thing asked for.**
pub proof fn giving_up_lets_go(state: AttemptState, reason: HwGiveUp)
    requires
        state.well_formed(),
    ensures
        ({
            let after = state.given_up(reason);
            &&& after.well_formed()
            &&& state.policy.preference == HwPreference::HardwareOnly ==> after == state
            &&& state.policy.preference != HwPreference::HardwareOnly ==> after.live is None
            &&& after.policy.preference == state.policy.preference
        }),
{
}

/// **A session starts where its frames can go.** It sets out on hardware exactly where hardware
/// would be tried and the compositor, where there is one, can take its surfaces; where that is
/// all that keeps it from it, it says so, and otherwise nothing.
pub proof fn a_session_starts_where_its_frames_can_go(
    state: AttemptState,
    preference: HwPreference,
    build: Build,
    import: Option<SurfaceImport>,
)
    requires
        state.is_start(preference, build, import),
    ensures
        ({
            let tried = PolicyState::start(preference, build).wants_hardware();
            &&& state.policy.wants_hardware() <==> tried && import != Some(
                SurfaceImport::Unsupported,
            )
            &&& state.policy.notice is Some <==> tried && import == Some(SurfaceImport::Unsupported)
            &&& state.policy.preference == preference
            &&& state.policy.transient_seen == 0
            &&& state.live is None
        }),
{
}

} // verus!
