//! Draining a decoder against the media clock.
//!
//! Each frame is held until the clock says it is due. The thread that drains is also the
//! only producer of the audio that advances the clock, so a hold is bounded — unless the
//! session is paused, where the clock stands still on purpose — and sliced, so neither a
//! stop nor a seek is ever stuck behind one.
use super::hw_attempt::Export;
use super::{Drained, PACING_SLICE, VIDEO_DECODE_LEAD};
use crate::span::Span;
use vstd::prelude::*;

verus! {

/// What a paced drain is waiting to hear.
#[derive(Debug, Clone, Copy, PartialEq, Eq, Structural)]
pub enum PacedPhase {
    /// The decoder's next frame.
    Receiving,
    /// Whether the session is to stop, with a frame in hand.
    Stopping(Span),
    /// Whether a seek is waiting, with a frame in hand.
    Seeking(Span),
    /// Whether the frame in hand is too late to be worth showing.
    Judging(Span),
    /// What the time is, as the hold begins.
    Anchoring(Span),
    /// Whether the session is to stop, during the hold.
    HoldStopping { pts: Span, until: Span },
    /// Whether a seek is waiting, during the hold.
    HoldSeeking { pts: Span, until: Span },
    /// Whether the session is paused.
    HoldPausing { pts: Span, until: Span },
    /// What the time is, during the hold.
    HoldClock { pts: Span, until: Span },
    /// How long the frame is still early, with this much of the hold left.
    HoldWaiting { pts: Span, until: Span, remaining: Span },
    /// That a sleep is over.
    HoldSleeping { pts: Span, until: Span },
    /// What exporting the frame came to.
    Exporting,
    /// Whether the consumer wants another frame.
    Presenting,
    /// Nothing: the drain is over.
    Ended,
}

/// What happened since the last instruction.
#[derive(Debug, Clone, Copy, PartialEq, Eq, Structural)]
pub enum PacedEvent {
    /// The decoder gave a frame with this presentation time, or has none.
    Received(Option<Span>),
    /// Whether the session is to stop.
    Stop(bool),
    /// Whether a seek is waiting to be served.
    SeekPending(bool),
    /// Whether the frame is hopelessly late.
    Hopeless(bool),
    /// The time.
    Now(Span),
    /// Whether the session is paused.
    Paused(bool),
    /// How long until the frame is due, or `None` when it is due now.
    Wait(Option<Span>),
    /// The sleep is over.
    Slept,
    /// What exporting the frame came to.
    Exported(Export),
    /// Whether the consumer wants another frame.
    Presented(bool),
}

/// What to do next.
#[derive(Debug, Clone, Copy, PartialEq, Eq, Structural)]
pub enum PacedAction {
    /// Receive the decoder's next frame.
    Receive,
    /// Ask whether the session is to stop.
    AskStop,
    /// Ask whether a seek is waiting.
    AskSeek,
    /// Let this frame seed the clock, if nothing has yet, and ask whether it is hopelessly
    /// late.
    Judge(Span),
    /// Read the time.
    AskNow,
    /// Ask whether the session is paused.
    AskPaused,
    /// Ask how long until this presentation time is due.
    AskWait(Span),
    /// Sleep this long.
    Sleep(Span),
    /// Offer the frame to the export path.
    Export,
    /// Hand the frame to the consumer.
    Present,
    /// Stop draining with this conclusion.
    End(Drained),
}

/// Whether an event is what a phase is waiting to hear.
pub open spec fn paced_expects(phase: PacedPhase, event: PacedEvent) -> bool {
    match phase {
        PacedPhase::Receiving => event is Received,
        PacedPhase::Stopping(_) => event is Stop,
        PacedPhase::Seeking(_) => event is SeekPending,
        PacedPhase::Judging(_) => event is Hopeless,
        PacedPhase::Anchoring(_) => event is Now,
        PacedPhase::HoldStopping { .. } => event is Stop,
        PacedPhase::HoldSeeking { .. } => event is SeekPending,
        PacedPhase::HoldPausing { .. } => event is Paused,
        PacedPhase::HoldClock { .. } => event is Now,
        PacedPhase::HoldWaiting { .. } => event is Wait,
        PacedPhase::HoldSleeping { .. } => event is Slept,
        PacedPhase::Exporting => event is Exported,
        PacedPhase::Presenting => event is Presented,
        PacedPhase::Ended => false,
    }
}

/// The longest sleep that serves a hold: no longer than the frame is early, than a slice,
/// nor than what is left of the hold.
pub open spec fn hold_sleep(wait: Span, remaining: Span) -> Span {
    Span::least(Span::least(wait, Span { nanos: PACING_SLICE }), remaining)
}

/// What a phase becomes on an event, and what is to be done.
pub open spec fn paced_next(phase: PacedPhase, event: PacedEvent) -> (PacedPhase, PacedAction) {
    match (phase, event) {
        (PacedPhase::Receiving, PacedEvent::Received(Some(pts))) => (
            PacedPhase::Stopping(pts),
            PacedAction::AskStop,
        ),
        (PacedPhase::Receiving, PacedEvent::Received(None)) => (
            PacedPhase::Ended,
            PacedAction::End(Drained::Continue),
        ),
        (PacedPhase::Stopping(pts), PacedEvent::Stop(stop)) => if stop {
            (PacedPhase::Ended, PacedAction::End(Drained::Stopped))
        } else {
            (PacedPhase::Seeking(pts), PacedAction::AskSeek)
        },
        (PacedPhase::Seeking(pts), PacedEvent::SeekPending(pending)) => if pending {
            (PacedPhase::Ended, PacedAction::End(Drained::Continue))
        } else {
            (PacedPhase::Judging(pts), PacedAction::Judge(pts))
        },
        (PacedPhase::Judging(pts), PacedEvent::Hopeless(hopeless)) => if hopeless {
            (PacedPhase::Receiving, PacedAction::Receive)
        } else {
            (PacedPhase::Anchoring(pts), PacedAction::AskNow)
        },
        (PacedPhase::Anchoring(pts), PacedEvent::Now(now)) => (
            PacedPhase::HoldStopping {
                pts,
                until: Span::plus(now, Span { nanos: VIDEO_DECODE_LEAD }),
            },
            PacedAction::AskStop,
        ),
        (PacedPhase::HoldStopping { pts, until }, PacedEvent::Stop(stop)) => if stop {
            (PacedPhase::Ended, PacedAction::End(Drained::Stopped))
        } else {
            (PacedPhase::HoldSeeking { pts, until }, PacedAction::AskSeek)
        },
        (PacedPhase::HoldSeeking { pts, until }, PacedEvent::SeekPending(pending)) => if pending {
            (PacedPhase::Ended, PacedAction::End(Drained::Continue))
        } else {
            (PacedPhase::HoldPausing { pts, until }, PacedAction::AskPaused)
        },
        (PacedPhase::HoldPausing { pts, until }, PacedEvent::Paused(paused)) => if paused {
            (
                PacedPhase::HoldSleeping { pts, until },
                PacedAction::Sleep(Span { nanos: PACING_SLICE }),
            )
        } else {
            (PacedPhase::HoldClock { pts, until }, PacedAction::AskNow)
        },
        (PacedPhase::HoldClock { pts, until }, PacedEvent::Now(now)) => if now.nanos <= until.nanos {
            (
                PacedPhase::HoldWaiting { pts, until, remaining: Span::less(until, now) },
                PacedAction::AskWait(pts),
            )
        } else {
            (PacedPhase::Exporting, PacedAction::Export)
        },
        (PacedPhase::HoldWaiting { pts, until, remaining }, PacedEvent::Wait(wait)) => match wait {
            Some(wait) => (
                PacedPhase::HoldSleeping { pts, until },
                PacedAction::Sleep(hold_sleep(wait, remaining)),
            ),
            None => (PacedPhase::Exporting, PacedAction::Export),
        },
        (PacedPhase::HoldSleeping { pts, until }, PacedEvent::Slept) => (
            PacedPhase::HoldStopping { pts, until },
            PacedAction::AskStop,
        ),
        (PacedPhase::Exporting, PacedEvent::Exported(export)) => match export {
            Export::Gpu => (PacedPhase::Presenting, PacedAction::Present),
            Export::Software => (PacedPhase::Presenting, PacedAction::Present),
            Export::Dropped => (PacedPhase::Receiving, PacedAction::Receive),
            Export::Restart => (PacedPhase::Ended, PacedAction::End(Drained::Restart)),
        },
        (PacedPhase::Presenting, PacedEvent::Presented(more)) => if more {
            (PacedPhase::Receiving, PacedAction::Receive)
        } else {
            (PacedPhase::Ended, PacedAction::End(Drained::Stopped))
        },
        _ => (phase, PacedAction::End(Drained::Continue)),
    }
}

/// A drain in progress: each frame held until the media clock says it is due.
#[derive(Debug)]
pub struct PacedDrain {
    phase: PacedPhase,
}

impl View for PacedDrain {
    type V = PacedPhase;

    closed spec fn view(&self) -> PacedPhase {
        self.phase
    }
}

impl PacedDrain {
    /// A drain about to receive its first frame.
    pub fn new() -> (drain: PacedDrain)
        ensures
            drain@ == PacedPhase::Receiving,
    {
        PacedDrain { phase: PacedPhase::Receiving }
    }

    /// Take what happened and say what to do next.
    ///
    /// A frame that is merely late is still shown — it is the best picture available. One
    /// that is hopelessly late is dropped, because presenting it only puts the next one
    /// further behind.
    pub fn step(&mut self, event: PacedEvent) -> (action: PacedAction)
        requires
            paced_expects(old(self)@, event),
        ensures
            (final(self)@, action) == paced_next(old(self)@, event),
    {
        let (phase, action): (PacedPhase, PacedAction) = match (self.phase, event) {
            (PacedPhase::Receiving, PacedEvent::Received(Some(pts))) => (
                PacedPhase::Stopping(pts),
                PacedAction::AskStop,
            ),
            (PacedPhase::Stopping(pts), PacedEvent::Stop(false)) => (
                PacedPhase::Seeking(pts),
                PacedAction::AskSeek,
            ),
            (PacedPhase::Stopping(_), PacedEvent::Stop(true)) => Self::ended(Drained::Stopped),
            (PacedPhase::Seeking(pts), PacedEvent::SeekPending(false)) => (
                PacedPhase::Judging(pts),
                PacedAction::Judge(pts),
            ),
            (PacedPhase::Judging(pts), PacedEvent::Hopeless(false)) => (
                PacedPhase::Anchoring(pts),
                PacedAction::AskNow,
            ),
            (PacedPhase::Judging(_), PacedEvent::Hopeless(true)) => (
                PacedPhase::Receiving,
                PacedAction::Receive,
            ),
            (PacedPhase::Anchoring(pts), PacedEvent::Now(now)) => (
                PacedPhase::HoldStopping {
                    pts,
                    until: now.saturating_add(&Span { nanos: VIDEO_DECODE_LEAD }),
                },
                PacedAction::AskStop,
            ),
            (PacedPhase::HoldStopping { pts, until }, PacedEvent::Stop(false)) => (
                PacedPhase::HoldSeeking { pts, until },
                PacedAction::AskSeek,
            ),
            (PacedPhase::HoldStopping { .. }, PacedEvent::Stop(true)) => Self::ended(
                Drained::Stopped,
            ),
            (PacedPhase::HoldSeeking { pts, until }, PacedEvent::SeekPending(false)) => (
                PacedPhase::HoldPausing { pts, until },
                PacedAction::AskPaused,
            ),
            (PacedPhase::HoldPausing { pts, until }, PacedEvent::Paused(true)) => (
                PacedPhase::HoldSleeping { pts, until },
                PacedAction::Sleep(Span { nanos: PACING_SLICE }),
            ),
            (PacedPhase::HoldPausing { pts, until }, PacedEvent::Paused(false)) => (
                PacedPhase::HoldClock { pts, until },
                PacedAction::AskNow,
            ),
            (PacedPhase::HoldClock { pts, until }, PacedEvent::Now(now)) => match until.checked_since(
                &now,
            ) {
                Some(remaining) => (
                    PacedPhase::HoldWaiting { pts, until, remaining },
                    PacedAction::AskWait(pts),
                ),
                None => (PacedPhase::Exporting, PacedAction::Export),
            },
            (PacedPhase::HoldWaiting { pts, until, remaining }, PacedEvent::Wait(Some(wait))) => (
                PacedPhase::HoldSleeping { pts, until },
                PacedAction::Sleep(
                    wait.shorter_of(Span { nanos: PACING_SLICE }).shorter_of(remaining),
                ),
            ),
            (PacedPhase::HoldWaiting { .. }, PacedEvent::Wait(None)) => (
                PacedPhase::Exporting,
                PacedAction::Export,
            ),
            (PacedPhase::HoldSleeping { pts, until }, PacedEvent::Slept) => (
                PacedPhase::HoldStopping { pts, until },
                PacedAction::AskStop,
            ),
            (PacedPhase::Exporting, PacedEvent::Exported(Export::Restart)) => Self::ended(
                Drained::Restart,
            ),
            (PacedPhase::Exporting, PacedEvent::Exported(Export::Dropped)) => (
                PacedPhase::Receiving,
                PacedAction::Receive,
            ),
            (PacedPhase::Exporting, PacedEvent::Exported(_)) => (
                PacedPhase::Presenting,
                PacedAction::Present,
            ),
            (PacedPhase::Presenting, PacedEvent::Presented(true)) => (
                PacedPhase::Receiving,
                PacedAction::Receive,
            ),
            (PacedPhase::Presenting, PacedEvent::Presented(false)) => Self::ended(Drained::Stopped),
            _ => Self::ended(Drained::Continue),
        };
        self.phase = phase;
        action
    }

    /// A drain that is over.
    fn ended(conclusion: Drained) -> (end: (PacedPhase, PacedAction))
        ensures
            end == (PacedPhase::Ended, PacedAction::End(conclusion)),
    {
        (PacedPhase::Ended, PacedAction::End(conclusion))
    }
}

/// **No sleep outlasts a slice**, nor, where the session is not paused, what is left of the
/// hold: a stop or a seek is looked at again at least that often.
pub proof fn paced_sleeps_are_short(phase: PacedPhase, event: PacedEvent)
    requires
        paced_expects(phase, event),
    ensures
        match paced_next(phase, event).1 {
            PacedAction::Sleep(span) => {
                &&& span@ <= PACING_SLICE
                &&& phase matches PacedPhase::HoldWaiting { remaining, .. } ==> span@ <= remaining@
            },
            _ => true,
        },
{
}

/// **A stop is obeyed wherever it is asked about.** The drain ends with the answer that
/// says so.
pub proof fn paced_stop_ends_the_drain(phase: PacedPhase)
    requires
        paced_expects(phase, PacedEvent::Stop(true)),
    ensures
        paced_next(phase, PacedEvent::Stop(true)) == (
            PacedPhase::Ended,
            PacedAction::End(Drained::Stopped),
        ),
{
}

/// **A waiting seek ends the drain at once**, so that the loop that can move the demuxer
/// gets to.
pub proof fn paced_seek_ends_the_drain(phase: PacedPhase)
    requires
        paced_expects(phase, PacedEvent::SeekPending(true)),
    ensures
        paced_next(phase, PacedEvent::SeekPending(true)) == (
            PacedPhase::Ended,
            PacedAction::End(Drained::Continue),
        ),
{
}

/// **A hold is bounded.** A hold lasts [`VIDEO_DECODE_LEAD`] from when it began, and the
/// first reading of the clock past that sends the frame on its way, early or not.
pub proof fn a_hold_is_bounded(pts: Span, began: Span, now: Span)
    requires
        began@ + VIDEO_DECODE_LEAD <= u128::MAX,
        now@ > began@ + VIDEO_DECODE_LEAD,
    ensures
        ({
            let hold = paced_next(PacedPhase::Anchoring(pts), PacedEvent::Now(began)).0;
            &&& hold matches PacedPhase::HoldStopping { until, .. }
            &&& paced_next(PacedPhase::HoldClock { pts, until }, PacedEvent::Now(now)) == (
                PacedPhase::Exporting,
                PacedAction::Export,
            )
        }),
{
}

/// **A hopeless frame is never shown.** It goes neither to the exporter nor to the
/// consumer: the next thing asked of the decoder is another frame.
pub proof fn hopeless_frames_are_dropped(pts: Span)
    ensures
        paced_next(PacedPhase::Judging(pts), PacedEvent::Hopeless(true)) == (
            PacedPhase::Receiving,
            PacedAction::Receive,
        ),
{
}

/// **A frame is shown only after its hold.** Nothing but a hold that is over — the frame
/// due, or the time up — leads to the exporter, and nothing but the exporter to the
/// consumer.
pub proof fn frames_are_shown_after_their_hold(phase: PacedPhase, event: PacedEvent)
    requires
        paced_expects(phase, event),
    ensures
        paced_next(phase, event).1 == PacedAction::Export ==> {
            ||| phase is HoldWaiting && event == PacedEvent::Wait(None)
            ||| phase matches PacedPhase::HoldClock { until, .. } && event matches PacedEvent::Now(
                now,
            ) && now@ > until@
        },
        paced_next(phase, event).1 == PacedAction::Present ==> phase is Exporting,
{
}

/// The frame that a drain has in hand, by when it is to be presented.
pub open spec fn in_hand(phase: PacedPhase) -> Option<Span> {
    match phase {
        PacedPhase::Stopping(pts) => Some(pts),
        PacedPhase::Seeking(pts) => Some(pts),
        PacedPhase::Judging(pts) => Some(pts),
        PacedPhase::Anchoring(pts) => Some(pts),
        PacedPhase::HoldStopping { pts, .. } => Some(pts),
        PacedPhase::HoldSeeking { pts, .. } => Some(pts),
        PacedPhase::HoldPausing { pts, .. } => Some(pts),
        PacedPhase::HoldClock { pts, .. } => Some(pts),
        PacedPhase::HoldWaiting { pts, .. } => Some(pts),
        PacedPhase::HoldSleeping { pts, .. } => Some(pts),
        _ => None,
    }
}

/// When the hold of the frame in hand is over, while it is held.
pub open spec fn held_until(phase: PacedPhase) -> Option<Span> {
    match phase {
        PacedPhase::HoldStopping { until, .. } => Some(until),
        PacedPhase::HoldSeeking { until, .. } => Some(until),
        PacedPhase::HoldPausing { until, .. } => Some(until),
        PacedPhase::HoldClock { until, .. } => Some(until),
        PacedPhase::HoldWaiting { until, .. } => Some(until),
        PacedPhase::HoldSleeping { until, .. } => Some(until),
        _ => None,
    }
}

/// **The answer that is awaited is the one to what was asked.**
pub proof fn a_paced_drain_awaits_what_it_asked(
    phase: PacedPhase,
    event: PacedEvent,
    answer: PacedEvent,
)
    requires
        paced_expects(phase, event),
    ensures
        ({
            let (after, action) = paced_next(phase, event);
            paced_expects(after, answer) <==> match action {
                PacedAction::Receive => answer is Received,
                PacedAction::AskStop => answer is Stop,
                PacedAction::AskSeek => answer is SeekPending,
                PacedAction::Judge(_) => answer is Hopeless,
                PacedAction::AskNow => answer is Now,
                PacedAction::AskPaused => answer is Paused,
                PacedAction::AskWait(_) => answer is Wait,
                PacedAction::Sleep(_) => answer is Slept,
                PacedAction::Export => answer is Exported,
                PacedAction::Present => answer is Presented,
                PacedAction::End(_) => false,
            }
        }),
{
}

/// **A paced drain ends only for a reason.** It ends where the decoder has no more or a seek is
/// waiting, where it is told to stop or the consumer wants no more, and where hardware is
/// abandoned, saying which; and nowhere else.
pub proof fn a_paced_drain_ends_only_for_a_reason(phase: PacedPhase, event: PacedEvent)
    requires
        paced_expects(phase, event),
    ensures
        ({
            let action = paced_next(phase, event).1;
            &&& action == PacedAction::End(Drained::Continue) <==> event == PacedEvent::Received(
                None,
            ) || event == PacedEvent::SeekPending(true)
            &&& action == PacedAction::End(Drained::Stopped) <==> event == PacedEvent::Stop(true)
                || event == PacedEvent::Presented(false)
            &&& action == PacedAction::End(Drained::Restart) <==> event == PacedEvent::Exported(
                Export::Restart,
            )
        }),
{
}

/// **A frame keeps its time, and its hold its end.** From when it is received until it is
/// exported, what a frame is judged and waited for by is its own presentation time; and the end
/// of its hold is set once, a decode lead after it began.
pub proof fn a_frame_keeps_its_time(phase: PacedPhase, event: PacedEvent)
    requires
        paced_expects(phase, event),
    ensures
        ({
            let (after, action) = paced_next(phase, event);
            &&& in_hand(phase) is Some && in_hand(after) is Some ==> in_hand(after) == in_hand(
                phase,
            )
            &&& event matches PacedEvent::Received(pts) ==> (pts is Some ==> in_hand(after) == pts)
            &&& held_until(phase) is Some && held_until(after) is Some ==> held_until(after)
                == held_until(phase)
            &&& phase is Anchoring ==> (event matches PacedEvent::Now(began) ==> (held_until(
                after,
            ) matches Some(until) && (began@ + VIDEO_DECODE_LEAD <= u128::MAX ==> until@ == began@
                + VIDEO_DECODE_LEAD)))
            &&& action matches PacedAction::Judge(pts) ==> in_hand(phase) == Some(pts)
            &&& action matches PacedAction::AskWait(pts) ==> in_hand(phase) == Some(pts)
        }),
{
}

/// **A hold lasts while the frame is early and no longer.** Told to go on, with no seek waiting,
/// a frame that is not hopeless is held; while the session is paused it sleeps a slice at a time
/// and is not shown; otherwise, with the hold not over, it sleeps as long as it is early, as a
/// slice lasts or as the hold has left, whichever is least; and it is exported as soon as it is
/// due or its hold is over.
#[verifier::rlimit(40)]
pub proof fn a_hold_lasts_while_the_frame_is_early(phase: PacedPhase, event: PacedEvent)
    requires
        paced_expects(phase, event),
    ensures
        ({
            let (after, action) = paced_next(phase, event);
            &&& event is Received && event != PacedEvent::Received(None) ==> action
                == PacedAction::AskStop
            &&& event == PacedEvent::Stop(false) ==> action == PacedAction::AskSeek
            &&& event == PacedEvent::SeekPending(false) ==> if held_until(phase) is Some {
                action == PacedAction::AskPaused
            } else {
                action is Judge
            }
            &&& event == PacedEvent::Hopeless(false) ==> action == PacedAction::AskNow
            &&& phase is Anchoring ==> action == PacedAction::AskStop && held_until(after) is Some
            &&& event == PacedEvent::Paused(true) ==> action == PacedAction::Sleep(
                Span { nanos: PACING_SLICE },
            )
            &&& event == PacedEvent::Paused(false) ==> action == PacedAction::AskNow
            &&& phase matches PacedPhase::HoldClock { until, .. } ==> (event matches PacedEvent::Now(
                now,
            ) ==> if now@ > until@ {
                action == PacedAction::Export
            } else {
                &&& action is AskWait
                &&& after matches PacedPhase::HoldWaiting { remaining, .. } && now@ + remaining@
                    == until@
            })
            &&& phase matches PacedPhase::HoldWaiting { remaining, .. } ==> (
            event matches PacedEvent::Wait(wait) ==> match wait {
                None => action == PacedAction::Export,
                Some(wait) => {
                    &&& action matches PacedAction::Sleep(rest)
                    &&& rest@ <= wait@ && rest@ <= PACING_SLICE && rest@ <= remaining@
                    &&& rest@ == wait@ || rest@ == PACING_SLICE || rest@ == remaining@
                },
            })
            &&& event is Slept ==> action == PacedAction::AskStop && held_until(after)
                == held_until(phase)
            &&& event == PacedEvent::Exported(Export::Gpu) || event == PacedEvent::Exported(
                Export::Software,
            ) ==> action == PacedAction::Present
            &&& event == PacedEvent::Exported(Export::Dropped) || event == PacedEvent::Presented(
                true,
            ) ==> action == PacedAction::Receive
        }),
{
}

/// Where a paced drain stands after a run of events.
pub open spec fn paced_after(events: Seq<PacedEvent>) -> PacedPhase
    decreases events.len(),
{
    if events.len() == 0 {
        PacedPhase::Receiving
    } else {
        paced_next(paced_after(events.drop_last()), events.last()).0
    }
}

/// Whether each event of a run is the one that is waited for when it comes.
pub open spec fn paced_run(events: Seq<PacedEvent>) -> bool
    decreases events.len(),
{
    events.len() > 0 ==> paced_run(events.drop_last()) && paced_expects(
        paced_after(events.drop_last()),
        events.last(),
    )
}

/// How many frames a run handed to the consumer.
pub open spec fn paced_shown(events: Seq<PacedEvent>) -> nat
    decreases events.len(),
{
    if events.len() == 0 {
        0
    } else {
        paced_shown(events.drop_last()) + if paced_next(
            paced_after(events.drop_last()),
            events.last(),
        ).1 == PacedAction::Present {
            1nat
        } else {
            0nat
        }
    }
}

/// How many frames a run was given.
pub open spec fn paced_given(events: Seq<PacedEvent>) -> nat
    decreases events.len(),
{
    if events.len() == 0 {
        0
    } else {
        paced_given(events.drop_last()) + if events.last() matches PacedEvent::Received(pts) && pts
            is Some {
            1nat
        } else {
            0nat
        }
    }
}

/// How many frames a run let go: hopelessly late, dropped by the exporter, or overtaken by a
/// stop, a seek or the end of hardware.
pub open spec fn paced_let_go(events: Seq<PacedEvent>) -> nat
    decreases events.len(),
{
    if events.len() == 0 {
        0
    } else {
        let last = events.last();
        paced_let_go(events.drop_last()) + if last == PacedEvent::Hopeless(true) || last
            == PacedEvent::Exported(Export::Dropped) || last == PacedEvent::Exported(Export::Restart)
            || last == PacedEvent::Stop(true) || last == PacedEvent::SeekPending(true) {
            1nat
        } else {
            0nat
        }
    }
}

/// **Every frame is shown or let go of for a reason.** Over any run, the frames the decoder gave
/// are those handed to the consumer, those let go as hopelessly late, dropped by the exporter or
/// overtaken by a stop, a seek or the end of hardware, and the one still in hand.
pub proof fn every_paced_frame_is_accounted_for(events: Seq<PacedEvent>)
    requires
        paced_run(events),
    ensures
        paced_given(events) == paced_shown(events) + paced_let_go(events) + (if in_hand(
            paced_after(events),
        ) is Some || paced_after(events) == PacedPhase::Exporting {
            1nat
        } else {
            0nat
        }),
    decreases events.len(),
{
    if events.len() > 0 {
        every_paced_frame_is_accounted_for(events.drop_last());
    }
}

} // verus!
