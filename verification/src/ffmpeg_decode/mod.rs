//! Decoding a media URL or a live stream: the decisions of the loops that read packets,
//! feed decoders and present frames.
//!
//! Demuxers, decoders, clocks and sleeping belong to the thread that drives these loops.
//! Each loop is a machine here: it is told what happened and says what to do next.
use crate::span::Span;
use vstd::prelude::*;

pub mod av_session;
pub mod frames;
pub mod hw_attempt;
pub mod open;
pub mod paced;
pub mod seek;
pub mod stream;

verus! {

/// How many decoded audio blocks may be queued for the output.
///
/// This bound is load-bearing, not a tuning knob: the audio thread consumes in real time,
/// so a full queue blocks the demuxer, and *that* is what paces the whole session.
pub const AUDIO_QUEUE: usize = 64;

/// How many video packets may be held back waiting for their turn to be decoded.
///
/// The queue exists to break a deadlock, not to buffer for its own sake. It holds
/// *packets*, which is why it can be generous. Four seconds at 60 frames a second.
pub const VIDEO_PACKET_QUEUE: usize = 240;

/// How far ahead of the clock a video packet is decoded, in nanoseconds.
///
/// The number that stops the demuxer deadlocking against itself: a picture waits *as a
/// packet*, and the loop goes back to reading, which is what lets audio through, which is
/// what advances the clock, which is what makes the packet due.
pub const VIDEO_DECODE_LEAD: u128 = 40_000_000;

/// The longest single sleep anywhere on the pacing path, in nanoseconds.
///
/// Sleeps are sliced so neither a preemption nor a seek is stuck behind a long hold.
pub const PACING_SLICE: u128 = 50_000_000;

/// The longest a held packet waits for its turn once the container is exhausted, in
/// nanoseconds.
///
/// An item whose video outlasts its audio ends with a clock that has stopped. The last few
/// frames should still be presented rather than held against a turn that will never come.
pub const EOF_HOLD: u128 = 2_000_000_000;

/// How one decoder incarnation ended.
#[derive(Debug, Clone, Copy, PartialEq, Eq, Structural)]
pub enum SessionEnd {
    /// The source finished, or the consumer asked to stop.
    Finished,
    /// Hardware was abandoned; the caller should build a software decoder and continue.
    RebuildInSoftware,
}

/// What a drain pass concluded.
#[derive(Debug, Clone, Copy, PartialEq, Eq, Structural)]
pub enum Drained {
    /// Keep feeding this decoder.
    Continue,
    /// The consumer asked to stop.
    Stopped,
    /// Hardware was abandoned mid-drain; the decoder must be rebuilt.
    Restart,
}

/// When a packet's picture is wanted: its presentation time, or its decode time where it
/// has no other.
///
/// Presentation time first because packets are *sent* in container order either way; this
/// only decides when, and gating on the time the picture is wanted keeps a reordered
/// stream's pictures from arriving before their turn.
pub fn wanted_at(pts: Option<Span>, dts: Option<Span>) -> (at: Option<Span>)
    ensures
        at == if pts is Some {
            pts
        } else {
            dts
        },
{
    match pts {
        Some(pts) => Some(pts),
        None => dts,
    }
}

/// Playback of one item over as many decoder incarnations as it takes.
#[derive(Debug)]
pub struct Playback {
    opened: bool,
}

impl Playback {
    /// Whether the item has been reported.
    pub closed spec fn opened(self) -> bool {
        self.opened
    }

    /// Playback that has not started.
    pub fn new() -> (playback: Playback)
        ensures
            !playback.opened(),
    {
        Playback { opened: false }
    }

    /// Whether to report what the container holds, now that an incarnation has opened it.
    ///
    /// Only the first time round: a mid-session software fallback reopens the file, and
    /// telling the pipeline "here is a new item" would restart the card and the metadata
    /// for something that never stopped playing.
    pub fn reports(&mut self) -> (report: bool)
        ensures
            report == !old(self).opened(),
            final(self).opened(),
    {
        let first: bool = !self.opened;
        self.opened = true;
        first
    }

    /// Whether another incarnation follows one that ended this way. A hardware give-up
    /// rebuilds the decoder rather than ending playback.
    pub fn goes_on(end: SessionEnd) -> (again: bool)
        ensures
            again == (end == SessionEnd::RebuildInSoftware),
    {
        match end {
            SessionEnd::Finished => false,
            SessionEnd::RebuildInSoftware => true,
        }
    }
}

/// **A picture is wanted when it is presented.** Its decode time counts only where it has no
/// other, and without either nothing is known.
pub proof fn a_picture_is_wanted_when_it_is_presented(
    pts: Option<Span>,
    dts: Option<Span>,
    at: Option<Span>,
)
    requires
        call_ensures(wanted_at, (pts, dts), at),
    ensures
        pts is Some ==> at == pts,
        pts is None ==> at == dts,
        at is None <==> pts is None && dts is None,
{
}

/// **Only a give-up is followed by another incarnation.**
pub proof fn only_a_give_up_is_followed_by_another(end: SessionEnd, again: bool)
    requires
        call_ensures(Playback::goes_on, (end,), again),
    ensures
        again <==> end == SessionEnd::RebuildInSoftware,
        end == SessionEnd::Finished ==> !again,
{
}

} // verus!
