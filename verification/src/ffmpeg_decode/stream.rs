//! The loops that decode without a clock: a live stream of already-depacketized frames,
//! the video of a URL on its own, and the plain drain that both use.
use super::hw_attempt::Export;
use super::{Drained, SessionEnd};
use crate::media::VideoCodec;
use crate::span::Span;
use vstd::prelude::*;

verus! {

/// What a plain drain is waiting to hear.
#[derive(Debug, Clone, Copy, PartialEq, Eq, Structural)]
pub enum DrainPhase {
    /// Whether the decoder has another frame.
    Receiving,
    /// What exporting the frame came to.
    Exporting,
    /// Whether the consumer wants another frame.
    Presenting,
    /// Nothing: the drain is over.
    Ended,
}

/// What happened since the last instruction.
#[derive(Debug, Clone, Copy, PartialEq, Eq, Structural)]
pub enum DrainEvent {
    /// Whether the decoder gave a frame.
    Received(bool),
    /// What exporting the frame came to.
    Exported(Export),
    /// Whether the consumer wants another frame.
    Presented(bool),
}

/// What to do next.
#[derive(Debug, Clone, Copy, PartialEq, Eq, Structural)]
pub enum DrainAction {
    /// Receive the decoder's next frame.
    Receive,
    /// Offer the frame to the export path.
    Export,
    /// Hand the frame to the consumer.
    Present,
    /// Stop draining with this conclusion.
    End(Drained),
}

/// Whether an event is what a phase is waiting to hear.
pub open spec fn drain_expects(phase: DrainPhase, event: DrainEvent) -> bool {
    match phase {
        DrainPhase::Receiving => event is Received,
        DrainPhase::Exporting => event is Exported,
        DrainPhase::Presenting => event is Presented,
        DrainPhase::Ended => false,
    }
}

/// What a phase becomes on an event, and what is to be done: every frame the decoder is
/// holding is handed over, but for those whose export failed within budget.
pub open spec fn drain_next(phase: DrainPhase, event: DrainEvent) -> (DrainPhase, DrainAction) {
    match event {
        DrainEvent::Received(true) => (DrainPhase::Exporting, DrainAction::Export),
        DrainEvent::Received(false) => (DrainPhase::Ended, DrainAction::End(Drained::Continue)),
        DrainEvent::Exported(Export::Gpu) => (DrainPhase::Presenting, DrainAction::Present),
        DrainEvent::Exported(Export::Software) => (DrainPhase::Presenting, DrainAction::Present),
        DrainEvent::Exported(Export::Dropped) => (DrainPhase::Receiving, DrainAction::Receive),
        DrainEvent::Exported(Export::Restart) => (
            DrainPhase::Ended,
            DrainAction::End(Drained::Restart),
        ),
        DrainEvent::Presented(true) => (DrainPhase::Receiving, DrainAction::Receive),
        DrainEvent::Presented(false) => (DrainPhase::Ended, DrainAction::End(Drained::Stopped)),
    }
}

/// A plain drain in progress: every frame the decoder is holding, handed over at once.
#[derive(Debug)]
pub struct Drain {
    phase: DrainPhase,
}

impl View for Drain {
    type V = DrainPhase;

    closed spec fn view(&self) -> DrainPhase {
        self.phase
    }
}

impl Drain {
    /// A drain about to receive its first frame.
    pub fn new() -> (drain: Drain)
        ensures
            drain@ == DrainPhase::Receiving,
    {
        Drain { phase: DrainPhase::Receiving }
    }

    /// Take what happened and say what to do next.
    pub fn step(&mut self, event: DrainEvent) -> (action: DrainAction)
        requires
            drain_expects(old(self)@, event),
        ensures
            (final(self)@, action) == drain_next(old(self)@, event),
    {
        let (phase, action): (DrainPhase, DrainAction) = match event {
            DrainEvent::Received(true) => (DrainPhase::Exporting, DrainAction::Export),
            DrainEvent::Received(false) => (
                DrainPhase::Ended,
                DrainAction::End(Drained::Continue),
            ),
            DrainEvent::Exported(export) => match export {
                Export::Gpu => (DrainPhase::Presenting, DrainAction::Present),
                Export::Software => (DrainPhase::Presenting, DrainAction::Present),
                Export::Dropped => (DrainPhase::Receiving, DrainAction::Receive),
                Export::Restart => (DrainPhase::Ended, DrainAction::End(Drained::Restart)),
            },
            DrainEvent::Presented(true) => (DrainPhase::Receiving, DrainAction::Receive),
            DrainEvent::Presented(false) => (
                DrainPhase::Ended,
                DrainAction::End(Drained::Stopped),
            ),
        };
        self.phase = phase;
        action
    }
}

/// What a stream session is waiting to hear.
#[derive(Debug, Clone, Copy, PartialEq, Eq, Structural)]
pub enum StreamPhase {
    /// The source's next frame.
    Pulling,
    /// Whether the decoder took the frame.
    Sending,
    /// What draining the decoder came to.
    Draining,
    /// That the decoder has been flushed.
    Flushing,
    /// Nothing: the session is over.
    Ended,
}

/// What happened since the last instruction.
#[derive(Debug, Clone, Copy, PartialEq, Eq, Structural)]
pub enum StreamEvent {
    /// The source's next frame: its codec, whether it is a key frame, and its time.
    Frame { codec: Option<VideoCodec>, keyframe: bool, pts: Span },
    /// The source is finished.
    SourceEnded,
    /// Whether the decoder took the frame.
    Sent(bool),
    /// What draining the decoder came to.
    Drained(Drained),
    /// The decoder has been told that the stream is over, and drained.
    Flushed,
}

/// What to do next.
#[derive(Debug, Clone, Copy, PartialEq, Eq, Structural)]
pub enum StreamAction {
    /// Pull the source's next frame.
    Pull,
    /// Send the frame to the decoder, stamped in microseconds where they fit, and flagged
    /// where it is a key frame.
    Send { pts: Option<i64>, key: bool },
    /// Ask about format negotiation, and drain the decoder.
    Drain,
    /// Tell the decoder that the stream is over, and drain it.
    Flush,
    /// End this decoder incarnation.
    End(SessionEnd),
}

/// What a stream session knows.
pub struct StreamState {
    /// The codec that was negotiated.
    pub codec: VideoCodec,
    /// Whether a key frame has been seen.
    pub synced: bool,
    /// What is being waited to hear.
    pub phase: StreamPhase,
}

/// A time in whole microseconds, where that fits the decoder's timestamps.
pub open spec fn stream_stamp(pts: Span) -> Option<i64> {
    if pts@ / 1_000 <= i64::MAX {
        Some((pts@ / 1_000) as i64)
    } else {
        None
    }
}

impl StreamState {
    /// Whether an event is what the session is waiting to hear.
    pub open spec fn expects(self, event: StreamEvent) -> bool {
        match self.phase {
            StreamPhase::Pulling => event is Frame || event is SourceEnded,
            StreamPhase::Sending => event is Sent,
            StreamPhase::Draining => event is Drained,
            StreamPhase::Flushing => event is Flushed,
            StreamPhase::Ended => false,
        }
    }

    /// Whether a frame is fed to the decoder: only one in the negotiated codec, and none
    /// before the first key frame.
    pub open spec fn admits(self, codec: Option<VideoCodec>, keyframe: bool) -> bool {
        codec == Some(self.codec) && (self.synced || keyframe)
    }

    /// This session waiting to hear something else.
    pub open spec fn at(self, phase: StreamPhase) -> StreamState {
        StreamState { phase, ..self }
    }

    /// What the session becomes on an event, and what is to be done.
    pub open spec fn next(self, event: StreamEvent) -> (StreamState, StreamAction) {
        match event {
            StreamEvent::Frame { codec, keyframe, pts } => if self.admits(codec, keyframe) {
                (
                    StreamState { synced: true, phase: StreamPhase::Sending, ..self },
                    StreamAction::Send { pts: stream_stamp(pts), key: keyframe },
                )
            } else {
                (self.at(StreamPhase::Pulling), StreamAction::Pull)
            },
            StreamEvent::SourceEnded => (self.at(StreamPhase::Flushing), StreamAction::Flush),
            StreamEvent::Sent(true) => (self.at(StreamPhase::Draining), StreamAction::Drain),
            StreamEvent::Sent(false) => (self.at(StreamPhase::Pulling), StreamAction::Pull),
            StreamEvent::Drained(Drained::Continue) => (
                self.at(StreamPhase::Pulling),
                StreamAction::Pull,
            ),
            StreamEvent::Drained(Drained::Stopped) => (
                self.at(StreamPhase::Ended),
                StreamAction::End(SessionEnd::Finished),
            ),
            StreamEvent::Drained(Drained::Restart) => (
                self.at(StreamPhase::Ended),
                StreamAction::End(SessionEnd::RebuildInSoftware),
            ),
            StreamEvent::Flushed => (
                self.at(StreamPhase::Ended),
                StreamAction::End(SessionEnd::Finished),
            ),
        }
    }
}

/// One decoder incarnation over a live stream.
///
/// Decoding starts at the first key frame: a mirror session is joined mid-stream far more
/// often than not, and feeding a decoder frames that reference pictures it never saw only
/// produces garbage. A frame the decoder rejects is skipped rather than fatal.
#[derive(Debug)]
pub struct StreamSession {
    codec: VideoCodec,
    synced: bool,
    phase: StreamPhase,
}

impl View for StreamSession {
    type V = StreamState;

    closed spec fn view(&self) -> StreamState {
        StreamState { codec: self.codec, synced: self.synced, phase: self.phase }
    }
}

impl StreamSession {
    /// An incarnation for this codec, about to pull its first frame.
    pub fn new(codec: VideoCodec) -> (session: StreamSession)
        ensures
            session@ == (StreamState { codec, synced: false, phase: StreamPhase::Pulling }),
    {
        StreamSession { codec, synced: false, phase: StreamPhase::Pulling }
    }

    /// Take what happened and say what to do next.
    pub fn step(&mut self, event: StreamEvent) -> (action: StreamAction)
        requires
            old(self)@.expects(event),
        ensures
            (final(self)@, action) == old(self)@.next(event),
    {
        match event {
            StreamEvent::Frame { codec, keyframe, pts } => {
                let right: bool = match codec {
                    Some(codec) => codec == self.codec,
                    None => false,
                };
                if !right || (!self.synced && !keyframe) {
                    self.phase = StreamPhase::Pulling;
                    return StreamAction::Pull;
                }
                self.synced = true;
                self.phase = StreamPhase::Sending;
                StreamAction::Send { pts: stamp(pts), key: keyframe }
            },
            StreamEvent::SourceEnded => {
                self.phase = StreamPhase::Flushing;
                StreamAction::Flush
            },
            StreamEvent::Sent(true) => {
                self.phase = StreamPhase::Draining;
                StreamAction::Drain
            },
            StreamEvent::Sent(false) => {
                self.phase = StreamPhase::Pulling;
                StreamAction::Pull
            },
            StreamEvent::Drained(drained) => match drained {
                Drained::Continue => {
                    self.phase = StreamPhase::Pulling;
                    StreamAction::Pull
                },
                Drained::Stopped => {
                    self.phase = StreamPhase::Ended;
                    StreamAction::End(SessionEnd::Finished)
                },
                Drained::Restart => {
                    self.phase = StreamPhase::Ended;
                    StreamAction::End(SessionEnd::RebuildInSoftware)
                },
            },
            StreamEvent::Flushed => {
                self.phase = StreamPhase::Ended;
                StreamAction::End(SessionEnd::Finished)
            },
        }
    }
}

/// A time in whole microseconds, where that fits the decoder's timestamps.
fn stamp(pts: Span) -> (stamp: Option<i64>)
    ensures
        stamp == stream_stamp(pts),
{
    let micros: u128 = pts.as_micros();
    if micros <= i64::MAX as u128 {
        Some(micros as i64)
    } else {
        None
    }
}

/// What a URL session is waiting to hear.
#[derive(Debug, Clone, Copy, PartialEq, Eq, Structural)]
pub enum UrlPhase {
    /// The container's next packet.
    Reading,
    /// What draining the decoder came to.
    Draining,
    /// That the decoder has been flushed.
    Flushing,
    /// Nothing: the session is over.
    Ended,
}

/// What happened since the last instruction.
#[derive(Debug, Clone, Copy, PartialEq, Eq, Structural)]
pub enum UrlEvent {
    /// The container's next packet, on this stream.
    Packet(usize),
    /// The container is exhausted.
    InputEnded,
    /// What draining the decoder came to.
    Drained(Drained),
    /// The decoder has been told that the item is over; what draining it came to.
    Flushed(Drained),
}

/// What to do next.
#[derive(Debug, Clone, Copy, PartialEq, Eq, Structural)]
pub enum UrlAction {
    /// Read the container's next packet.
    Read,
    /// Send the packet to the decoder, ask about format negotiation, and drain it.
    Decode,
    /// Tell the decoder that the item is over, and drain it.
    Flush,
    /// End this decoder incarnation.
    End(SessionEnd),
}

/// Whether an event is what a phase is waiting to hear.
pub open spec fn url_expects(phase: UrlPhase, event: UrlEvent) -> bool {
    match phase {
        UrlPhase::Reading => event is Packet || event is InputEnded,
        UrlPhase::Draining => event is Drained,
        UrlPhase::Flushing => event is Flushed,
        UrlPhase::Ended => false,
    }
}

/// What the session over stream `video` becomes on an event, and what is to be done.
pub open spec fn url_next(video: usize, event: UrlEvent) -> (UrlPhase, UrlAction) {
    match event {
        UrlEvent::Packet(stream) => if stream == video {
            (UrlPhase::Draining, UrlAction::Decode)
        } else {
            (UrlPhase::Reading, UrlAction::Read)
        },
        UrlEvent::InputEnded => (UrlPhase::Flushing, UrlAction::Flush),
        UrlEvent::Drained(Drained::Continue) => (UrlPhase::Reading, UrlAction::Read),
        UrlEvent::Drained(Drained::Stopped) => (
            UrlPhase::Ended,
            UrlAction::End(SessionEnd::Finished),
        ),
        UrlEvent::Drained(Drained::Restart) => (
            UrlPhase::Ended,
            UrlAction::End(SessionEnd::RebuildInSoftware),
        ),
        UrlEvent::Flushed(drained) => (
            UrlPhase::Ended,
            UrlAction::End(
                if drained is Restart {
                    SessionEnd::RebuildInSoftware
                } else {
                    SessionEnd::Finished
                },
            ),
        ),
    }
}

/// One decoder incarnation over the video stream of a demuxed URL.
#[derive(Debug)]
pub struct UrlSession {
    video: usize,
    phase: UrlPhase,
}

impl UrlSession {
    /// The stream whose packets are decoded.
    pub closed spec fn stream(self) -> usize {
        self.video
    }

    /// What is being waited to hear.
    pub closed spec fn phase(self) -> UrlPhase {
        self.phase
    }

    /// An incarnation over this stream, about to read its first packet.
    pub fn new(video: usize) -> (session: UrlSession)
        ensures
            session.stream() == video,
            session.phase() == UrlPhase::Reading,
    {
        UrlSession { video, phase: UrlPhase::Reading }
    }

    /// Take what happened and say what to do next.
    pub fn step(&mut self, event: UrlEvent) -> (action: UrlAction)
        requires
            url_expects(old(self).phase(), event),
        ensures
            final(self).stream() == old(self).stream(),
            (final(self).phase(), action) == url_next(old(self).stream(), event),
    {
        let (phase, action): (UrlPhase, UrlAction) = match event {
            UrlEvent::Packet(stream) => if stream == self.video {
                (UrlPhase::Draining, UrlAction::Decode)
            } else {
                (UrlPhase::Reading, UrlAction::Read)
            },
            UrlEvent::InputEnded => (UrlPhase::Flushing, UrlAction::Flush),
            UrlEvent::Drained(drained) => match drained {
                Drained::Continue => (UrlPhase::Reading, UrlAction::Read),
                Drained::Stopped => (UrlPhase::Ended, UrlAction::End(SessionEnd::Finished)),
                Drained::Restart => (
                    UrlPhase::Ended,
                    UrlAction::End(SessionEnd::RebuildInSoftware),
                ),
            },
            UrlEvent::Flushed(drained) => match drained {
                Drained::Restart => (
                    UrlPhase::Ended,
                    UrlAction::End(SessionEnd::RebuildInSoftware),
                ),
                _ => (UrlPhase::Ended, UrlAction::End(SessionEnd::Finished)),
            },
        };
        self.phase = phase;
        action
    }
}

/// **A hardware give-up rebuilds the decoder rather than ending playback.** Wherever in an item
/// hardware is abandoned, in its last drain too, the session ends to be rebuilt in software;
/// and it ends so nowhere else.
pub proof fn a_give_up_does_not_end_playback(video: usize, event: UrlEvent)
    ensures
        url_next(video, event).1 == UrlAction::End(SessionEnd::RebuildInSoftware) <==> event
            == UrlEvent::Drained(Drained::Restart) || event == UrlEvent::Flushed(Drained::Restart),
{
}

/// **Nothing is decoded before the first key frame, and nothing in another codec ever.**
/// Whatever is sent is in the negotiated codec, and is a key frame or comes after one.
pub proof fn only_decodable_frames_are_sent(state: StreamState, event: StreamEvent)
    requires
        state.expects(event),
    ensures
        state.next(event).1 is Send ==> {
            &&& event matches StreamEvent::Frame { codec, keyframe, .. }
            &&& codec == Some(state.codec)
            &&& keyframe || state.synced
        },
        state.next(event).0.synced ==> state.synced || (event matches StreamEvent::Frame {
            codec,
            keyframe,
            ..
        } && keyframe && codec == Some(state.codec)),
{
}

/// **One corrupt packet does not tear down a live mirror.** A frame the decoder rejects
/// leads to the next frame, with the session as it was.
pub proof fn a_rejected_frame_is_skipped(state: StreamState)
    requires
        state.phase == StreamPhase::Sending,
    ensures
        state.next(StreamEvent::Sent(false)) == (
            state.at(StreamPhase::Pulling),
            StreamAction::Pull,
        ),
{
}

/// Where a drain stands after a run of events.
pub open spec fn drain_after(events: Seq<DrainEvent>) -> DrainPhase
    decreases events.len(),
{
    if events.len() == 0 {
        DrainPhase::Receiving
    } else {
        drain_next(drain_after(events.drop_last()), events.last()).0
    }
}

/// Whether each event of a run is the one that is waited for when it comes.
pub open spec fn drain_run(events: Seq<DrainEvent>) -> bool
    decreases events.len(),
{
    events.len() > 0 ==> drain_run(events.drop_last()) && drain_expects(
        drain_after(events.drop_last()),
        events.last(),
    )
}

/// How many frames a run handed to the consumer.
pub open spec fn handed_over(events: Seq<DrainEvent>) -> nat
    decreases events.len(),
{
    if events.len() == 0 {
        0
    } else {
        handed_over(events.drop_last()) + if drain_next(
            drain_after(events.drop_last()),
            events.last(),
        ).1 == DrainAction::Present {
            1nat
        } else {
            0nat
        }
    }
}

/// How many events of a run are one.
pub open spec fn heard(events: Seq<DrainEvent>, one: DrainEvent) -> nat
    decreases events.len(),
{
    if events.len() == 0 {
        0
    } else {
        heard(events.drop_last(), one) + if events.last() == one {
            1nat
        } else {
            0nat
        }
    }
}

/// **Every frame received is handed over.** Over any run of a drain, the frames handed to the
/// consumer are those the decoder gave, less those whose export failed within budget, the one
/// that hardware was abandoned on, and the one that is still with the exporter. A GPU surface
/// and a software picture count alike.
pub proof fn every_frame_received_is_handed_over(events: Seq<DrainEvent>)
    requires
        drain_run(events),
    ensures
        handed_over(events) + heard(events, DrainEvent::Exported(Export::Dropped)) + heard(
            events,
            DrainEvent::Exported(Export::Restart),
        ) + (if drain_after(events) == DrainPhase::Exporting {
            1nat
        } else {
            0nat
        }) == heard(events, DrainEvent::Received(true)),
    decreases events.len(),
{
    if events.len() > 0 {
        every_frame_received_is_handed_over(events.drop_last());
    }
}

/// **A drain ends only for a reason, and goes on until it has one.** It ends where the decoder
/// has no more, where the consumer wants no more and where hardware is abandoned, saying which;
/// otherwise a frame that was given is exported, and one that is dealt with makes way for the
/// next.
pub proof fn a_drain_ends_only_for_a_reason(phase: DrainPhase, event: DrainEvent)
    requires
        drain_expects(phase, event),
    ensures
        ({
            let (after, action) = drain_next(phase, event);
            &&& action == DrainAction::End(Drained::Continue) <==> event == DrainEvent::Received(
                false,
            )
            &&& action == DrainAction::End(Drained::Stopped) <==> event == DrainEvent::Presented(
                false,
            )
            &&& action == DrainAction::End(Drained::Restart) <==> event == DrainEvent::Exported(
                Export::Restart,
            )
            &&& action == DrainAction::Export <==> event == DrainEvent::Received(true)
            &&& action == DrainAction::Receive <==> event == DrainEvent::Presented(true) || event
                == DrainEvent::Exported(Export::Dropped)
            &&& forall|answer: DrainEvent| #[trigger]
                drain_expects(after, answer) <==> match action {
                    DrainAction::Receive => answer is Received,
                    DrainAction::Export => answer is Exported,
                    DrainAction::Present => answer is Presented,
                    DrainAction::End(_) => false,
                }
        }),
{
}

/// **Every decodable frame is sent, as it came.** From the first key frame on, each frame in
/// the negotiated codec goes to the decoder, flagged as it was and stamped with its time in
/// whole microseconds; any other is passed over and changes nothing.
pub proof fn every_decodable_frame_is_sent(
    state: StreamState,
    codec: Option<VideoCodec>,
    keyframe: bool,
    pts: Span,
)
    requires
        state.phase == StreamPhase::Pulling,
    ensures
        ({
            let (after, action) = state.next(StreamEvent::Frame { codec, keyframe, pts });
            if codec == Some(state.codec) && (keyframe || state.synced) {
                &&& action matches StreamAction::Send { pts: stamp, key }
                &&& key == keyframe
                &&& after.synced
                &&& stamp matches Some(micros) ==> micros >= 0 && micros * 1_000 <= pts@ < (micros
                    + 1) * 1_000
                &&& stamp is None <==> pts@ >= (i64::MAX + 1) * 1_000
            } else {
                action == StreamAction::Pull && after == state
            }
        }),
{
}

/// **A mirror goes on until it is told otherwise.** It ends where the consumer wants no more,
/// where hardware is abandoned — then to be rebuilt in software — and once the source has ended
/// and the decoder has been flushed. A frame that was taken is drained, a drain that says to go
/// on leads to the next frame, and a finished source to the flush.
pub proof fn a_mirror_goes_on(state: StreamState, event: StreamEvent)
    requires
        state.expects(event),
    ensures
        ({
            let (after, action) = state.next(event);
            &&& action == StreamAction::End(SessionEnd::Finished) <==> event == StreamEvent::Drained(
                Drained::Stopped,
            ) || event is Flushed
            &&& action == StreamAction::End(SessionEnd::RebuildInSoftware) <==> event
                == StreamEvent::Drained(Drained::Restart)
            &&& action == StreamAction::Flush <==> event is SourceEnded
            &&& action == StreamAction::Drain <==> event == StreamEvent::Sent(true)
            &&& event == StreamEvent::Drained(Drained::Continue) || event == StreamEvent::Sent(
                false,
            ) ==> action == StreamAction::Pull
            &&& after.codec == state.codec
            &&& event !is Frame ==> after.synced == state.synced
            &&& forall|answer: StreamEvent| #[trigger]
                after.expects(answer) <==> match action {
                    StreamAction::Pull => answer is Frame || answer is SourceEnded,
                    StreamAction::Send { .. } => answer is Sent,
                    StreamAction::Drain => answer is Drained,
                    StreamAction::Flush => answer is Flushed,
                    StreamAction::End(_) => false,
                }
        }),
{
}

/// **Every packet of the video stream is decoded, and no other.** A packet of it goes to the
/// decoder, any other is read past, and a drain that says to go on leads to the next read. The
/// session ends where the consumer wants no more, where hardware is abandoned, and after the
/// flush that follows the end of the container; and nowhere else.
pub proof fn every_packet_of_the_stream_is_decoded(video: usize, phase: UrlPhase, event: UrlEvent)
    requires
        url_expects(phase, event),
    ensures
        ({
            let (after, action) = url_next(video, event);
            &&& action == UrlAction::Decode <==> event == UrlEvent::Packet(video)
            &&& action == UrlAction::Read <==> (event is Packet && event != UrlEvent::Packet(
                video,
            )) || event == UrlEvent::Drained(Drained::Continue)
            &&& action == UrlAction::Flush <==> event is InputEnded
            &&& action == UrlAction::End(SessionEnd::Finished) <==> event == UrlEvent::Drained(
                Drained::Stopped,
            ) || event == UrlEvent::Flushed(Drained::Stopped) || event == UrlEvent::Flushed(
                Drained::Continue,
            )
            &&& forall|answer: UrlEvent| #[trigger]
                url_expects(after, answer) <==> match action {
                    UrlAction::Read => answer is Packet || answer is InputEnded,
                    UrlAction::Decode => answer is Drained,
                    UrlAction::Flush => answer is Flushed,
                    UrlAction::End(_) => false,
                }
        }),
{
}

} // verus!
