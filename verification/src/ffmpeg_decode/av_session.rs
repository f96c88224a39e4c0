//! One decoder incarnation over a demuxed URL, video and audio together.
//!
//! Video packets are held *as packets* until the clock is within a decode lead of wanting
//! them, and the loop goes on reading meanwhile. Audio goes straight through to a bounded
//! queue, which is the throttle of the whole session.
use super::{Drained, SessionEnd, EOF_HOLD, PACING_SLICE, VIDEO_DECODE_LEAD, VIDEO_PACKET_QUEUE};
use crate::span::Span;
use std::collections::VecDeque;
use vstd::prelude::*;

verus! {

/// A video packet waiting for its turn.
#[derive(Debug)]
pub struct Queued<P> {
    /// The packet.
    pub packet: P,
    /// When its picture is wanted: its presentation time, or its decode time where it has
    /// no other, or `None` where it has neither.
    pub at: Option<Span>,
}

/// What a session is waiting to hear.
#[derive(Debug, Clone, Copy, PartialEq, Eq, Structural)]
pub enum AvPhase {
    /// Whether to stop, at the top of the loop.
    Stopping,
    /// Whether a seek was asked for.
    SeekTaking,
    /// That a seek has been served.
    Seeking,
    /// Whether the oldest held packet is due.
    Judging,
    /// What draining the decoder came to, after a held packet went in.
    Decoding,
    /// That a sleep is over, with the queue full.
    Resting,
    /// The container's next packet.
    Reading,
    /// Whether the audio went out.
    Sounding,
    /// What the time is, as the wait for a packet of the tail begins.
    TailAnchoring,
    /// Whether a packet of the tail is due.
    TailJudging(Span),
    /// Whether to stop, with a packet of the tail not yet due.
    TailStopping(Span),
    /// Whether a seek is waiting, with a packet of the tail not yet due.
    TailSeeking(Span),
    /// What the time is, with a packet of the tail not yet due.
    TailClock(Span),
    /// That a sleep is over, with a packet of the tail not yet due.
    TailResting(Span),
    /// Whether to stop, before a packet of the tail goes in.
    TailLastStopping,
    /// What draining the decoder came to, after a packet of the tail went in.
    TailDecoding,
    /// What the last drain came to.
    Flushing,
    /// Nothing: the session is over.
    Ended,
}

/// What happened since the last instruction.
#[derive(Debug)]
pub enum AvEvent<P> {
    /// Whether the session is to stop.
    Stop(bool),
    /// The seek that was asked for, if one was.
    SeekTaken(Option<Span>),
    /// The seek has been served: whether the demuxer moved, or refused to.
    SeekServed(bool),
    /// Whether the clock has reached the time that was asked about.
    Due(bool),
    /// What draining the decoder came to.
    Drained(Drained),
    /// The sleep is over.
    Slept,
    /// The container's next packet, on this stream.
    Packet { stream: usize, packet: P, at: Option<Span> },
    /// The container is exhausted.
    InputEnded,
    /// Whether every decoded block was taken; `false` when the output has gone away.
    AudioSent(bool),
    /// The time.
    Now(Span),
    /// Whether a seek is waiting to be served.
    SeekPending(bool),
}

/// What to do next.
#[derive(Debug)]
pub enum AvAction<P> {
    /// Ask whether the session is to stop.
    AskStop,
    /// Take the seek that was asked for, if one was.
    TakeSeek,
    /// Move everything to this position.
    Seek(Span),
    /// Ask whether the clock has reached this time.
    AskDue(Span),
    /// Send this packet to the video decoder and drain it against the clock.
    Decode(P),
    /// Sleep this long.
    Sleep(Span),
    /// Read the container's next packet.
    Read,
    /// Decode this packet's audio and send every block, blocking until each is taken.
    DecodeAudio(P),
    /// Read the time.
    AskNow,
    /// Ask whether a seek is waiting.
    AskSeekPending,
    /// Tell the video decoder that the item is over, and drain it against the clock.
    Flush,
    /// End this decoder incarnation.
    End(SessionEnd),
}

/// What a session knows and holds.
pub struct AvState<P> {
    /// The video stream's index, if there is one.
    pub video: Option<usize>,
    /// The audio stream's index, if there is one to be decoded.
    pub audio: Option<usize>,
    /// Whether the session can be asked to seek.
    pub seekable: bool,
    /// Video packets read but not yet decoded, oldest first.
    pub held: Seq<Queued<P>>,
    /// The packet of the tail whose turn is being waited for.
    pub tail: Option<Queued<P>>,
    /// What is being waited to hear.
    pub phase: AvPhase,
}

impl AvPhase {
    /// Whether the container has been exhausted.
    pub open spec fn in_tail(self) -> bool {
        match self {
            AvPhase::Stopping => false,
            AvPhase::SeekTaking => false,
            AvPhase::Seeking => false,
            AvPhase::Judging => false,
            AvPhase::Decoding => false,
            AvPhase::Resting => false,
            AvPhase::Reading => false,
            AvPhase::Sounding => false,
            _ => true,
        }
    }

    /// Whether a packet of the tail is in hand.
    pub open spec fn has_tail(self) -> bool {
        match self {
            AvPhase::TailAnchoring => true,
            AvPhase::TailJudging(_) => true,
            AvPhase::TailStopping(_) => true,
            AvPhase::TailSeeking(_) => true,
            AvPhase::TailClock(_) => true,
            AvPhase::TailResting(_) => true,
            AvPhase::TailLastStopping => true,
            _ => false,
        }
    }
}

/// The time at which a picture wanted at `at` is to be decoded.
pub open spec fn decode_time(at: Span) -> Span {
    Span::less(at, Span { nanos: VIDEO_DECODE_LEAD })
}

impl<P> AvState<P> {
    /// The first state of an incarnation.
    pub open spec fn start(video: Option<usize>, audio: Option<usize>, seekable: bool) -> Self {
        AvState {
            video,
            audio,
            seekable,
            held: Seq::empty(),
            tail: None,
            phase: AvPhase::Stopping,
        }
    }

    /// Only a session with video holds packets, never more than the queue takes; a packet
    /// of the tail is in hand exactly while its turn is awaited; and a packet's time is
    /// asked about only while there is one.
    pub open spec fn well_formed(self) -> bool {
        &&& self.held.len() <= VIDEO_PACKET_QUEUE
        &&& self.video is None ==> self.held.len() == 0 && self.tail is None
        &&& self.tail is Some <==> self.phase.has_tail()
        &&& self.phase == AvPhase::Judging ==> self.held.len() > 0 && self.held[0].at is Some
        &&& self.phase == AvPhase::Reading ==> self.held.len() < VIDEO_PACKET_QUEUE
        &&& match self.phase {
            AvPhase::TailJudging(_) => self.tail->0.at is Some,
            AvPhase::TailStopping(_) => self.tail->0.at is Some,
            AvPhase::TailSeeking(_) => self.tail->0.at is Some,
            AvPhase::TailClock(_) => self.tail->0.at is Some,
            AvPhase::TailResting(_) => self.tail->0.at is Some,
            _ => true,
        }
    }

    /// The video packets still to be decoded, in the order they were read.
    pub open spec fn backlog(self) -> Seq<Queued<P>> {
        match self.tail {
            Some(packet) => seq![packet] + self.held,
            None => self.held,
        }
    }

    /// Whether an event is what the session is waiting to hear.
    pub open spec fn expects(self, event: AvEvent<P>) -> bool {
        match self.phase {
            AvPhase::Stopping => event is Stop,
            AvPhase::SeekTaking => event is SeekTaken,
            AvPhase::Seeking => event is SeekServed,
            AvPhase::Judging => event is Due,
            AvPhase::Decoding => event is Drained,
            AvPhase::Resting => event is Slept,
            AvPhase::Reading => event is Packet || event is InputEnded,
            AvPhase::Sounding => event is AudioSent,
            AvPhase::TailAnchoring => event is Now,
            AvPhase::TailJudging(_) => event is Due,
            AvPhase::TailStopping(_) => event is Stop,
            AvPhase::TailSeeking(_) => event is SeekPending,
            AvPhase::TailClock(_) => event is Now,
            AvPhase::TailResting(_) => event is Slept,
            AvPhase::TailLastStopping => event is Stop,
            AvPhase::TailDecoding => event is Drained,
            AvPhase::Flushing => event is Drained,
            AvPhase::Ended => false,
        }
    }

    /// This session waiting to hear something else.
    pub open spec fn at(self, phase: AvPhase) -> Self {
        AvState { phase, ..self }
    }

    /// Back to the top of the loop.
    pub open spec fn again(self) -> (Self, AvAction<P>) {
        (self.at(AvPhase::Stopping), AvAction::AskStop)
    }

    /// The end.
    pub open spec fn over(self, end: SessionEnd) -> (Self, AvAction<P>) {
        (AvState { tail: None, phase: AvPhase::Ended, ..self }, AvAction::End(end))
    }

    /// Nothing held is due: read on, unless there is nowhere to put another packet.
    pub open spec fn read_on(self) -> (Self, AvAction<P>) {
        if self.held.len() >= VIDEO_PACKET_QUEUE {
            (self.at(AvPhase::Resting), AvAction::Sleep(Span { nanos: PACING_SLICE }))
        } else {
            (self.at(AvPhase::Reading), AvAction::Read)
        }
    }

    /// The oldest held packet goes to the decoder.
    pub open spec fn feed(self) -> (Self, AvAction<P>) {
        (
            AvState { held: self.held.drop_first(), phase: AvPhase::Decoding, ..self },
            AvAction::Decode(self.held[0].packet),
        )
    }

    /// Anything held whose turn has come, before reading more. A packet without a time is
    /// due at once.
    pub open spec fn serve(self) -> (Self, AvAction<P>) {
        if self.video is Some && self.held.len() > 0 {
            match self.held[0].at {
                Some(at) => (self.at(AvPhase::Judging), AvAction::AskDue(decode_time(at))),
                None => self.feed(),
            }
        } else {
            self.read_on()
        }
    }

    /// The next packet of the tail, or the end of the item.
    pub open spec fn next_of_tail(self) -> (Self, AvAction<P>) {
        if self.held.len() > 0 {
            (
                AvState {
                    held: self.held.drop_first(),
                    tail: Some(self.held[0]),
                    phase: AvPhase::TailAnchoring,
                    ..self
                },
                AvAction::AskNow,
            )
        } else {
            (self.at(AvPhase::Flushing), AvAction::Flush)
        }
    }

    /// Whether the packet of the tail is due, waiting no longer than `until`.
    pub open spec fn judge_tail(self, until: Span) -> (Self, AvAction<P>) {
        match self.tail->0.at {
            Some(at) => (self.at(AvPhase::TailJudging(until)), AvAction::AskDue(decode_time(at))),
            None => (self.at(AvPhase::TailLastStopping), AvAction::AskStop),
        }
    }

    /// What the session becomes on an event, and what is to be done.
    pub open spec fn next(self, event: AvEvent<P>) -> (Self, AvAction<P>) {
        match (self.phase, event) {
            (AvPhase::Stopping, AvEvent::Stop(stop)) => if stop {
                self.over(SessionEnd::Finished)
            } else if self.seekable {
                (self.at(AvPhase::SeekTaking), AvAction::TakeSeek)
            } else {
                self.serve()
            },
            (AvPhase::SeekTaking, AvEvent::SeekTaken(target)) => match target {
                Some(target) => (self.at(AvPhase::Seeking), AvAction::Seek(target)),
                None => self.serve(),
            },
            (AvPhase::Seeking, AvEvent::SeekServed(moved)) => if moved {
                (AvState { held: Seq::empty(), ..self }).serve()
            } else {
                self.serve()
            },
            (AvPhase::Judging, AvEvent::Due(due)) => if due {
                self.feed()
            } else {
                self.read_on()
            },
            (AvPhase::Decoding, AvEvent::Drained(drained)) => match drained {
                Drained::Continue => self.serve(),
                Drained::Stopped => self.over(SessionEnd::Finished),
                Drained::Restart => self.over(SessionEnd::RebuildInSoftware),
            },
            (AvPhase::Resting, AvEvent::Slept) => self.again(),
            (AvPhase::Reading, AvEvent::Packet { stream, packet, at }) => if self.video == Some(
                stream,
            ) {
                (AvState { held: self.held.push(Queued { packet, at }), ..self }).again()
            } else if self.audio == Some(stream) {
                (self.at(AvPhase::Sounding), AvAction::DecodeAudio(packet))
            } else {
                self.again()
            },
            (AvPhase::Reading, AvEvent::InputEnded) => if self.video is Some {
                self.next_of_tail()
            } else {
                self.over(SessionEnd::Finished)
            },
            (AvPhase::Sounding, AvEvent::AudioSent(sent)) => if sent {
                self.again()
            } else {
                self.over(SessionEnd::Finished)
            },
            (AvPhase::TailAnchoring, AvEvent::Now(now)) => self.judge_tail(
                Span::plus(now, Span { nanos: EOF_HOLD }),
            ),
            (AvPhase::TailJudging(until), AvEvent::Due(due)) => if due {
                (self.at(AvPhase::TailLastStopping), AvAction::AskStop)
            } else {
                (self.at(AvPhase::TailStopping(until)), AvAction::AskStop)
            },
            (AvPhase::TailStopping(until), AvEvent::Stop(stop)) => if stop {
                self.over(SessionEnd::Finished)
            } else if self.seekable {
                (self.at(AvPhase::TailSeeking(until)), AvAction::AskSeekPending)
            } else {
                (self.at(AvPhase::TailClock(until)), AvAction::AskNow)
            },
            (AvPhase::TailSeeking(until), AvEvent::SeekPending(pending)) => if pending {
                (self.at(AvPhase::TailLastStopping), AvAction::AskStop)
            } else {
                (self.at(AvPhase::TailClock(until)), AvAction::AskNow)
            },
            (AvPhase::TailClock(until), AvEvent::Now(now)) => if now.nanos >= until.nanos {
                (self.at(AvPhase::TailLastStopping), AvAction::AskStop)
            } else {
                (
                    self.at(AvPhase::TailResting(until)),
                    AvAction::Sleep(
                        Span::least(Span { nanos: PACING_SLICE }, Span::less(until, now)),
                    ),
                )
            },
            (AvPhase::TailResting(until), AvEvent::Slept) => self.judge_tail(until),
            (AvPhase::TailLastStopping, AvEvent::Stop(stop)) => if stop {
                self.over(SessionEnd::Finished)
            } else {
                (
                    AvState { tail: None, phase: AvPhase::TailDecoding, ..self },
                    AvAction::Decode(self.tail->0.packet),
                )
            },
            (AvPhase::TailDecoding, AvEvent::Drained(drained)) => match drained {
                Drained::Continue => self.next_of_tail(),
                Drained::Stopped => self.over(SessionEnd::Finished),
                Drained::Restart => self.over(SessionEnd::RebuildInSoftware),
            },
            (AvPhase::Flushing, AvEvent::Drained(drained)) => self.over(
                if drained is Restart {
                    SessionEnd::RebuildInSoftware
                } else {
                    SessionEnd::Finished
                },
            ),
            _ => self.over(SessionEnd::Finished),
        }
    }
}

/// One decoder incarnation in progress.
#[derive(Debug)]
pub struct AvSession<P> {
    video: Option<usize>,
    audio: Option<usize>,
    seekable: bool,
    held: VecDeque<Queued<P>>,
    tail: Option<Queued<P>>,
    phase: AvPhase,
}

impl<P> View for AvSession<P> {
    type V = AvState<P>;

    closed spec fn view(&self) -> AvState<P> {
        AvState {
            video: self.video,
            audio: self.audio,
            seekable: self.seekable,
            held: self.held@,
            tail: self.tail,
            phase: self.phase,
        }
    }
}

impl<P> AvSession<P> {
    /// An incarnation over these streams. It begins by being told whether to stop.
    pub fn new(video: Option<usize>, audio: Option<usize>, seekable: bool) -> (session: Self)
        ensures
            session@ == AvState::<P>::start(video, audio, seekable),
            session@.well_formed(),
    {
        AvSession {
            video,
            audio,
            seekable,
            held: VecDeque::new(),
            tail: None,
            phase: AvPhase::Stopping,
        }
    }

    /// Take what happened and say what to do next.
    pub fn step(&mut self, event: AvEvent<P>) -> (action: AvAction<P>)
        requires
            old(self)@.well_formed(),
            old(self)@.expects(event),
        ensures
            (final(self)@, action) == old(self)@.next(event),
            final(self)@.well_formed(),
    {
        match (self.phase, event) {
            (AvPhase::Stopping, AvEvent::Stop(stop)) => if stop {
                self.over(SessionEnd::Finished)
            } else if self.seekable {
                self.phase = AvPhase::SeekTaking;
                AvAction::TakeSeek
            } else {
                self.serve()
            },
            (AvPhase::SeekTaking, AvEvent::SeekTaken(Some(target))) => {
                self.phase = AvPhase::Seeking;
                AvAction::Seek(target)
            },
            (AvPhase::SeekTaking, AvEvent::SeekTaken(None)) => self.serve(),
            (AvPhase::Seeking, AvEvent::SeekServed(moved)) => {
                if moved {
                    // Everything held is from before the seek. Keeping it would decode the
                    // old position's pictures after the demuxer has already moved.
                    self.held.clear();
                }
                self.serve()
            },
            (AvPhase::Judging, AvEvent::Due(due)) => if due {
                self.feed()
            } else {
                self.read_on()
            },
            (AvPhase::Decoding, AvEvent::Drained(drained)) => match drained {
                Drained::Continue => self.serve(),
                Drained::Stopped => self.over(SessionEnd::Finished),
                Drained::Restart => self.over(SessionEnd::RebuildInSoftware),
            },
            (AvPhase::Resting, AvEvent::Slept) => self.again(),
            (AvPhase::Reading, AvEvent::Packet { stream, packet, at }) => {
                if let Some(video) = self.video {
                    if stream == video {
                        // Held rather than decoded and held: a packet costs nothing to
                        // keep, and going back round is what lets the audio through that
                        // this packet is waiting on.
                        self.held.push_back(Queued { packet, at });
                        return self.again();
                    }
                }
                if let Some(audio) = self.audio {
                    if stream == audio {
                        self.phase = AvPhase::Sounding;
                        return AvAction::DecodeAudio(packet);
                    }
                }
                self.again()
            },
            (AvPhase::Reading, AvEvent::InputEnded) => if self.video.is_some() {
                self.next_of_tail()
            } else {
                self.over(SessionEnd::Finished)
            },
            (AvPhase::Sounding, AvEvent::AudioSent(sent)) => if sent {
                self.again()
            } else {
                self.over(SessionEnd::Finished)
            },
            (AvPhase::TailAnchoring, AvEvent::Now(now)) => self.judge_tail(
                now.saturating_add(&Span { nanos: EOF_HOLD }),
            ),
            (AvPhase::TailJudging(until), AvEvent::Due(due)) => {
                self.phase =
                if due {
                    AvPhase::TailLastStopping
                } else {
                    AvPhase::TailStopping(until)
                };
                AvAction::AskStop
            },
            (AvPhase::TailStopping(until), AvEvent::Stop(stop)) => if stop {
                self.over(SessionEnd::Finished)
            } else if self.seekable {
                self.phase = AvPhase::TailSeeking(until);
                AvAction::AskSeekPending
            } else {
                self.phase = AvPhase::TailClock(until);
                AvAction::AskNow
            },
            (AvPhase::TailSeeking(until), AvEvent::SeekPending(pending)) => if pending {
                self.phase = AvPhase::TailLastStopping;
                AvAction::AskStop
            } else {
                self.phase = AvPhase::TailClock(until);
                AvAction::AskNow
            },
            (AvPhase::TailClock(until), AvEvent::Now(now)) => if now.nanos >= until.nanos {
                self.phase = AvPhase::TailLastStopping;
                AvAction::AskStop
            } else {
                self.phase = AvPhase::TailResting(until);
                let rest = until.saturating_sub(&now);
                AvAction::Sleep(Span { nanos: PACING_SLICE }.shorter_of(rest))
            },
            (AvPhase::TailResting(until), AvEvent::Slept) => self.judge_tail(until),
            (AvPhase::TailLastStopping, AvEvent::Stop(stop)) => if stop {
                self.over(SessionEnd::Finished)
            } else {
                match self.tail.take() {
                    Some(queued) => {
                        self.phase = AvPhase::TailDecoding;
                        AvAction::Decode(queued.packet)
                    },
                    None => self.over(SessionEnd::Finished),
                }
            },
            (AvPhase::TailDecoding, AvEvent::Drained(drained)) => match drained {
                Drained::Continue => self.next_of_tail(),
                Drained::Stopped => self.over(SessionEnd::Finished),
                Drained::Restart => self.over(SessionEnd::RebuildInSoftware),
            },
            (AvPhase::Flushing, AvEvent::Drained(drained)) => match drained {
                Drained::Restart => self.over(SessionEnd::RebuildInSoftware),
                _ => self.over(SessionEnd::Finished),
            },
            _ => self.over(SessionEnd::Finished),
        }
    }

    fn again(&mut self) -> (action: AvAction<P>)
        ensures
            (final(self)@, action) == old(self)@.again(),
    {
        self.phase = AvPhase::Stopping;
        AvAction::AskStop
    }

    fn over(&mut self, end: SessionEnd) -> (action: AvAction<P>)
        ensures
            (final(self)@, action) == old(self)@.over(end),
    {
        self.tail = None;
        self.phase = AvPhase::Ended;
        AvAction::End(end)
    }

    fn read_on(&mut self) -> (action: AvAction<P>)
        ensures
            (final(self)@, action) == old(self)@.read_on(),
    {
        if self.held.len() >= VIDEO_PACKET_QUEUE {
            self.phase = AvPhase::Resting;
            AvAction::Sleep(Span { nanos: PACING_SLICE })
        } else {
            self.phase = AvPhase::Reading;
            AvAction::Read
        }
    }

    fn feed(&mut self) -> (action: AvAction<P>)
        requires
            old(self)@.held.len() > 0,
        ensures
            (final(self)@, action) == old(self)@.feed(),
    {
        match self.held.pop_front() {
            Some(queued) => {
                self.phase = AvPhase::Decoding;
                assert(self@.held =~= old(self)@.held.drop_first());
                AvAction::Decode(queued.packet)
            },
            None => self.over(SessionEnd::Finished),
        }
    }

    fn serve(&mut self) -> (action: AvAction<P>)
        ensures
            (final(self)@, action) == old(self)@.serve(),
    {
        if self.video.is_some() && self.held.len() > 0 {
            match self.held[0].at {
                Some(at) => {
                    self.phase = AvPhase::Judging;
                    AvAction::AskDue(at.saturating_sub(&Span { nanos: VIDEO_DECODE_LEAD }))
                },
                None => self.feed(),
            }
        } else {
            self.read_on()
        }
    }

    fn next_of_tail(&mut self) -> (action: AvAction<P>)
        ensures
            (final(self)@, action) == old(self)@.next_of_tail(),
    {
        match self.held.pop_front() {
            Some(queued) => {
                self.tail = Some(queued);
                self.phase = AvPhase::TailAnchoring;
                assert(self@.held =~= old(self)@.held.drop_first());
                AvAction::AskNow
            },
            None => {
                self.phase = AvPhase::Flushing;
                AvAction::Flush
            },
        }
    }

    fn judge_tail(&mut self, until: Span) -> (action: AvAction<P>)
        requires
            old(self)@.tail is Some,
        ensures
            (final(self)@, action) == old(self)@.judge_tail(until),
    {
        let at: Option<Span> = match &self.tail {
            Some(queued) => queued.at,
            None => None,
        };
        match at {
            Some(at) => {
                self.phase = AvPhase::TailJudging(until);
                AvAction::AskDue(at.saturating_sub(&Span { nanos: VIDEO_DECODE_LEAD }))
            },
            None => {
                self.phase = AvPhase::TailLastStopping;
                AvAction::AskStop
            },
        }
    }
}

/// **Every video packet is decoded once, in the order it was read, unless a seek throws it
/// away.** What is still to be decoded grows at the back by what is read, shrinks at the
/// front by what is decoded, is emptied by a seek that moved the demuxer, and otherwise stays
/// as it is until the session ends.
pub proof fn packets_are_decoded_in_order<P>(state: AvState<P>, event: AvEvent<P>)
    requires
        state.well_formed(),
        state.expects(event),
    ensures
        ({
            let (after, action) = state.next(event);
            match (event, action) {
                (_, AvAction::End(_)) => true,
                (AvEvent::SeekServed(true), _) => after.backlog() == Seq::<Queued<P>>::empty(),
                (_, AvAction::Decode(packet)) => {
                    &&& state.backlog().len() > 0
                    &&& packet == state.backlog()[0].packet
                    &&& after.backlog() == state.backlog().drop_first()
                },
                (AvEvent::Packet { stream, packet, at }, _) if state.video == Some(stream) =>
                    after.backlog() == state.backlog().push(Queued { packet, at }),
                _ => after.backlog() == state.backlog(),
            }
        }),
{
    let (after, action) = state.next(event);
    assert(after.backlog() =~= state.backlog() || after.backlog() =~= state.backlog().drop_first()
        || after.backlog() =~= Seq::<Queued<P>>::empty() || (event matches AvEvent::Packet {
        stream,
        packet,
        at,
    } && after.backlog() =~= state.backlog().push(Queued { packet, at })) || action is End);
}

/// **The demuxer never waits for a picture.** With a packet not yet due and room for
/// another, the very next thing is to read: that is what lets audio through, and audio is
/// what makes the packet due.
pub proof fn reading_never_waits_for_a_picture<P>(state: AvState<P>)
    requires
        state.well_formed(),
        state.phase == AvPhase::Judging,
        state.held.len() < VIDEO_PACKET_QUEUE,
    ensures
        state.next(AvEvent::Due(false)).1 == AvAction::<P>::Read,
        state.next(AvEvent::Due(false)).0.held == state.held,
{
}

/// **The queue is bounded.** Whatever happens, no more than [`VIDEO_PACKET_QUEUE`] packets
/// are ever held, and only where there is a video stream to decode them for.
pub proof fn the_packet_queue_is_bounded<P>(state: AvState<P>, event: AvEvent<P>)
    requires
        state.well_formed(),
        state.expects(event),
    ensures
        state.next(event).0.well_formed(),
        state.next(event).0.held.len() <= VIDEO_PACKET_QUEUE,
{
}

/// **A stop ends the session** wherever it is asked about, and as finished, not as failed.
pub proof fn a_stop_ends_the_session<P>(state: AvState<P>)
    requires
        state.expects(AvEvent::Stop(true)),
    ensures
        state.next(AvEvent::Stop(true)).1 == AvAction::<P>::End(SessionEnd::Finished),
        state.next(AvEvent::Stop(true)).0.phase == AvPhase::Ended,
{
}

/// **A seek leaves nothing stale.** Once the demuxer has moved, every packet that was held
/// from the old position is gone, and the next thing is to read at the new one.
pub proof fn a_seek_drops_what_is_held<P>(state: AvState<P>)
    requires
        state.well_formed(),
        state.expects(AvEvent::SeekServed(true)),
    ensures
        state.next(AvEvent::SeekServed(true)).1 == AvAction::<P>::Read,
        state.next(AvEvent::SeekServed(true)).0.backlog().len() == 0,
{
}

/// **A refused seek is otherwise ignored.** Playback carries on from where it was: what is
/// held is kept, and all goes on as if nothing had been asked for.
pub proof fn a_refused_seek_changes_nothing<P>(state: AvState<P>, target: Span)
    requires
        state.well_formed(),
        state.expects(AvEvent::SeekTaken(Some(target))),
    ensures
        ({
            let (seeking, action) = state.next(AvEvent::SeekTaken(Some(target)));
            &&& action == AvAction::<P>::Seek(target)
            &&& seeking.held == state.held
            &&& seeking.next(AvEvent::SeekServed(false)) == state.next(AvEvent::SeekTaken(None))
        }),
{
}

/// **No sleep outlasts a slice, nor the hold of the tail.** A packet of the tail is never slept
/// on past the end of its hold.
pub proof fn sleeps_are_slices<P>(state: AvState<P>, event: AvEvent<P>)
    requires
        state.expects(event),
    ensures
        match state.next(event).1 {
            AvAction::Sleep(span) => span@ <= PACING_SLICE,
            _ => true,
        },
        match (state.phase, event, state.next(event).1) {
            (AvPhase::TailClock(until), AvEvent::Now(now), AvAction::Sleep(span)) => 0 < span@
                && now@ + span@ <= until@,
            _ => true,
        },
{
}

/// **The tail is drained, not read past.** Once the container is exhausted nothing more is
/// read and no audio is decoded, up to the end.
pub proof fn the_tail_only_drains<P>(state: AvState<P>, event: AvEvent<P>)
    requires
        state.expects(event),
        state.phase.in_tail(),
    ensures
        state.next(event).0.phase.in_tail(),
        !(state.next(event).1 is Read),
        !(state.next(event).1 is DecodeAudio),
{
}

/// **The last frames are still shown.** A packet of the tail whose turn does not come is
/// waited for no longer than [`EOF_HOLD`]: the first reading of the clock at or past that
/// sends it on to the decoder, unless the session is stopped.
pub proof fn the_tail_waits_no_longer_than_its_hold<P>(state: AvState<P>, began: Span, now: Span)
    requires
        state.well_formed(),
        state.phase == AvPhase::TailAnchoring,
        state.tail->0.at is Some,
        began@ + EOF_HOLD <= u128::MAX,
        now@ >= began@ + EOF_HOLD,
    ensures
        ({
            let (judging, _) = state.next(AvEvent::Now(began));
            &&& judging.phase matches AvPhase::TailJudging(until)
            &&& judging.at(AvPhase::TailClock(until)).next(AvEvent::Now(now)) == (
                judging.at(AvPhase::TailLastStopping),
                AvAction::<P>::AskStop,
            )
            &&& judging.at(AvPhase::TailLastStopping).next(AvEvent::Stop(false)).1
                == AvAction::Decode(state.tail->0.packet)
        }),
{
}

/// **A session ends only for a reason.** It ends where it is told to stop, where the output
/// has gone away, where the consumer or the hardware ends a drain, where an item without video
/// is exhausted, and after the last drain; and nowhere else. It ends to be rebuilt in software
/// exactly where hardware was abandoned.
pub proof fn a_session_ends_only_for_a_reason<P>(state: AvState<P>, event: AvEvent<P>)
    requires
        state.well_formed(),
        state.expects(event),
    ensures
        ({
            let action = state.next(event).1;
            &&& action is End <==> (match event {
                AvEvent::Stop(stop) => stop,
                AvEvent::AudioSent(sent) => !sent,
                AvEvent::Drained(drained) => drained !is Continue || state.phase
                    == AvPhase::Flushing,
                AvEvent::InputEnded => state.video is None,
                _ => false,
            })
            &&& action matches AvAction::End(end) ==> (end == SessionEnd::RebuildInSoftware <==> (
            event matches AvEvent::Drained(drained) && drained is Restart))
            &&& action is End <==> state.next(event).0.phase == AvPhase::Ended
        }),
{
}

/// **The answer that is awaited is the one to what was asked.** Whatever a session orders, it
/// then waits to hear of that and of nothing else.
pub proof fn what_is_asked_is_what_is_awaited<P>(
    state: AvState<P>,
    event: AvEvent<P>,
    answer: AvEvent<P>,
)
    requires
        state.well_formed(),
        state.expects(event),
    ensures
        ({
            let (after, action) = state.next(event);
            after.expects(answer) <==> (match action {
                AvAction::AskStop => answer is Stop,
                AvAction::TakeSeek => answer is SeekTaken,
                AvAction::Seek(_) => answer is SeekServed,
                AvAction::AskDue(_) => answer is Due,
                AvAction::Decode(_) => answer is Drained,
                AvAction::Sleep(_) => answer is Slept,
                AvAction::Read => answer is Packet || answer is InputEnded,
                AvAction::DecodeAudio(_) => answer is AudioSent,
                AvAction::AskNow => answer is Now,
                AvAction::AskSeekPending => answer is SeekPending,
                AvAction::Flush => answer is Drained,
                AvAction::End(_) => false,
            })
        }),
{
}

/// **What is held is served before more is read, and reading goes on.** Until the container is
/// exhausted, once nothing stands in the way — no stop, no seek still to be served, a drain
/// that says to go on — the oldest packet held is asked about at its own time less the decode
/// lead, or decoded at once where it has none; and with nothing held the next packet is read.
pub proof fn what_is_held_is_served_first<P>(state: AvState<P>, event: AvEvent<P>)
    requires
        state.well_formed(),
        state.expects(event),
        !state.phase.in_tail(),
        match event {
            AvEvent::Stop(stop) => !stop && !state.seekable,
            AvEvent::SeekTaken(target) => target is None,
            AvEvent::SeekServed(_) => true,
            AvEvent::Drained(drained) => drained is Continue,
            _ => false,
        },
    ensures
        ({
            let (after, action) = state.next(event);
            let left = if event == AvEvent::<P>::SeekServed(true) {
                Seq::empty()
            } else {
                state.held
            };
            &&& !after.phase.in_tail()
            &&& left.len() == 0 ==> action == AvAction::<P>::Read && after.held.len() == 0
            &&& left.len() > 0 && left[0].at is None ==> action == AvAction::Decode(left[0].packet)
            &&& left.len() > 0 && left[0].at is Some ==> {
                &&& action is AskDue
                &&& after.held == left
                &&& action->AskDue_0@ + VIDEO_DECODE_LEAD == left[0].at->0@ || (action->AskDue_0@
                    == 0 && left[0].at->0@ <= VIDEO_DECODE_LEAD)
            }
        }),
{
}

/// **A picture is decoded when its time has come, and not before.** Before the container is
/// exhausted, a packet goes to the decoder only on word that it is due, or where it has no
/// time; word that it is due sends it there; and on word that it is not, the next packet is
/// read, or with the queue full a slice is slept.
pub proof fn a_picture_waits_for_its_time<P>(state: AvState<P>, event: AvEvent<P>)
    requires
        state.well_formed(),
        state.expects(event),
        !state.phase.in_tail(),
    ensures
        ({
            let (after, action) = state.next(event);
            &&& action is Decode ==> event == AvEvent::<P>::Due(true) || state.held[0].at is None
            &&& event == AvEvent::<P>::Due(true) ==> action == AvAction::Decode(
                state.held[0].packet,
            )
            &&& event == AvEvent::<P>::Due(false) && state.held.len() < VIDEO_PACKET_QUEUE
                ==> action == AvAction::<P>::Read
            &&& event == AvEvent::<P>::Due(false) && state.held.len() >= VIDEO_PACKET_QUEUE
                ==> action == AvAction::<P>::Sleep(Span { nanos: PACING_SLICE })
            &&& action is Sleep ==> state.held.len() >= VIDEO_PACKET_QUEUE
        }),
{
}

/// **Every packet goes where it belongs.** A packet of the video stream is held, one of the
/// audio stream is decoded as it is, and any other is passed over; nothing else is ever
/// decoded as audio.
pub proof fn every_packet_goes_where_it_belongs<P>(
    state: AvState<P>,
    event: AvEvent<P>,
)
    requires
        state.well_formed(),
        state.expects(event),
    ensures
        ({
            let (after, action) = state.next(event);
            match event {
                AvEvent::Packet { stream, packet, at } => if state.video == Some(stream) {
                    &&& action is AskStop
                    &&& after.held == state.held.push(Queued { packet, at })
                } else if state.audio == Some(stream) {
                    action == AvAction::DecodeAudio(packet) && after.held == state.held
                } else {
                    action is AskStop && after.held == state.held
                },
                _ => action !is DecodeAudio,
            }
        }),
{
}

/// **The loop comes round.** After a packet that was held or passed over, after audio that was
/// taken and after a rest, the session asks whether to stop before anything else; and told to
/// go on, one that can seek asks for a seek each time, and serves the one it is given.
pub proof fn the_loop_comes_round<P>(state: AvState<P>, event: AvEvent<P>)
    requires
        state.well_formed(),
        state.expects(event),
        !state.phase.in_tail(),
    ensures
        ({
            let (after, action) = state.next(event);
            &&& event is Slept || event == AvEvent::<P>::AudioSent(true) ==> action is AskStop
            &&& action is AskStop ==> after.expects(AvEvent::Stop(true)) && !after.phase.in_tail()
            &&& event == AvEvent::<P>::Stop(false) && state.seekable ==> action is TakeSeek
            &&& event matches AvEvent::SeekTaken(target) ==> (target matches Some(to) ==> action
                == AvAction::<P>::Seek(to))
            &&& action is Seek ==> event is SeekTaken
            &&& after.video == state.video
            &&& after.audio == state.audio
            &&& after.seekable == state.seekable
        }),
{
}

/// **Every picture is shown before the end.** An item with video is flushed once its container
/// is exhausted and nothing that was read is left to decode, and not before; and until then the
/// packets that are left are taken up one after the other.
pub proof fn every_picture_is_shown_before_the_end<P>(state: AvState<P>, event: AvEvent<P>)
    requires
        state.well_formed(),
        state.expects(event),
    ensures
        ({
            let (after, action) = state.next(event);
            let goes_on = event is InputEnded || (state.phase == AvPhase::TailDecoding && event
                == AvEvent::<P>::Drained(Drained::Continue));
            &&& action is Flush ==> goes_on && after.backlog().len() == 0
            &&& goes_on && state.video is Some && state.held.len() == 0 ==> action is Flush
            &&& goes_on && state.video is Some && state.held.len() > 0 ==> {
                &&& action is AskNow
                &&& after.tail == Some(state.held[0])
            }
        }),
{
}

/// **The tail is still paced.** A packet of the tail is waited for until the clock has reached
/// it, a seek is wanted or its hold is over, whichever is first, and is then decoded unless the
/// session is stopped. Until then its time is asked about again after every slice.
#[verifier::rlimit(40)]
pub proof fn the_tail_is_still_paced<P>(state: AvState<P>, event: AvEvent<P>)
    requires
        state.well_formed(),
        state.expects(event),
        state.phase.has_tail(),
    ensures
        ({
            let (after, action) = state.next(event);
            let at = state.tail->0.at;
            // How long it is waited for, and what it is asked about.
            &&& event matches AvEvent::Now(now) ==> (state.phase == AvPhase::TailAnchoring ==> match at {
                Some(at) => {
                    &&& after.phase matches AvPhase::TailJudging(until)
                    &&& until@ == now@ + EOF_HOLD || until@ == u128::MAX
                    &&& now@ + EOF_HOLD <= u128::MAX ==> until@ == now@ + EOF_HOLD
                },
                None => after.phase == AvPhase::TailLastStopping,
            })
            &&& action matches AvAction::AskDue(when) ==> (when@ + VIDEO_DECODE_LEAD == at->0@
                || (when@ == 0 && at->0@ <= VIDEO_DECODE_LEAD))
            // What ends the wait.
            &&& event is Due || event is SeekPending ==> (after.phase == AvPhase::TailLastStopping
                <==> event == AvEvent::<P>::Due(true) || event == AvEvent::<P>::SeekPending(true))
            &&& (state.phase matches AvPhase::TailClock(until) ==> (event matches AvEvent::Now(
                now,
            ) ==> (if now@ >= until@ {
                after.phase == AvPhase::TailLastStopping
            } else {
                action is Sleep
            })))
            &&& event is Slept ==> action is AskDue
            // What happens in between.
            &&& event == AvEvent::<P>::Due(false) ==> action is AskStop
            &&& (event == AvEvent::<P>::Stop(false) && state.phase != AvPhase::TailLastStopping
                ==> (if state.seekable {
                action is AskSeekPending
            } else {
                action is AskNow
            }))
            &&& event == AvEvent::<P>::SeekPending(false) ==> action is AskNow
            // And after.
            &&& after.phase == AvPhase::TailLastStopping ==> action is AskStop
            &&& state.phase == AvPhase::TailLastStopping && event == AvEvent::<P>::Stop(false)
                ==> action == AvAction::Decode(state.tail->0.packet)
            &&& action is Decode ==> state.phase == AvPhase::TailLastStopping
            &&& after.phase.has_tail() && after.phase != AvPhase::TailAnchoring ==> after.tail
                == state.tail && after.held == state.held
            // The end of the hold does not move.
            &&& match (state.phase, after.phase) {
                (AvPhase::TailJudging(a), AvPhase::TailStopping(b)) => a == b,
                (AvPhase::TailStopping(a), AvPhase::TailSeeking(b)) => a == b,
                (AvPhase::TailStopping(a), AvPhase::TailClock(b)) => a == b,
                (AvPhase::TailSeeking(a), AvPhase::TailClock(b)) => a == b,
                (AvPhase::TailClock(a), AvPhase::TailResting(b)) => a == b,
                (AvPhase::TailResting(a), AvPhase::TailJudging(b)) => a == b,
                _ => true,
            }
        }),
{
}

} // verus!
