//! RTP payloads back into whole encoded frames.
//!
//! What a track hands over is one RTP packet at a time; what the decoder wants is one
//! access unit at a time, with a presentation time and a keyframe flag. In between sit two
//! jobs that are easy to get subtly wrong: **reassembly** (a picture is spread over as many
//! packets as it takes, and the last one carries the marker bit) and **timing** (the RTP
//! clock is a 32-bit counter that starts anywhere and wraps).
use super::depacketize::{is_torn, start_code, UnpackState, Unpacker};
use crate::buffers::{
    empty_growing, extend, freeze, growing, held, slice_of, slice_of_growing,
};
use crate::media::{AudioCodec, EncodedFrame, VideoCodec};
use crate::span::Span;
use crate::text::{caseless_equal, same_caseless};
use bytes::{Bytes, BytesMut};
use vstd::prelude::*;

verus! {

/// A codec this receiver will answer an offer with.
///
/// Short by design: these are the three every WebRTC sender has, and a codec not listed
/// here is never registered, so it is never negotiated and never arrives.
#[derive(Debug, Clone, Copy, PartialEq, Eq, Structural)]
pub enum MirrorCodec {
    /// H.264, depacketized to Annex-B.
    H264,
    /// VP8.
    Vp8,
    /// Opus, one RTP packet per frame.
    Opus,
}

impl MirrorCodec {
    /// The codec a mime type names, in any case.
    pub open spec fn named(mime: Seq<char>) -> Option<MirrorCodec> {
        if caseless_equal(mime, "video/H264"@) {
            Some(MirrorCodec::H264)
        } else if caseless_equal(mime, "video/VP8"@) {
            Some(MirrorCodec::Vp8)
        } else if caseless_equal(mime, "audio/opus"@) {
            Some(MirrorCodec::Opus)
        } else {
            None
        }
    }

    /// The codec an SDP mime type names, or `None` for one that was never offered.
    #[must_use]
    pub fn from_mime(mime: &str) -> (codec: Option<MirrorCodec>)
        ensures
            codec == MirrorCodec::named(mime@),
    {
        if same_caseless(mime, "video/H264") {
            Some(MirrorCodec::H264)
        } else if same_caseless(mime, "video/VP8") {
            Some(MirrorCodec::Vp8)
        } else if same_caseless(mime, "audio/opus") {
            Some(MirrorCodec::Opus)
        } else {
            None
        }
    }

    /// Ticks of this codec's RTP clock in a second.
    pub open spec fn rate(self) -> nat {
        match self {
            MirrorCodec::H264 => 90_000,
            MirrorCodec::Vp8 => 90_000,
            MirrorCodec::Opus => 48_000,
        }
    }

    /// The RTP clock this codec's timestamps are counted in.
    #[must_use]
    pub fn clock_rate(self) -> (rate: u32)
        ensures
            rate as nat == self.rate(),
    {
        match self {
            MirrorCodec::H264 => 90_000,
            MirrorCodec::Vp8 => 90_000,
            MirrorCodec::Opus => 48_000,
        }
    }

    /// Whether this is a video codec — which is also whether frames need reassembling
    /// across packets at all.
    #[must_use]
    pub fn is_video(self) -> (video: bool)
        ensures
            video == (self != MirrorCodec::Opus),
    {
        match self {
            MirrorCodec::H264 => true,
            MirrorCodec::Vp8 => true,
            MirrorCodec::Opus => false,
        }
    }

    /// The video codec of the frames, for a video track.
    pub open spec fn video(self) -> Option<VideoCodec> {
        match self {
            MirrorCodec::H264 => Some(VideoCodec::H264),
            MirrorCodec::Vp8 => Some(VideoCodec::Vp8),
            MirrorCodec::Opus => None,
        }
    }

    /// The audio codec of the frames, for an audio track.
    pub open spec fn audio(self) -> Option<AudioCodec> {
        match self {
            MirrorCodec::Opus => Some(AudioCodec::Opus),
            _ => None,
        }
    }
}

/// Whether a start code of three bytes begins at `at`.
pub open spec fn short_code(data: Seq<u8>, at: int) -> bool {
    data[at] == 0 && data[at + 1] == 0 && data[at + 2] == 1
}

/// Whether a start code of four bytes begins at `at`.
pub open spec fn long_code(data: Seq<u8>, at: int) -> bool {
    data[at] == 0 && data[at + 1] == 0 && data[at + 2] == 0 && data[at + 3] == 1
}

/// The types of the units in an Annex-B buffer from `at` on, in order: of each start code,
/// the byte behind it. The byte behind one is not looked at as the beginning of another,
/// and a code with nothing behind it ends the list.
pub open spec fn units_from(data: Seq<u8>, at: int) -> Seq<u8>
    decreases data.len() - at,
    when 0 <= at
{
    if at + 3 >= data.len() {
        Seq::empty()
    } else if short_code(data, at) {
        seq![data[at + 3] & 0x1f] + units_from(data, at + 4)
    } else if long_code(data, at) {
        if at + 4 < data.len() {
            seq![data[at + 4] & 0x1f] + units_from(data, at + 5)
        } else {
            Seq::empty()
        }
    } else {
        units_from(data, at + 1)
    }
}

/// Whether a unit of this type begins a decodable picture: a picture of its own, or a
/// parameter set, which senders emit immediately before one.
pub open spec fn starts_picture(unit: u8) -> bool {
    unit == 5 || unit == 7 || unit == 8
}

/// Whether an assembled access unit begins a decodable picture.
pub open spec fn begins_picture(codec: MirrorCodec, data: Seq<u8>) -> bool {
    match codec {
        MirrorCodec::H264 => exists|i: int|
            0 <= i < units_from(data, 0).len() && starts_picture(
                #[trigger] units_from(data, 0)[i],
            ),
        MirrorCodec::Vp8 => data.len() > 0 && data[0] & 0x01 == 0,
        MirrorCodec::Opus => true,
    }
}

/// The unit types in an Annex-B buffer, in order.
pub fn annexb_nal_types(data: &[u8]) -> (units: Vec<u8>)
    ensures
        units@ == units_from(data@, 0),
{
    let len: usize = data.len();
    let mut units: Vec<u8> = Vec::new();
    let mut at: usize = 0;
    while at < len && len - at > 3
        invariant
            len == data@.len(),
            at <= len,
            units@ + units_from(data@, at as int) == units_from(data@, 0),
        decreases len - at,
    {
        let ghost before = units@;
        let three: bool = data[at] == 0 && data[at + 1] == 0 && data[at + 2] == 1;
        let four: bool = data[at] == 0 && data[at + 1] == 0 && data[at + 2] == 0 && data[at + 3]
            == 1;
        if three {
            units.push(data[at + 3] & 0x1f);
            at += 4;
            proof {
                assert(units@ + units_from(data@, at as int) =~= before + units_from(
                    data@,
                    at - 4,
                ));
            }
        } else if four {
            if len - at > 4 {
                units.push(data[at + 4] & 0x1f);
                at += 5;
                proof {
                    assert(units@ + units_from(data@, at as int) =~= before + units_from(
                        data@,
                        at - 5,
                    ));
                }
            } else {
                proof {
                    assert(units@ + units_from(data@, at as int) =~= units@);
                }
                return units;
            }
        } else {
            at += 1;
        }
    }
    proof {
        assert(units@ + units_from(data@, at as int) =~= units@);
    }
    units
}

/// Whether an assembled access unit begins a decodable picture.
///
/// Load-bearing rather than cosmetic: the decoder drops until it has one, and a stream
/// whose keyframes are never flagged shows nothing at all while looking healthy.
pub fn is_keyframe(codec: MirrorCodec, data: &[u8]) -> (keyframe: bool)
    ensures
        keyframe == begins_picture(codec, data@),
{
    match codec {
        MirrorCodec::H264 => {
            let units: Vec<u8> = annexb_nal_types(data);
            let mut i: usize = 0;
            while i < units.len()
                invariant
                    i <= units@.len(),
                    codec == MirrorCodec::H264,
                    units@ == units_from(data@, 0),
                    forall|j: int| 0 <= j < i ==> !starts_picture(#[trigger] units@[j]),
                decreases units@.len() - i,
            {
                let unit: u8 = units[i];
                if unit == 5 || unit == 7 || unit == 8 {
                    proof {
                        assert(starts_picture(units_from(data@, 0)[i as int]));
                    }
                    return true;
                }
                i += 1;
            }
            false
        },
        MirrorCodec::Vp8 => data.len() > 0 && data[0] & 0x01 == 0,
        MirrorCodec::Opus => true,
    }
}

/// The step from one RTP timestamp to another: their difference around the 32-bit clock,
/// taken the short way round.
pub open spec fn clock_step(from: u32, to: u32) -> int {
    let ahead = (to - from) % 0x1_0000_0000;
    if ahead < 0x8000_0000 {
        ahead
    } else {
        ahead - 0x1_0000_0000
    }
}

/// The step from one RTP timestamp to another.
fn step_between(from: u32, to: u32) -> (step: i64)
    ensures
        step == clock_step(from, to),
        -0x8000_0000 <= step < 0x8000_0000,
{
    let ahead: u32 = to.wrapping_sub(from);
    assert(ahead == (to - from) % 0x1_0000_0000);
    if ahead < 0x8000_0000 {
        ahead as i64
    } else {
        ahead as i64 - 0x1_0000_0000
    }
}

/// A frame's contents, over plain values.
pub struct FrameView {
    /// The video codec, for a video frame.
    pub video_codec: Option<VideoCodec>,
    /// The audio codec, for an audio frame.
    pub audio_codec: Option<AudioCodec>,
    /// When the frame is to be presented.
    pub pts: Span,
    /// Whether decoding can start here.
    pub keyframe: bool,
    /// The encoded bytes.
    pub data: Seq<u8>,
}

/// What a frame holds.
pub open spec fn frame_view(frame: EncodedFrame) -> FrameView {
    FrameView {
        video_codec: frame.video_codec,
        audio_codec: frame.audio_codec,
        pts: frame.pts,
        keyframe: frame.keyframe,
        data: held(frame.data),
    }
}

/// The frames in an optional frame.
pub open spec fn frames_of(frame: Option<EncodedFrame>) -> Seq<FrameView> {
    match frame {
        Some(frame) => seq![frame_view(frame)],
        None => Seq::empty(),
    }
}

/// What an optional frame holds.
pub open spec fn frame_views(frame: Option<EncodedFrame>) -> Option<FrameView> {
    match frame {
        Some(frame) => Some(frame_view(frame)),
        None => None,
    }
}

/// What an assembler has collected.
pub struct TrackState {
    /// The track's codec.
    pub codec: MirrorCodec,
    /// What the depacketizer carries over.
    pub unpack: UnpackState,
    /// The access unit being built.
    pub pending: Seq<u8>,
    /// The RTP timestamp it belongs to.
    pub pending_ts: Option<u32>,
    /// The frames that are complete and have not been handed out, oldest first.
    pub ready: Seq<FrameView>,
    /// The last timestamp that moved the clock.
    pub last_ts: Option<u32>,
    /// How far the clock has come since its first timestamp, in ticks.
    pub elapsed: int,
}

/// A presentation time `elapsed` ticks of a clock in, never before the first.
pub open spec fn presentation(elapsed: int, rate: nat) -> Span {
    let ticks = if elapsed >= 0 {
        elapsed as nat
    } else {
        0
    };
    Span::of(ticks * 1_000_000_000 / rate)
}

impl TrackState {
    /// A track with nothing collected.
    pub open spec fn start(codec: MirrorCodec) -> TrackState {
        TrackState {
            codec,
            unpack: match codec {
                MirrorCodec::H264 => UnpackState::H264(Seq::empty()),
                MirrorCodec::Vp8 => UnpackState::Vp8(super::depacketize::no_extensions()),
                MirrorCodec::Opus => UnpackState::Opus,
            },
            pending: Seq::empty(),
            pending_ts: None,
            ready: Seq::empty(),
            last_ts: None,
            elapsed: 0,
        }
    }

    /// What every track keeps to: its depacketizer is its codec's, no more than one frame
    /// waits to be handed out, and none while a unit is being built; and audio, whose packets
    /// are frames of their own, has neither.
    pub open spec fn well_formed(self) -> bool {
        &&& match self.codec {
            MirrorCodec::H264 => self.unpack is H264,
            MirrorCodec::Vp8 => self.unpack is Vp8,
            MirrorCodec::Opus => self.unpack is Opus,
        }
        &&& self.ready.len() <= 1
        &&& self.ready.len() > 0 ==> self.pending.len() == 0
        &&& self.codec == MirrorCodec::Opus ==> self.pending.len() == 0 && self.ready.len() == 0
    }

    /// How far the clock has come once it has moved to a timestamp.
    pub open spec fn elapsed_at(self, timestamp: u32) -> int {
        match self.last_ts {
            Some(last) => self.elapsed + clock_step(last, timestamp),
            None => 0,
        }
    }

    /// Whether the clock can be moved to a timestamp: its tick count still fits.
    pub open spec fn clock_fits(self, timestamp: u32) -> bool {
        i64::MIN <= self.elapsed_at(timestamp) <= i64::MAX
    }

    /// The access unit being built, as a frame.
    pub open spec fn pending_frame(self) -> FrameView {
        FrameView {
            video_codec: self.codec.video(),
            audio_codec: self.codec.audio(),
            pts: presentation(self.elapsed, self.codec.rate()),
            keyframe: begins_picture(self.codec, self.pending),
            data: self.pending,
        }
    }

    /// The track once its access unit has been closed, and the frames that makes: one, if
    /// there is anything in the unit.
    pub open spec fn closed(self) -> (TrackState, Seq<FrameView>) {
        (
            TrackState { pending: Seq::empty(), pending_ts: None, ..self },
            if self.pending.len() == 0 {
                Seq::empty()
            } else {
                seq![self.pending_frame()]
            },
        )
    }

    /// The track with more frames complete and the oldest of all handed out, and that frame.
    pub open spec fn handed_out(self, made: Seq<FrameView>) -> (TrackState, Option<FrameView>) {
        let all = self.ready + made;
        if all.len() == 0 {
            (TrackState { ready: all, ..self }, None)
        } else {
            (TrackState { ready: all.drop_first(), ..self }, Some(all[0]))
        }
    }

    /// The track once it has been asked for whatever there is, and the frame: the one that
    /// waits, or what has accumulated.
    pub open spec fn flushed(self) -> (TrackState, Option<FrameView>) {
        self.closed().0.handed_out(self.closed().1)
    }

    /// The track with one more chunk of the access unit at a timestamp.
    pub open spec fn with_chunk(self, timestamp: u32, chunk: Seq<u8>) -> TrackState {
        TrackState {
            pending: self.pending + chunk,
            pending_ts: Some(timestamp),
            last_ts: Some(timestamp),
            elapsed: self.elapsed_at(timestamp),
            ..self
        }
    }

    /// The track before a packet at a timestamp is read: a new timestamp closes the
    /// picture that was open.
    pub open spec fn opened(self, timestamp: u32) -> (TrackState, Seq<FrameView>) {
        if self.pending_ts is Some && self.pending_ts != Some(timestamp) {
            self.closed()
        } else {
            (self, Seq::empty())
        }
    }

    /// The track once a packet has been read, and the frames that makes, in order.
    ///
    /// A packet without a payload is nothing. A malformed one is lost, though its timestamp
    /// may still close the picture before it. Otherwise its bytes join the access unit, and
    /// a marker — or any audio packet — completes that.
    pub open spec fn read(self, timestamp: u32, marker: bool, payload: Seq<u8>) -> (
        TrackState,
        Seq<FrameView>,
    ) {
        if payload.len() == 0 {
            (self, Seq::empty())
        } else {
            let (open, before) = self.opened(timestamp);
            let (chunk, unpack) = open.unpack.unpacked(payload);
            let fed = TrackState { unpack, ..open };
            match chunk {
                None => (fed, before),
                Some(chunk) => {
                    let grown = fed.with_chunk(timestamp, chunk);
                    if marker || self.codec == MirrorCodec::Opus {
                        let (after, own) = grown.closed();
                        (after, before + own)
                    } else {
                        (grown, before)
                    }
                },
            }
        }
    }

    /// The track once a packet has been fed to it, and the frame that is handed out: the
    /// oldest of those that are complete.
    pub open spec fn fed(self, timestamp: u32, marker: bool, payload: Seq<u8>) -> (
        TrackState,
        Option<FrameView>,
    ) {
        let (after, made) = self.read(timestamp, marker, payload);
        after.handed_out(made)
    }
}

/// Reassembles one track's packets into [`EncodedFrame`]s.
#[derive(Debug)]
pub struct TrackAssembler {
    codec: MirrorCodec,
    unpacker: Unpacker,
    /// The access unit being built, and the RTP timestamp it belongs to.
    pending: BytesMut,
    pending_ts: Option<u32>,
    /// A frame that was completed by a packet that handed out another.
    ready: Option<EncodedFrame>,
    /// How far the clock has come since the first timestamp, in ticks. Wider than the RTP
    /// clock, which wraps every 13 hours at 90 kHz while a panel is up for weeks.
    extended: i64,
    last_ts: Option<u32>,
}

impl View for TrackAssembler {
    type V = TrackState;

    closed spec fn view(&self) -> TrackState {
        TrackState {
            codec: self.codec,
            unpack: self.unpacker.state(),
            pending: growing(self.pending),
            pending_ts: self.pending_ts,
            ready: frames_of(self.ready),
            last_ts: self.last_ts,
            elapsed: self.extended as int,
        }
    }
}

impl TrackAssembler {
    /// Whether the depacketizer writes what the track is decoded from.
    pub closed spec fn unpacks(self) -> bool {
        self.unpacker.well_formed()
    }

    /// What every assembler keeps to.
    pub open spec fn well_formed(self) -> bool {
        self.unpacks() && self@.well_formed()
    }

    /// An assembler for one negotiated codec.
    #[must_use]
    pub fn new(codec: MirrorCodec) -> (assembler: TrackAssembler)
        ensures
            assembler@ == TrackState::start(codec),
            assembler.well_formed(),
    {
        let unpacker: Unpacker = match codec {
            MirrorCodec::H264 => Unpacker::h264(),
            MirrorCodec::Vp8 => Unpacker::vp8(),
            MirrorCodec::Opus => Unpacker::Opus,
        };
        TrackAssembler {
            codec,
            unpacker,
            pending: empty_growing(),
            pending_ts: None,
            ready: None,
            extended: 0,
            last_ts: None,
        }
    }

    /// Whether the clock can be moved to a timestamp: its tick count still fits.
    pub fn clock_fits(&self, timestamp: u32) -> (fits: bool)
        ensures
            fits == self@.clock_fits(timestamp),
    {
        match self.last_ts {
            None => true,
            Some(last) => {
                let step: i64 = step_between(last, timestamp);
                self.extended.checked_add(step).is_some()
            },
        }
    }

    /// Feed one RTP packet, returning a frame whenever one is complete.
    ///
    /// At most one frame per packet: an audio packet *is* a frame, and a video packet
    /// either continues the current access unit or (carrying the marker) finishes it. A
    /// packet that begins a new timestamp flushes the previous unit first — senders that
    /// lose the marker packet would otherwise weld two pictures into one. One that flushes
    /// the previous unit and is a whole unit itself hands out the previous one, and its own
    /// is handed out by the next packet or flush.
    pub fn push(&mut self, timestamp: u32, marker: bool, payload: &Bytes) -> (frame: Option<
        EncodedFrame,
    >)
        requires
            old(self).well_formed(),
            old(self)@.clock_fits(timestamp),
        ensures
            final(self).well_formed(),
            (final(self)@, frame_views(frame)) == old(self)@.fed(
                timestamp,
                marker,
                held(*payload),
            ),
    {
        proof {
            packets_keep_tracks_well_formed(self@, timestamp, marker, held(*payload));
        }
        if slice_of(payload).len() == 0 {
            return self.hand_out(None, None);
        }
        let closes: bool = match self.pending_ts {
            Some(pending) => pending != timestamp,
            None => false,
        };
        let before: Option<EncodedFrame> = if closes {
            self.close_unit()
        } else {
            None
        };
        let chunk: Bytes = match self.unpacker.unpack(payload) {
            Some(chunk) => chunk,
            None => {
                // One malformed payload is a lost packet, not a lost session.
                return self.hand_out(before, None);
            },
        };
        self.advance_clock(timestamp);
        self.pending_ts = Some(timestamp);
        let more: &[u8] = slice_of(&chunk);
        let so_far: &[u8] = slice_of_growing(&self.pending);
        proof {
            assert(so_far@.len() + more@.len() <= usize::MAX);
        }
        extend(&mut self.pending, more);
        // Audio has no marker discipline worth relying on and no fragmentation: one
        // packet, one frame.
        let own: Option<EncodedFrame> = if marker || !self.codec.is_video() {
            self.close_unit()
        } else {
            None
        };
        self.hand_out(before, own)
    }

    /// Emit whatever there is, if anything: the frame that waits to be handed out, or what
    /// has accumulated.
    pub fn flush(&mut self) -> (frame: Option<EncodedFrame>)
        requires
            old(self).well_formed(),
        ensures
            final(self).well_formed(),
            (final(self)@, frame_views(frame)) == old(self)@.flushed(),
    {
        let closed: Option<EncodedFrame> = self.close_unit();
        self.hand_out(closed, None)
    }

    /// The frame that waits to be handed out, if one does. What is half assembled stays
    /// where it is.
    pub fn take_ready(&mut self) -> (frame: Option<EncodedFrame>)
        requires
            old(self).well_formed(),
        ensures
            final(self).well_formed(),
            (final(self)@, frame_views(frame)) == old(self)@.handed_out(Seq::empty()),
    {
        self.hand_out(None, None)
    }

    /// Hand out the oldest of the frames that are complete, and keep what is left of them.
    fn hand_out(&mut self, first: Option<EncodedFrame>, second: Option<EncodedFrame>) -> (frame:
        Option<EncodedFrame>)
        requires
            old(self)@.ready.len() + frames_of(first).len() + frames_of(second).len() <= 2,
        ensures
            final(self).unpacks() == old(self).unpacks(),
            (final(self)@, frame_views(frame)) == old(self)@.handed_out(
                frames_of(first) + frames_of(second),
            ),
    {
        let ghost all = self@.ready + (frames_of(first) + frames_of(second));
        let mut waiting: Option<EncodedFrame> = None;
        std::mem::swap(&mut waiting, &mut self.ready);
        let (oldest, rest): (Option<EncodedFrame>, Option<EncodedFrame>) = match waiting {
            Some(frame) => (
                Some(frame),
                match first {
                    Some(first) => Some(first),
                    None => second,
                },
            ),
            None => match first {
                Some(first) => (Some(first), second),
                None => (second, None),
            },
        };
        self.ready = rest;
        proof {
            assert(all =~= frames_of(oldest) + frames_of(rest));
            if all.len() > 0 {
                assert(all[0] == frame_view(oldest->0));
                assert(all.drop_first() =~= frames_of(rest));
            }
        }
        oldest
    }

    /// Close the access unit, and make a frame of it if there is anything in it.
    fn close_unit(&mut self) -> (frame: Option<EncodedFrame>)
        ensures
            final(self).unpacks() == old(self).unpacks(),
            (final(self)@, frames_of(frame)) == old(self)@.closed(),
    {
        self.pending_ts = None;
        if slice_of_growing(&self.pending).len() == 0 {
            assert(growing(self.pending) =~= Seq::<u8>::empty());
            return None;
        }
        let mut taken: BytesMut = empty_growing();
        std::mem::swap(&mut taken, &mut self.pending);
        let data: Bytes = freeze(taken);
        let pts: Span = self.pts();
        let keyframe: bool = is_keyframe(self.codec, slice_of(&data));
        let (video_codec, audio_codec): (Option<VideoCodec>, Option<AudioCodec>) =
            match self.codec {
            MirrorCodec::H264 => (Some(VideoCodec::H264), None),
            MirrorCodec::Vp8 => (Some(VideoCodec::Vp8), None),
            MirrorCodec::Opus => (None, Some(AudioCodec::Opus)),
        };
        Some(EncodedFrame { video_codec, audio_codec, pts, keyframe, data })
    }

    /// Extend the 32-bit RTP clock into a monotonic tick count.
    fn advance_clock(&mut self, timestamp: u32)
        requires
            old(self)@.clock_fits(timestamp),
        ensures
            final(self)@ == (TrackState {
                last_ts: Some(timestamp),
                elapsed: old(self)@.elapsed_at(timestamp),
                ..old(self)@
            }),
            final(self).unpacks() == old(self).unpacks(),
    {
        match self.last_ts {
            None => {
                self.extended = 0;
            },
            Some(last) => {
                // The wrapping difference read as signed is the step, which handles the
                // wrap and the occasional out-of-order packet with the same arithmetic.
                let step: i64 = step_between(last, timestamp);
                self.extended += step;
            },
        }
        self.last_ts = Some(timestamp);
    }

    /// The pending unit's presentation time, from the stream's own clock.
    fn pts(&self) -> (pts: Span)
        ensures
            pts == presentation(self@.elapsed, self@.codec.rate()),
    {
        let ticks: u64 = if self.extended >= 0 {
            self.extended as u64
        } else {
            0
        };
        let rate: u64 = self.codec.clock_rate() as u64;
        let nanos: u128 = ticks as u128 * 1_000_000_000 / rate as u128;
        proof {
            assert(ticks as int * 1_000_000_000 / rate as int == nanos as int);
        }
        Span { nanos }
    }
}

/// **The clock starts at the first packet, whatever its timestamp.** RTP timestamps start
/// at a random offset; the first frame of a track is at zero all the same.
pub proof fn the_first_packet_anchors_the_clock(state: TrackState, timestamp: u32)
    requires
        state.last_ts is None,
    ensures
        state.clock_fits(timestamp),
        state.elapsed_at(timestamp) == 0,
        presentation(state.elapsed_at(timestamp), state.codec.rate())@ == 0,
{
}

/// **A wrap is not a leap backwards.** A timestamp that is `ahead` ticks on — around the
/// 32-bit clock, and by less than half of it — moves the track's clock forward by exactly
/// that, wherever on the clock it was.
pub proof fn a_wrap_is_one_more_step(state: TrackState, last: u32, ahead: u32)
    requires
        state.last_ts == Some(last),
        ahead < 0x8000_0000,
    ensures
        ({
            let timestamp = ((last + ahead) % 0x1_0000_0000) as u32;
            state.elapsed_at(timestamp) == state.elapsed + ahead
        }),
{
}

/// **A packet out of order moves the clock back by as much as it is late**, and the one
/// after it makes that up: two steps are as long as one.
pub proof fn steps_add_up(state: TrackState, first: u32, second: u32)
    requires
        state.last_ts is Some,
        -0x8000_0000 <= clock_step(state.last_ts->0, first) + clock_step(first, second)
            < 0x8000_0000,
    ensures
        (TrackState {
            last_ts: Some(first),
            elapsed: state.elapsed_at(first),
            ..state
        }).elapsed_at(second) == state.elapsed_at(second),
{
}

/// **Presentation times follow the clock.** One that is further on is never earlier, and a
/// whole second of ticks is a whole second.
pub proof fn presentation_follows_the_clock(codec: MirrorCodec, earlier: int, later: int)
    requires
        0 <= earlier <= later <= i64::MAX,
    ensures
        presentation(earlier, codec.rate())@ <= presentation(later, codec.rate())@,
        later == earlier + codec.rate() ==> presentation(later, codec.rate())@ == presentation(
            earlier,
            codec.rate(),
        )@ + 1_000_000_000,
{
    let rate = codec.rate() as int;
    assert(0 <= earlier * 1_000_000_000 / rate <= later * 1_000_000_000 / rate <= later
        * 1_000_000_000);
    assert(later * 1_000_000_000 <= u128::MAX);
}

/// **Nothing is welded together.** Once a packet at another timestamp has been fed, no byte
/// of the picture that was open is left in the one being built.
pub proof fn a_new_timestamp_starts_a_new_picture(
    state: TrackState,
    timestamp: u32,
    marker: bool,
    payload: Seq<u8>,
)
    requires
        state.pending_ts is Some,
        state.pending_ts != Some(timestamp),
        payload.len() > 0,
    ensures
        ({
            let (chunk, _) = state.unpack.unpacked(payload);
            let (after, _) = state.fed(timestamp, marker, payload);
            &&& after.pending.len() > 0 ==> chunk == Some(after.pending)
            &&& chunk is None ==> after.pending.len() == 0
        }),
{
    assert(Seq::<u8>::empty() + state.unpack.unpacked(payload).0->0 =~= state.unpack.unpacked(
        payload,
    ).0->0);
}

/// **A picture whose marker was lost is still shown.** The packet that closes it hands it
/// over, whatever else that packet completes.
pub proof fn a_closed_picture_is_emitted(
    state: TrackState,
    timestamp: u32,
    marker: bool,
    payload: Seq<u8>,
)
    requires
        state.well_formed(),
        state.pending_ts is Some,
        state.pending_ts != Some(timestamp),
        state.pending.len() > 0,
        payload.len() > 0,
    ensures
        state.fed(timestamp, marker, payload).1 == Some(state.pending_frame()),
{
    assert(state.ready =~= Seq::empty());
    let (after, made) = state.read(timestamp, marker, payload);
    assert(made[0] == state.pending_frame());
    assert((after.ready + made)[0] == made[0]);
}

/// A packet, as it is fed to a track.
pub struct Packet {
    /// Its timestamp.
    pub timestamp: u32,
    /// Whether it carries the marker.
    pub marker: bool,
    /// Its payload.
    pub payload: Seq<u8>,
}

/// The track once a run of packets has been fed to it.
pub open spec fn after_packets(state: TrackState, packets: Seq<Packet>) -> TrackState
    decreases packets.len(),
{
    if packets.len() == 0 {
        state
    } else {
        let packet = packets.last();
        after_packets(state, packets.drop_last()).fed(
            packet.timestamp,
            packet.marker,
            packet.payload,
        ).0
    }
}

/// The pictures that a run of packets closes or completes, in order.
pub open spec fn pictures_made(state: TrackState, packets: Seq<Packet>) -> Seq<FrameView>
    decreases packets.len(),
{
    if packets.len() == 0 {
        Seq::empty()
    } else {
        let packet = packets.last();
        pictures_made(state, packets.drop_last()) + after_packets(
            state,
            packets.drop_last(),
        ).read(packet.timestamp, packet.marker, packet.payload).1
    }
}

/// The frames that feeding a run of packets hands out, in order.
pub open spec fn frames_handed_out(state: TrackState, packets: Seq<Packet>) -> Seq<FrameView>
    decreases packets.len(),
{
    if packets.len() == 0 {
        Seq::empty()
    } else {
        let packet = packets.last();
        let before = frames_handed_out(state, packets.drop_last());
        match after_packets(state, packets.drop_last()).fed(
            packet.timestamp,
            packet.marker,
            packet.payload,
        ).1 {
            Some(frame) => before.push(frame),
            None => before,
        }
    }
}

/// **Every picture comes out once, in order.** Whatever is fed to a track, the pictures that
/// its packets close or complete are the frames it has handed out and the one, at most, that
/// the next packet or flush will.
pub proof fn every_picture_comes_out_once(codec: MirrorCodec, packets: Seq<Packet>)
    ensures
        ({
            let start = TrackState::start(codec);
            let after = after_packets(start, packets);
            &&& after.well_formed()
            &&& after.ready.len() <= 1
            &&& pictures_made(start, packets) == frames_handed_out(start, packets) + after.ready
        }),
    decreases packets.len(),
{
    let start = TrackState::start(codec);
    if packets.len() == 0 {
        assert(frames_handed_out(start, packets) + start.ready =~= Seq::empty());
    } else {
        let fewer = packets.drop_last();
        every_picture_comes_out_once(codec, fewer);
        one_packet_is_accounted_for(after_packets(start, fewer), packets.last());
        a_run_goes_on(start, packets);
    }
}

/// What a packet makes goes behind what waited, and what is handed out comes from the front.
proof fn one_packet_is_accounted_for(state: TrackState, packet: Packet)
    requires
        state.well_formed(),
    ensures
        ({
            let made = state.read(packet.timestamp, packet.marker, packet.payload).1;
            let (after, frame) = state.fed(packet.timestamp, packet.marker, packet.payload);
            &&& after.well_formed()
            &&& state.ready + made == one_of(frame) + after.ready
        }),
{
    packets_keep_tracks_well_formed(state, packet.timestamp, packet.marker, packet.payload);
    let (read, made) = state.read(packet.timestamp, packet.marker, packet.payload);
    let all = read.ready + made;
    if all.len() > 0 {
        assert(all =~= seq![all[0]] + all.drop_first());
    } else {
        assert(all =~= Seq::<FrameView>::empty() + all);
    }
}

/// The frames in an optional frame.
spec fn one_of(frame: Option<FrameView>) -> Seq<FrameView> {
    match frame {
        Some(frame) => seq![frame],
        None => Seq::empty(),
    }
}

/// A run that is accounted for up to its last packet is accounted for, if that packet is.
proof fn a_run_goes_on(start: TrackState, packets: Seq<Packet>)
    requires
        packets.len() > 0,
        ({
            let fewer = packets.drop_last();
            let packet = packets.last();
            let before = after_packets(start, fewer);
            let made = before.read(packet.timestamp, packet.marker, packet.payload).1;
            let (after, frame) = before.fed(packet.timestamp, packet.marker, packet.payload);
            &&& pictures_made(start, fewer) == frames_handed_out(start, fewer) + before.ready
            &&& before.ready + made == one_of(frame) + after.ready
        }),
    ensures
        pictures_made(start, packets) == frames_handed_out(start, packets) + after_packets(
            start,
            packets,
        ).ready,
{
    let fewer = packets.drop_last();
    let packet = packets.last();
    let before = after_packets(start, fewer);
    let made = before.read(packet.timestamp, packet.marker, packet.payload).1;
    let (after, frame) = before.fed(packet.timestamp, packet.marker, packet.payload);
    let handed = frames_handed_out(start, fewer);
    assert(after_packets(start, packets) == after);
    assert(pictures_made(start, packets) == pictures_made(start, fewer) + made);
    assert(frames_handed_out(start, packets) =~= handed + one_of(frame));
    assert(pictures_made(start, packets) =~= handed + (before.ready + made));
    assert(frames_handed_out(start, packets) + after.ready =~= handed + (one_of(frame)
        + after.ready));
}

/// Feeding a packet leaves a track well formed, and never more than two frames are complete
/// at once.
proof fn packets_keep_tracks_well_formed(
    state: TrackState,
    timestamp: u32,
    marker: bool,
    payload: Seq<u8>,
)
    requires
        state.well_formed(),
    ensures
        ({
            let (read, made) = state.read(timestamp, marker, payload);
            &&& read.ready == state.ready
            &&& state.ready.len() + made.len() <= 2
            &&& state.fed(timestamp, marker, payload).0.well_formed()
        }),
{
}

/// **A malformed packet is a lost packet, not a lost session.** It leaves the picture being
/// built at its timestamp, and the clock, exactly as they were.
pub proof fn junk_is_stepped_over(
    state: TrackState,
    timestamp: u32,
    marker: bool,
    payload: Seq<u8>,
)
    requires
        payload.len() == 0 || (state.unpack.unpacked(payload).0 is None && (state.pending_ts is None
            || state.pending_ts == Some(timestamp))),
    ensures
        ({
            let (after, _) = state.fed(timestamp, marker, payload);
            &&& state.read(timestamp, marker, payload).1 == Seq::<FrameView>::empty()
            &&& after.pending == state.pending
            &&& after.pending_ts == state.pending_ts
            &&& after.last_ts == state.last_ts
            &&& after.elapsed == state.elapsed
        }),
{
}

/// **Every audio packet is a frame of its own**, holding exactly its payload.
pub proof fn every_audio_packet_is_a_frame(
    state: TrackState,
    timestamp: u32,
    marker: bool,
    payload: Seq<u8>,
)
    requires
        state.well_formed(),
        state.codec == MirrorCodec::Opus,
        payload.len() > 0,
    ensures
        ({
            let (after, frame) = state.fed(timestamp, marker, payload);
            &&& frame matches Some(frame)
            &&& frame.data == payload
            &&& frame.keyframe
            &&& frame.pts == presentation(state.elapsed_at(timestamp), 48_000)
            &&& after.well_formed()
        }),
{
    assert(Seq::<u8>::empty() + payload =~= payload);
    assert(state.pending =~= Seq::<u8>::empty());
    packets_keep_tracks_well_formed(state, timestamp, marker, payload);
}

/// One fragment of a unit: the indicator, a header whose end bit is set on the last
/// fragment, and bytes of the unit.
pub open spec fn is_fragment(payload: Seq<u8>, last: bool) -> bool {
    &&& payload.len() > 2
    &&& payload[0] & 0x1f == 28
    &&& (payload[1] & 0x40 != 0) == last
}

/// The bytes of a unit that a run of fragments carries.
pub open spec fn carried(payloads: Seq<Seq<u8>>) -> Seq<u8>
    decreases payloads.len(),
{
    if payloads.len() == 0 {
        Seq::empty()
    } else {
        carried(payloads.drop_last()) + payloads.last().skip(2)
    }
}

/// The track once every payload of a run has been fed at one timestamp, without a marker.
pub open spec fn fed_all(state: TrackState, timestamp: u32, payloads: Seq<Seq<u8>>) -> TrackState
    decreases payloads.len(),
{
    if payloads.len() == 0 {
        state
    } else {
        fed_all(state, timestamp, payloads.drop_last()).fed(timestamp, false, payloads.last()).0
    }
}

/// **A picture spread over fragments is one frame.** However many packets it takes, the
/// last of them, carrying the marker, completes a frame that is a start code, the unit's
/// header put back together, and every byte the fragments carried, in order.
pub proof fn a_fragmented_picture_is_one_frame(
    timestamp: u32,
    payloads: Seq<Seq<u8>>,
    last: Seq<u8>,
)
    requires
        forall|i: int| 0 <= i < payloads.len() ==> is_fragment(#[trigger] payloads[i], false),
        is_fragment(last, true),
    ensures
        ({
            let state = fed_all(TrackState::start(MirrorCodec::H264), timestamp, payloads);
            let frame = state.fed(timestamp, true, last).1;
            &&& frame matches Some(frame)
            &&& frame.data == start_code() + seq![(last[0] & 0x60) | (last[1] & 0x1f)] + carried(
                payloads,
            ) + last.skip(2)
            &&& frame.pts@ == 0
        }),
{
    fragments_are_collected(timestamp, payloads);
    let state = fed_all(TrackState::start(MirrorCodec::H264), timestamp, payloads);
    let header = (last[0] & 0x60) | (last[1] & 0x1f);
    let collected = carried(payloads) + last.skip(2);
    let unit = start_code() + seq![header] + collected;
    assert(!is_torn(last));
    assert(state.unpack.unpacked(last).0 == Some(unit));
    let (open, _) = state.opened(timestamp);
    assert(open == state);
    assert(state.pending + unit =~= unit);
    assert(unit =~= start_code() + seq![header] + carried(payloads) + last.skip(2));
    if payloads.len() > 0 {
        assert(clock_step(timestamp, timestamp) == 0);
    }
    let (after, made) = state.read(timestamp, true, last);
    assert(made.len() == 1);
    assert((after.ready + made)[0] == made[0]);
}

proof fn fragments_are_collected(timestamp: u32, payloads: Seq<Seq<u8>>)
    requires
        forall|i: int| 0 <= i < payloads.len() ==> is_fragment(#[trigger] payloads[i], false),
    ensures
        ({
            let state = fed_all(TrackState::start(MirrorCodec::H264), timestamp, payloads);
            &&& state.codec == MirrorCodec::H264
            &&& state.unpack == UnpackState::H264(carried(payloads))
            &&& state.pending == Seq::<u8>::empty()
            &&& state.ready == Seq::<FrameView>::empty()
            &&& state.elapsed == 0
            &&& state.pending_ts is None || state.pending_ts == Some(timestamp)
            &&& state.last_ts is None || state.last_ts == Some(timestamp)
        }),
    decreases payloads.len(),
{
    if payloads.len() > 0 {
        let fewer = payloads.drop_last();
        assert forall|i: int| 0 <= i < fewer.len() implies is_fragment(
            #[trigger] fewer[i],
            false,
        ) by {
            assert(is_fragment(payloads[i], false));
        }
        fragments_are_collected(timestamp, fewer);
        let before = fed_all(TrackState::start(MirrorCodec::H264), timestamp, fewer);
        let payload = payloads.last();
        assert(is_fragment(payloads[payloads.len() - 1], false));
        assert(!is_torn(payload));
        assert(before.unpack.unpacked(payload).0 == Some(Seq::<u8>::empty()));
        assert(before.opened(timestamp).0 == before);
        assert(before.pending + Seq::<u8>::empty() =~= Seq::<u8>::empty());
        assert(clock_step(timestamp, timestamp) == 0);
    }
}

/// What the depacketizer carries over after a run of payloads.
pub open spec fn unpack_after(unpack: UnpackState, payloads: Seq<Seq<u8>>) -> UnpackState
    decreases payloads.len(),
{
    if payloads.len() == 0 {
        unpack
    } else {
        unpack_after(unpack, payloads.drop_last()).unpacked(payloads.last()).1
    }
}

/// Whether every payload of a run holds something and unpacks.
pub open spec fn all_unpack(unpack: UnpackState, payloads: Seq<Seq<u8>>) -> bool
    decreases payloads.len(),
{
    payloads.len() > 0 ==> {
        &&& all_unpack(unpack, payloads.drop_last())
        &&& payloads.last().len() > 0
        &&& unpack_after(unpack, payloads.drop_last()).unpacked(payloads.last()).0 is Some
    }
}

/// What a run of payloads unpacks to, one behind the other.
pub open spec fn unpacks_to(unpack: UnpackState, payloads: Seq<Seq<u8>>) -> Seq<u8>
    decreases payloads.len(),
{
    if payloads.len() == 0 {
        Seq::empty()
    } else {
        unpacks_to(unpack, payloads.drop_last()) + unpack_after(
            unpack,
            payloads.drop_last(),
        ).unpacked(payloads.last()).0->0
    }
}

/// **A picture is everything its packets carry.** Whatever video track is between pictures,
/// a run of packets at one timestamp that all unpack, the last of them with the marker, hands
/// out nothing before the last; and that hands out one frame, which holds what each of them
/// unpacks to, in order, is a keyframe where that begins a picture, and is at its timestamp's
/// time. Nothing of it is left behind.
#[verifier::rlimit(80)]
pub proof fn a_picture_is_all_its_packets_carry(
    state: TrackState,
    timestamp: u32,
    payloads: Seq<Seq<u8>>,
)
    requires
        state.well_formed(),
        state.codec != MirrorCodec::Opus,
        state.pending.len() == 0,
        state.ready.len() == 0,
        payloads.len() > 0,
        all_unpack(state.unpack, payloads),
    ensures
        ({
            let before = fed_all(state, timestamp, payloads.drop_last());
            let (after, frame) = before.fed(timestamp, true, payloads.last());
            let data = unpacks_to(state.unpack, payloads);
            &&& forall|k: int|
                0 <= k < payloads.len() - 1 ==> fed_all(state, timestamp, payloads.take(k)).fed(
                    timestamp,
                    false,
                    #[trigger] payloads[k],
                ).1 is None
            &&& data.len() > 0 ==> {
                &&& frame matches Some(frame)
                &&& frame.data == data
                &&& frame.keyframe == begins_picture(state.codec, data)
                &&& frame.pts == presentation(state.elapsed_at(timestamp), state.codec.rate())
                &&& frame.video_codec is Some
                &&& frame.audio_codec is None
            }
            &&& data.len() == 0 ==> frame is None
            &&& after.pending.len() == 0
            &&& after.ready.len() == 0
            &&& after.pending_ts is None
            &&& after.elapsed == state.elapsed_at(timestamp)
        }),
{
    let fewer = payloads.drop_last();
    assert forall|k: int| 0 <= k < payloads.len() - 1 implies fed_all(
        state,
        timestamp,
        payloads.take(k),
    ).fed(timestamp, false, #[trigger] payloads[k]).1 is None by {
        nothing_comes_before_the_marker(state, timestamp, payloads, k);
    }
    a_picture_grows(state, timestamp, fewer);
    let before = fed_all(state, timestamp, fewer);
    let (opened, closed) = before.opened(timestamp);
    assert(closed =~= Seq::empty());
    assert(opened.pending =~= before.pending);
    let data = unpacks_to(state.unpack, payloads);
    let chunk = before.unpack.unpacked(payloads.last()).0->0;
    assert(opened.pending + chunk == data);
    assert(clock_step(timestamp, timestamp) == 0);
    let (after, made) = before.read(timestamp, true, payloads.last());
    assert(before.ready =~= Seq::empty());
    if data.len() > 0 {
        assert((after.ready + made) =~= made);
        assert(made.len() == 1);
    } else {
        assert((after.ready + made) =~= Seq::empty());
    }
}

/// No packet of a picture hands anything out before the last.
#[verifier::rlimit(80)]
proof fn nothing_comes_before_the_marker(
    state: TrackState,
    timestamp: u32,
    payloads: Seq<Seq<u8>>,
    k: int,
)
    requires
        state.well_formed(),
        state.codec != MirrorCodec::Opus,
        state.pending.len() == 0,
        state.ready.len() == 0,
        0 <= k < payloads.len(),
        all_unpack(state.unpack, payloads),
    ensures
        fed_all(state, timestamp, payloads.take(k)).fed(timestamp, false, payloads[k]).1 is None,
{
    a_prefix_unpacks(state.unpack, payloads, k + 1);
    let prefix = payloads.take(k + 1);
    assert(prefix.drop_last() =~= payloads.take(k));
    assert(prefix.last() == payloads[k]);
    a_picture_grows(state, timestamp, payloads.take(k));
    let here = fed_all(state, timestamp, payloads.take(k));
    assert(here.ready =~= Seq::empty());
    let (opened, closed) = here.opened(timestamp);
    assert(closed =~= Seq::empty());
    assert((here.ready + closed).len() == 0);
}

proof fn a_prefix_unpacks(unpack: UnpackState, payloads: Seq<Seq<u8>>, k: int)
    requires
        all_unpack(unpack, payloads),
        0 <= k <= payloads.len(),
    ensures
        all_unpack(unpack, payloads.take(k)),
    decreases payloads.len() - k,
{
    if k < payloads.len() {
        a_prefix_unpacks(unpack, payloads, k + 1);
        assert(payloads.take(k + 1).drop_last() =~= payloads.take(k));
    } else {
        assert(payloads.take(k) =~= payloads);
    }
}

/// Until its marker a picture holds what its packets have carried so far.
proof fn a_picture_grows(state: TrackState, timestamp: u32, payloads: Seq<Seq<u8>>)
    requires
        state.well_formed(),
        state.codec != MirrorCodec::Opus,
        state.pending.len() == 0,
        state.ready.len() == 0,
        all_unpack(state.unpack, payloads),
    ensures
        ({
            let after = fed_all(state, timestamp, payloads);
            &&& after.well_formed()
            &&& after.codec == state.codec
            &&& after.unpack == unpack_after(state.unpack, payloads)
            &&& after.pending == unpacks_to(state.unpack, payloads)
            &&& after.ready.len() == 0
            &&& if payloads.len() == 0 {
                after == state
            } else {
                &&& after.pending_ts == Some(timestamp)
                &&& after.last_ts == Some(timestamp)
                &&& after.elapsed == state.elapsed_at(timestamp)
            }
        }),
    decreases payloads.len(),
{
    if payloads.len() > 0 {
        let fewer = payloads.drop_last();
        a_picture_grows(state, timestamp, fewer);
        let before = fed_all(state, timestamp, fewer);
        assert(clock_step(timestamp, timestamp) == 0);
        let (opened, closed) = before.opened(timestamp);
        assert(closed =~= Seq::empty());
        assert(opened.pending =~= before.pending);
        packets_keep_tracks_well_formed(before, timestamp, false, payloads.last());
        let (after, made) = before.read(timestamp, false, payloads.last());
        assert(made =~= Seq::empty());
        assert(after.ready + made =~= Seq::empty());
        assert(after.pending =~= unpacks_to(state.unpack, payloads));
    } else {
        assert(state.pending =~= Seq::empty());
    }
}

/// **A flush gives out what is left, oldest first.** What waited to be handed out and what was
/// being built are what the flush hands out and what then waits; and nothing is being built.
pub proof fn a_flush_gives_out_what_is_left(state: TrackState)
    requires
        state.well_formed(),
    ensures
        ({
            let (after, frame) = state.flushed();
            let left = if state.pending.len() > 0 {
                state.ready.push(state.pending_frame())
            } else {
                state.ready
            };
            &&& left.len() <= 1
            &&& frame is Some <==> left.len() > 0
            &&& frame matches Some(frame) ==> frame == left[0]
            &&& after.ready.len() == 0
            &&& after.pending.len() == 0
            &&& after.pending_ts is None
            &&& after.elapsed == state.elapsed
            &&& after.last_ts == state.last_ts
        }),
{
}

/// **A frame that waits is taken by itself.** What is half assembled stays where it is.
pub proof fn taking_what_is_ready_leaves_the_rest(state: TrackState)
    requires
        state.well_formed(),
    ensures
        ({
            let (after, frame) = state.handed_out(Seq::empty());
            &&& frame is Some <==> state.ready.len() > 0
            &&& frame matches Some(frame) ==> frame == state.ready[0]
            &&& after.ready.len() == 0
            &&& after.pending == state.pending
            &&& after.pending_ts == state.pending_ts
        }),
{
    assert(state.ready + Seq::<FrameView>::empty() =~= state.ready);
}

/// **A presentation time is the ticks, in nanoseconds.** It is the last nanosecond that is not
/// past them, and a clock behind its first timestamp presents at zero.
pub proof fn a_presentation_time_is_its_ticks(codec: MirrorCodec, elapsed: int)
    requires
        elapsed <= i64::MAX,
    ensures
        ({
            let at = presentation(elapsed, codec.rate())@;
            let rate = if codec == MirrorCodec::Opus {
                48_000nat
            } else {
                90_000nat
            };
            &&& elapsed <= 0 ==> at == 0
            &&& elapsed >= 0 ==> at * rate <= elapsed * 1_000_000_000 < (at + 1) * rate
        }),
{
    if elapsed >= 0 {
        let rate = codec.rate() as int;
        let nanos = elapsed * 1_000_000_000;
        assert(nanos / rate <= nanos && nanos <= u128::MAX);
        assert(nanos / rate * rate <= nanos < (nanos / rate + 1) * rate) by (nonlinear_arith)
            requires
                rate > 0,
        ;
    }
}

/// **A codec is named by its mime type, however that is written.** Mime types that differ in
/// case alone name the same codec, and no two codecs share one.
pub proof fn a_codec_is_named_in_any_case(a: Seq<char>, b: Seq<char>)
    requires
        caseless_equal(a, b),
    ensures
        MirrorCodec::named(a) == MirrorCodec::named(b),
{
    caseless_is_shared(a, b, "video/H264"@);
    caseless_is_shared(a, b, "video/VP8"@);
    caseless_is_shared(a, b, "audio/opus"@);
}

/// Texts that differ in case alone match the same texts.
proof fn caseless_is_shared(a: Seq<char>, b: Seq<char>, c: Seq<char>)
    requires
        caseless_equal(a, b),
    ensures
        caseless_equal(a, c) == caseless_equal(b, c),
{
    if caseless_equal(a, c) {
        assert forall|i: int| 0 <= i < b.len() implies crate::text::folded(#[trigger] b[i])
            == crate::text::folded(c[i]) by {
            assert(crate::text::folded(a[i]) == crate::text::folded(c[i]));
        }
    }
    if caseless_equal(b, c) {
        assert forall|i: int| 0 <= i < a.len() implies crate::text::folded(#[trigger] a[i])
            == crate::text::folded(c[i]) by {
            assert(crate::text::folded(b[i]) == crate::text::folded(c[i]));
        }
    }
}

/// The bytes of an access unit made of these units, each behind a start code.
pub open spec fn annexb(units: Seq<Seq<u8>>) -> Seq<u8>
    decreases units.len(),
{
    if units.len() == 0 {
        Seq::empty()
    } else {
        start_code() + units[0] + annexb(units.drop_first())
    }
}

/// Whether a unit holds a header, and no start code in what follows it.
pub open spec fn is_unit(unit: Seq<u8>) -> bool {
    &&& unit.len() > 0
    &&& forall|i: int| 1 <= i && i + 2 < unit.len() ==> !#[trigger] short_code(unit, i)
}

/// **An access unit is a keyframe exactly where one of its units begins a picture.** Of units
/// written one behind the other, a picture of its own or a parameter set anywhere among them
/// makes the whole one, and no other unit does; and what the units are is read off their
/// headers, in order.
#[verifier::rlimit(40)]
pub proof fn a_keyframe_is_known_by_its_units(units: Seq<Seq<u8>>)
    requires
        forall|i: int| 0 <= i < units.len() ==> is_unit(#[trigger] units[i]),
    ensures
        units_from(annexb(units), 0).len() == units.len(),
        forall|i: int|
            0 <= i < units.len() ==> #[trigger] units_from(annexb(units), 0)[i] == units[i][0]
                & 0x1f,
        begins_picture(MirrorCodec::H264, annexb(units)) <==> exists|i: int|
            0 <= i < units.len() && {
                let kind = (#[trigger] units[i])[0] & 0x1f;
                kind == 5 || kind == 7 || kind == 8
            },
    decreases units.len(),
{
    let data = annexb(units);
    if units.len() > 0 {
        let unit = units[0];
        let rest = units.drop_first();
        assert(is_unit(units[0]));
        assert forall|i: int| 0 <= i < rest.len() implies is_unit(#[trigger] rest[i]) by {
            assert(is_unit(units[i + 1]));
        }
        a_keyframe_is_known_by_its_units(rest);
        let head = start_code() + unit;
        let tail = annexb(rest);
        assert(data =~= head + tail);
        if rest.len() > 0 {
            assert(is_unit(rest[0]));
            assert(tail =~= start_code() + (rest[0] + annexb(rest.drop_first())));
            assert(tail.take(4) =~= start_code());
        }
        a_unit_holds_no_code(unit, tail, 5);
        units_stand_where_they_stand(head, tail, 0);
        assert(data[4] == unit[0]);
        assert(long_code(data, 0));
        assert(!short_code(data, 0));
        assert(units_from(data, 0) == seq![unit[0] & 0x1f] + units_from(tail, 0));
        assert forall|i: int| 0 <= i < units.len() implies #[trigger] units_from(data, 0)[i]
            == units[i][0] & 0x1f by {
            if i > 0 {
                assert(units_from(data, 0)[i] == units_from(tail, 0)[i - 1]);
                assert(units[i] == rest[i - 1]);
            }
        }
    } else {
        assert(data =~= Seq::empty());
    }
    if begins_picture(MirrorCodec::H264, data) {
        let i = choose|i: int|
            0 <= i < units_from(data, 0).len() && starts_picture(#[trigger] units_from(data, 0)[i]);
        assert(units_from(data, 0)[i] == units[i][0] & 0x1f);
    }
    if exists|i: int|
        0 <= i < units.len() && {
            let kind = (#[trigger] units[i])[0] & 0x1f;
            kind == 5 || kind == 7 || kind == 8
        } {
        let i = choose|i: int|
            0 <= i < units.len() && {
                let kind = (#[trigger] units[i])[0] & 0x1f;
                kind == 5 || kind == 7 || kind == 8
            };
        assert(starts_picture(units_from(data, 0)[i]));
    }
}

/// No start code begins inside a unit, whatever unit follows it.
proof fn a_unit_holds_no_code(unit: Seq<u8>, tail: Seq<u8>, at: int)
    requires
        is_unit(unit),
        5 <= at <= 4 + unit.len(),
        tail.len() == 0 || (tail.len() > 4 && tail.take(4) == start_code()),
    ensures
        units_from(start_code() + unit + tail, at) == units_from(
            start_code() + unit + tail,
            4 + unit.len() as int,
        ),
    decreases 4 + unit.len() - at,
{
    let data = start_code() + unit + tail;
    if at < 4 + unit.len() {
        a_unit_holds_no_code(unit, tail, at + 1);
        if tail.len() > 0 {
            assert(tail.take(4)[0] == 0 && tail.take(4)[1] == 0 && tail.take(4)[2] == 0
                && tail.take(4)[3] == 1);
        }
        if at + 3 < data.len() {
            let k = at - 4;
            if k + 2 < unit.len() {
                assert(!short_code(unit, k));
            }
            if k + 3 < unit.len() {
                assert(!short_code(unit, k + 1));
            }
            assert(!short_code(data, at));
            assert(!long_code(data, at));
        } else {
            assert(units_from(data, at) =~= Seq::empty());
            assert(units_from(data, at + 1) =~= Seq::empty());
        }
    }
}

/// What stands before it does not change what units a buffer holds.
proof fn units_stand_where_they_stand(head: Seq<u8>, tail: Seq<u8>, at: int)
    requires
        0 <= at,
    ensures
        units_from(head + tail, head.len() + at) == units_from(tail, at),
    decreases tail.len() - at,
{
    let data = head + tail;
    let there = head.len() + at;
    if at + 3 < tail.len() {
        assert(short_code(data, there) == short_code(tail, at));
        assert(long_code(data, there) == long_code(tail, at));
        units_stand_where_they_stand(head, tail, at + 1);
        units_stand_where_they_stand(head, tail, at + 4);
        if at + 4 < tail.len() {
            units_stand_where_they_stand(head, tail, at + 5);
        }
    }
}

/// **A VP8 picture is a keyframe exactly where its first byte is even, and audio always is.**
pub proof fn a_vp8_keyframe_is_even(data: Seq<u8>)
    ensures
        begins_picture(MirrorCodec::Vp8, data) <==> data.len() > 0 && data[0] % 2 == 0,
        begins_picture(MirrorCodec::Opus, data),
{
    if data.len() > 0 {
        let first = data[0];
        assert(first & 0x01 == 0 <==> first % 2 == 0) by (bit_vector);
    }
}

/// **Each codec has one name.** A mime type names a codec exactly where it is that codec's own,
/// in any case, and names none where it is nobody's.
pub proof fn each_codec_has_one_name(mime: Seq<char>)
    ensures
        MirrorCodec::named(mime) == Some(MirrorCodec::H264) <==> caseless_equal(
            mime,
            "video/H264"@,
        ),
        MirrorCodec::named(mime) == Some(MirrorCodec::Vp8) <==> caseless_equal(mime, "video/VP8"@),
        MirrorCodec::named(mime) == Some(MirrorCodec::Opus) <==> caseless_equal(
            mime,
            "audio/opus"@,
        ),
{
    reveal_strlit("video/H264");
    reveal_strlit("video/VP8");
    reveal_strlit("audio/opus");
    if caseless_equal(mime, "audio/opus"@) && caseless_equal(mime, "video/H264"@) {
        assert(crate::text::folded(mime[0]) == crate::text::folded("audio/opus"@[0]));
        assert(crate::text::folded(mime[0]) == crate::text::folded("video/H264"@[0]));
        assert("audio/opus"@[0] == 'a' && "video/H264"@[0] == 'v');
    }
}

/// **A short start code is as good as a long one.** A buffer that begins with the one holds the
/// units that it would hold with the other, and more units may follow behind either.
pub proof fn a_short_code_is_as_good_as_a_long_one(data: Seq<u8>)
    requires
        data.len() > 0,
    ensures
        units_from(seq![0u8, 0u8, 1u8] + data, 0) == units_from(start_code() + data, 0),
        units_from(seq![0u8, 0u8, 1u8] + data, 0) == seq![data[0] & 0x1f] + units_from(data, 1),
{
    let code = seq![0u8, 0u8, 1u8];
    let short = code + data;
    let long = start_code() + data;
    units_stand_where_they_stand(code, data, 1);
    units_stand_where_they_stand(start_code(), data, 1);
    assert(short[0] == 0 && short[1] == 0 && short[2] == 1 && short[3] == data[0]);
    assert(long[0] == 0 && long[1] == 0 && long[2] == 0 && long[3] == 1 && long[4] == data[0]);
    assert(short_code(short, 0));
    assert(!short_code(long, 0));
    assert(long_code(long, 0));
}

/// **A track's frames are in the track's codec.** They are of one kind, video or audio, in the
/// codec of that name, and their clock is the one that kind runs at.
pub proof fn a_tracks_frames_are_in_its_codec(codec: MirrorCodec, video: bool)
    requires
        call_ensures(MirrorCodec::is_video, (codec,), video),
    ensures
        codec.video() == Some(VideoCodec::H264) <==> codec == MirrorCodec::H264,
        codec.video() == Some(VideoCodec::Vp8) <==> codec == MirrorCodec::Vp8,
        codec.audio() == Some(AudioCodec::Opus) <==> codec == MirrorCodec::Opus,
        codec.video() is Some <==> codec.audio() is None,
        video <==> codec.video() is Some,
        codec.rate() == (if video {
            90_000nat
        } else {
            48_000nat
        }),
{
}

} // verus!
