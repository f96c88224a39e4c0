//! LDAC decode: what turns an A2DP payload into frames for the codec library, and what the
//! library's answers mean.
//!
//! One packet is many frames, and the library consumes exactly one per call, reporting how
//! far it got. Its bit reader looks past the frame it is given. Its failure does not always
//! mean "no audio". And the stream, not the negotiation, says what the rate is.
use crate::error::PipelineError;
use crate::span::Span;
use crate::text::{decimal, decimal_text, hex, hex_text, joined, signed, signed_text};
use vstd::prelude::*;

verus! {

/// Bytes of slack the library reads past the frame it is given.
pub const LOOKAHEAD: usize = 2;

/// The shortest that anything but padding can be: a header and two bytes.
pub const SHORTEST_FRAME: usize = 5;

/// The rate from which a frame is twice as long.
pub const HIGH_RATE: u32 = 88_200;

/// A rate and a channel count.
#[derive(Debug, Clone, Copy, PartialEq, Eq, Structural)]
pub struct AudioFormat {
    /// Samples a second, in each channel.
    pub sample_rate: u32,
    /// Channels.
    pub channels: u16,
}

/// The channel mode a decoder starts in.
#[derive(Debug, Clone, Copy, PartialEq, Eq, Structural)]
pub enum ChannelMode {
    /// One channel.
    Mono,
    /// Two.
    Stereo,
}

/// What a decoder is opened with.
#[derive(Debug, Clone, Copy, PartialEq, Eq, Structural)]
pub struct Opening {
    /// The mode.
    pub mode: ChannelMode,
    /// The rate.
    pub rate: i32,
}

/// What initialising the library's decoder came to.
#[derive(Debug, Clone, Copy, PartialEq, Eq, Structural)]
pub enum Opened {
    /// It is open.
    Ready,
    /// The library refused the rate or the channel mode, with a code of its own.
    Refused(i32),
}

/// An LDAC decoder for one stream.
#[derive(Debug, Clone, Copy, PartialEq, Eq, Structural)]
pub struct Decoder {
    negotiated: AudioFormat,
    heard: bool,
    warned_mismatch: bool,
}

impl Decoder {
    /// The negotiated format.
    pub closed spec fn agreed(self) -> AudioFormat {
        self.negotiated
    }

    /// Whether a frame has been decoded.
    pub closed spec fn has_heard(self) -> bool {
        self.heard
    }

    /// Whether a mismatch has been reported.
    pub closed spec fn has_warned(self) -> bool {
        self.warned_mismatch
    }

    /// A decoder for a stream negotiated at `format`, and what to open the library's own
    /// with. `handle` says whether the library had a handle to give; without one, nothing else
    /// is asked.
    ///
    /// Mono when the negotiation said one channel; stereo otherwise. It is the *frame header*
    /// that decides in the end.
    pub fn new(format: AudioFormat, handle: bool) -> (opened: Result<
        (Decoder, Opening),
        PipelineError,
    >)
        ensures
            match opened {
                Ok((decoder, opening)) => {
                    &&& handle
                    &&& format.sample_rate <= i32::MAX
                    &&& decoder.agreed() == format
                    &&& !decoder.has_heard()
                    &&& !decoder.has_warned()
                    &&& opening.rate == format.sample_rate
                    &&& opening.mode == if format.channels <= 1 {
                        ChannelMode::Mono
                    } else {
                        ChannelMode::Stereo
                    }
                },
                Err(PipelineError::Decode(why)) => if handle {
                    &&& format.sample_rate > i32::MAX
                    &&& why@ == "LDAC sample rate "@ + decimal_text(format.sample_rate as nat)
                        + " is out of range"@
                } else {
                    why@ == "could not allocate an LDAC handle"@
                },
                Err(_) => false,
            },
    {
        if !handle {
            return Err(
                PipelineError::Decode(String::from_str("could not allocate an LDAC handle")),
            );
        }
        if format.sample_rate > i32::MAX as u32 {
            let digits = decimal(format.sample_rate as u64);
            let head = joined("LDAC sample rate ", digits.as_str());
            return Err(PipelineError::Decode(joined(head.as_str(), " is out of range")));
        }
        let mode = if format.channels <= 1 {
            ChannelMode::Mono
        } else {
            ChannelMode::Stereo
        };
        Ok(
            (
                Decoder { negotiated: format, heard: false, warned_mismatch: false },
                Opening { mode, rate: format.sample_rate as i32 },
            ),
        )
    }

    /// The negotiated format the decoder was opened with.
    #[must_use]
    pub fn negotiated(&self) -> (format: AudioFormat)
        ensures
            format == self.agreed(),
    {
        self.negotiated
    }

    /// Take note of what a call of the library came to: from the first frame on, the stream
    /// has said what it is.
    pub fn hear(&mut self, call: Call)
        ensures
            final(self).has_heard() == (old(self).has_heard() || call.decoded()),
            final(self).agreed() == old(self).agreed(),
            final(self).has_warned() == old(self).has_warned(),
    {
        if (!call.failed || call.updated) && call.used > 0 {
            self.heard = true;
        }
    }

    /// The format the *stream* is actually in, where the library reports this rate.
    ///
    /// `None` before the first frame: the rate lives in the frame headers, so until one has
    /// been decoded there is nothing to report but the guess the decoder was opened with. A
    /// format with no rate or no channels is not one.
    #[must_use]
    pub fn stream_format(&self, reported: i32) -> (stream: Option<AudioFormat>)
        ensures
            stream == if self.has_heard() && reported > 0 && self.agreed().channels > 0 {
                Some(
                    AudioFormat {
                        sample_rate: reported as u32,
                        channels: self.agreed().channels,
                    },
                )
            } else {
                None
            },
    {
        if self.heard && reported > 0 && self.negotiated.channels > 0 {
            Some(
                AudioFormat { sample_rate: reported as u32, channels: self.negotiated.channels },
            )
        } else {
            None
        }
    }

    /// The rate of what comes out: the stream's own where it has said, the negotiated one
    /// until it has.
    pub fn block_rate(&self, stream: Option<AudioFormat>) -> (rate: u32)
        ensures
            rate == match stream {
                Some(stream) => stream.sample_rate,
                None => self.agreed().sample_rate,
            },
    {
        match stream {
            Some(stream) => stream.sample_rate,
            None => self.negotiated.sample_rate,
        }
    }

    /// Compare the stream against the negotiation, once, and say so if they differ.
    ///
    /// Not a failure: this decoder follows the frame headers.
    pub fn check_against_negotiation(&mut self, stream: Option<AudioFormat>) -> (warn: bool)
        ensures
            warn == (!old(self).has_warned() && (stream matches Some(stream) && stream.sample_rate
                != old(self).agreed().sample_rate)),
            final(self).has_warned() == (old(self).has_warned() || warn),
            final(self).has_heard() == old(self).has_heard(),
            final(self).agreed() == old(self).agreed(),
    {
        if self.warned_mismatch {
            return false;
        }
        match stream {
            Some(stream) => {
                if stream.sample_rate != self.negotiated.sample_rate {
                    self.warned_mismatch = true;
                    return true;
                }
                false
            },
            None => false,
        }
    }
}

impl AudioFormat {
    /// The format as a value of its type is written.
    pub open spec fn written(self) -> Seq<char> {
        "AudioFormat { sample_rate: "@ + decimal_text(self.sample_rate as nat) + ", channels: "@
            + decimal_text(self.channels as nat) + " }"@
    }

    /// The format as a value of its type is written.
    pub fn describe(&self) -> (text: String)
        ensures
            text@ == self.written(),
    {
        let rate = decimal(self.sample_rate as u64);
        let channels = decimal(self.channels as u64);
        let head = joined("AudioFormat { sample_rate: ", rate.as_str());
        let named = joined(head.as_str(), ", channels: ");
        let counted = joined(named.as_str(), channels.as_str());
        joined(counted.as_str(), " }")
    }
}

/// What initialising the library's decoder for a format came to, as the caller hears of it.
pub fn check_opened(opened: Opened, format: AudioFormat) -> (checked: Result<(), PipelineError>)
    ensures
        match checked {
            Ok(()) => opened == Opened::Ready,
            Err(PipelineError::Decode(why)) => match opened {
                Opened::Ready => false,
                Opened::Refused(code) => why@ == "LDAC decoder init refused "@ + format.written()
                    + ": error "@ + signed_text(code as int),
            },
            Err(_) => false,
        },
{
    match opened {
        Opened::Ready => Ok(()),
        Opened::Refused(code) => {
            let words = format.describe();
            let digits = signed(code as i64);
            let head = joined("LDAC decoder init refused ", words.as_str());
            let colon = joined(head.as_str(), ": error ");
            Err(PipelineError::Decode(joined(colon.as_str(), digits.as_str())))
        },
    }
}

/// What the library is handed of a payload.
#[derive(Debug, Clone, Copy, PartialEq, Eq, Structural)]
pub struct Slice {
    /// From where in the payload.
    pub from: usize,
    /// How much of it.
    pub take: usize,
}

/// What one call of the library came to.
#[derive(Debug, Clone, Copy, PartialEq, Eq, Structural)]
pub struct Call {
    /// Whether it says it failed.
    pub failed: bool,
    /// Whether it says that the stream changed configuration under it.
    pub updated: bool,
    /// The payload bytes it says it used.
    pub used: i32,
    /// The output bytes it says it wrote.
    pub wrote: i32,
}

impl Call {
    /// Whether the call decoded a frame: it succeeded, or it reconfigured itself, decoded
    /// the frame and reported failure anyway; and it got past some of the payload.
    pub open spec fn decoded(self) -> bool {
        (!self.failed || self.updated) && self.used > 0
    }

    /// The output bytes to believe, of a buffer of so many.
    pub open spec fn output(self, capacity: nat) -> nat {
        if self.wrote <= 0 {
            0
        } else if self.wrote < capacity {
            self.wrote as nat
        } else {
            capacity
        }
    }
}

/// One payload on its way through the library.
#[derive(Debug, Clone, Copy, PartialEq, Eq, Structural)]
pub struct Payload {
    len: usize,
    offset: usize,
    pts: Span,
    stopped: bool,
}

/// What a decoded frame is.
#[derive(Debug, Clone, Copy, PartialEq, Eq, Structural)]
pub struct Block {
    /// The bytes of the output that hold it.
    pub bytes: usize,
    /// When it plays.
    pub pts: Span,
}

impl Payload {
    /// The payload's length.
    pub closed spec fn length(self) -> nat {
        self.len as nat
    }

    /// How far the library has got.
    pub closed spec fn at(self) -> nat {
        self.offset as nat
    }

    /// When what comes next plays.
    pub closed spec fn plays_at(self) -> Span {
        self.pts
    }

    /// Whether nothing more of it can be decoded.
    pub closed spec fn over(self) -> bool {
        self.stopped
    }

    /// What the library is handed next, if anything: all that is left, as far as it takes
    /// it, where that is more than padding.
    pub open spec fn offers(self, max_frame: nat) -> Option<(nat, nat)> {
        let left = self.length() - self.at();
        if self.over() || left < SHORTEST_FRAME {
            None
        } else {
            Some(
                (
                    self.at(),
                    if left <= max_frame {
                        left as nat
                    } else {
                        max_frame
                    },
                ),
            )
        }
    }

    /// What a call makes of the payload: a frame that used some of it takes it further, a
    /// refused one too, and one that used nothing is its last.
    pub open spec fn advances(self, call: Call, after: Payload) -> bool {
        &&& after.length() == self.length()
        &&& after.plays_at() == self.plays_at()
        &&& if call.used > 0 {
            &&& after.over() == self.over()
            &&& after.at() == if self.at() + call.used < self.length() {
                self.at() + call.used
            } else {
                self.length() as int
            }
        } else {
            after.over() && after.at() == self.at()
        }
    }

    /// A payload of `len` bytes, the first of its frames playing at `pts`.
    pub fn new(len: usize, pts: Span) -> (payload: Payload)
        ensures
            payload.length() == len,
            payload.at() == 0,
            payload.plays_at() == pts,
            !payload.over(),
    {
        Payload { len, offset: 0, pts, stopped: false }
    }

    /// What to hand the library next; nothing once the sequence is finished or unusable.
    pub fn next(&self, max_frame: usize) -> (slice: Option<Slice>)
        ensures
            match slice {
                Some(slice) => self.offers(max_frame as nat) == Some(
                    (slice.from as nat, slice.take as nat),
                ),
                None => self.offers(max_frame as nat) is None,
            },
    {
        if self.stopped || self.offset >= self.len {
            return None;
        }
        let left: usize = self.len - self.offset;
        if left < SHORTEST_FRAME {
            return None;
        }
        let take: usize = if left <= max_frame {
            left
        } else {
            max_frame
        };
        Some(Slice { from: self.offset, take })
    }

    /// What the call came to: a block, or nothing.
    ///
    /// A frame the library refuses is skipped, never fatal. One that consumed nothing cannot be
    /// stepped over: it ends this payload, and only this payload.
    pub fn called(&mut self, call: Call, capacity: usize) -> (block: Option<Block>)
        requires
            old(self).at() < old(self).length(),
        ensures
            old(self).advances(call, *final(self)),
            match block {
                Some(block) => call.decoded() && block.bytes == call.output(capacity as nat)
                    && block.pts == old(self).plays_at(),
                None => !call.decoded(),
            },
    {
        if call.used <= 0 {
            self.stopped = true;
            return None;
        }
        let left: usize = self.len - self.offset;
        let used: u64 = call.used as u64;
        self.offset =
        if used < left as u64 {
            self.offset + used as usize
        } else {
            self.len
        };
        if call.failed && !call.updated {
            return None;
        }
        let bytes: usize = if call.wrote <= 0 {
            0
        } else if (call.wrote as u64) < capacity as u64 {
            call.wrote as usize
        } else {
            capacity
        };
        Some(Block { bytes, pts: self.pts })
    }

    /// A block of audio this long came out: what comes next plays after it.
    pub fn played(&mut self, lasts: Span)
        ensures
            final(self).length() == old(self).length(),
            final(self).at() == old(self).at(),
            final(self).over() == old(self).over(),
            final(self).plays_at() == Span::plus(old(self).plays_at(), lasts),
    {
        self.pts = self.pts.saturating_add(&lasts);
    }
}

/// What the library reads: a slice of the payload, with the slack behind it zeroed.
///
/// Zeroing matters as well as its presence: the bit reader's value ends up in a length the
/// library then trusts.
pub fn scratch(payload: &[u8], slice: Slice) -> (input: Vec<u8>)
    requires
        slice.from + slice.take <= payload@.len(),
        slice.take + LOOKAHEAD <= usize::MAX,
    ensures
        input@ == payload@.subrange(slice.from as int, slice.from + slice.take) + seq![0u8, 0u8],
{
    let len: usize = payload.len();
    let mut input: Vec<u8> = Vec::new();
    let mut i: usize = 0;
    while i < slice.take
        invariant
            i <= slice.take,
            slice.from + slice.take <= len == payload@.len(),
            input@ == payload@.subrange(slice.from as int, slice.from + i),
        decreases slice.take - i,
    {
        input.push(payload[slice.from + i]);
        i += 1;
        proof {
            assert(input@ =~= payload@.subrange(slice.from as int, slice.from + i));
        }
    }
    input.push(0);
    input.push(0);
    input
}

/// How many channels a decoded block of so many samples holds: one where it is exactly one
/// channel's frame.
pub open spec fn channels_in(rate: u32, samples: nat) -> u16 {
    let frame: nat = if rate >= HIGH_RATE {
        256
    } else {
        128
    };
    if samples == frame {
        1
    } else {
        2
    }
}

/// How many channels a decoded block holds, derived from its own size.
///
/// The library tells the sample rate and not the channel count, and the negotiated count is
/// wrong where a sender that negotiated stereo codes mono. One call decodes exactly one frame,
/// so its size is enough to recover it. Anything that does not divide is a short final write,
/// and two channels is the safer reading.
pub fn channels_written(rate: u32, samples: usize) -> (channels: u16)
    ensures
        channels == channels_in(rate, samples as nat),
{
    let frame: usize = if rate >= HIGH_RATE {
        256
    } else {
        128
    };
    if samples == frame {
        1
    } else {
        2
    }
}

/// Bytes as two hex digits each.
pub open spec fn hex_of(bytes: Seq<u8>) -> Seq<char>
    decreases bytes.len(),
{
    if bytes.len() == 0 {
        Seq::empty()
    } else {
        hex_of(bytes.drop_last()) + hex_text(bytes.last() as nat, 2)
    }
}

/// The first few bytes as hex, for the log line that tells framing mistakes apart: a frame
/// starts `aa`, and a payload whose own header was not stripped does not.
pub fn hex_head(bytes: &[u8]) -> (text: String)
    ensures
        text@ == hex_of(
            if bytes@.len() <= 8 {
                bytes@
            } else {
                bytes@.take(8)
            },
        ),
{
    let many: usize = if bytes.len() <= 8 {
        bytes.len()
    } else {
        8
    };
    let mut text: String = String::new();
    let mut i: usize = 0;
    proof {
        assert(bytes@.take(0) =~= Seq::empty());
    }
    while i < many
        invariant
            i <= many <= bytes@.len(),
            text@ == hex_of(bytes@.take(i as int)),
        decreases many - i,
    {
        let digits = hex(bytes[i] as u32, 2);
        text.append(digits.as_str());
        i += 1;
        proof {
            assert(bytes@.take(i as int).drop_last() =~= bytes@.take(i - 1));
            assert(bytes@.take(i as int).last() == bytes@[i - 1]);
        }
    }
    proof {
        if bytes@.len() <= 8 {
            assert(bytes@.take(many as int) =~= bytes@);
        }
    }
    text
}

/// **A payload ends.** Every frame that used some of it takes the library further into it, and
/// one that did not is its last.
pub proof fn a_payload_ends(before: Payload, call: Call, after: Payload, max_frame: nat)
    requires
        before.at() < before.length(),
        before.advances(call, after),
    ensures
        after.over() || after.length() - after.at() < before.length() - before.at(),
        after.at() >= after.length() ==> after.offers(max_frame) is None,
        after.over() ==> after.offers(max_frame) is None,
{
}

/// **One corrupt frame costs no other.** A frame that the library refused, having got past it,
/// is followed by what comes behind it, which plays when the refused one would have.
pub proof fn a_refused_frame_is_skipped(before: Payload, call: Call, after: Payload)
    requires
        before.at() < before.length(),
        !before.over(),
        before.advances(call, after),
        !call.decoded(),
        call.used > 0,
    ensures
        !after.over(),
        after.plays_at() == before.plays_at(),
        after.at() == before.at() + call.used || after.at() == after.length(),
{
}

/// **A reconfiguration is not a dropped frame.** A call that failed because the stream changed
/// under it, and got past some of the payload, decoded a frame.
pub proof fn a_rate_change_loses_nothing(call: Call)
    requires
        call.updated,
        call.used > 0,
    ensures
        call.decoded(),
{
}

/// **The library is handed all that is left, as far as it takes it.** What it is handed begins
/// where it left off, lies within the payload, is no longer than it takes, and is cut short for
/// no other reason; it is handed nothing exactly where the payload is over or only padding is
/// left.
pub proof fn what_is_left_is_handed_over(payload: Payload, max_frame: nat)
    requires
        payload.at() <= payload.length(),
    ensures
        payload.offers(max_frame) is None <==> payload.over() || payload.length() - payload.at()
            < SHORTEST_FRAME,
        payload.offers(max_frame) matches Some((from, take)) ==> {
            &&& from == payload.at()
            &&& from + take <= payload.length()
            &&& take <= max_frame
            &&& from + take == payload.length() || take == max_frame
        },
{
}

/// **A payload is walked once, front to back.** A call moves it on by exactly what it used,
/// never back and never past its end; one that used nothing leaves it where it is, and over.
pub proof fn a_payload_is_walked_once(before: Payload, call: Call, after: Payload)
    requires
        before.at() < before.length(),
        before.advances(call, after),
    ensures
        before.at() <= after.at() <= after.length(),
        after.length() == before.length(),
        after.plays_at() == before.plays_at(),
        call.used > 0 && before.at() + call.used <= before.length() ==> after.at() == before.at()
            + call.used,
        call.used > 0 ==> after.at() > before.at() && after.over() == before.over(),
        call.used <= 0 ==> after.at() == before.at() && after.over(),
{
}

/// **No more output is believed than there can be.** It is what the library says it wrote, within
/// the buffer it wrote to, and nothing where it says less than nothing.
pub proof fn no_more_output_is_believed(call: Call, capacity: nat)
    ensures
        call.output(capacity) <= capacity,
        0 <= call.wrote <= capacity ==> call.output(capacity) == call.wrote,
        call.wrote > capacity ==> call.output(capacity) == capacity,
        call.wrote < 0 ==> call.output(capacity) == 0,
        call.decoded() ==> call.used > 0,
        call.failed && !call.updated ==> !call.decoded(),
        !call.failed && call.used > 0 ==> call.decoded(),
{
}

/// **A block says how many channels it holds.** A frame is so many samples long in each channel,
/// twice as many from the high rates on; a block of one frame is one channel and any other two.
pub proof fn a_block_says_its_channels(rate: u32, samples: nat)
    ensures
        rate < 88_200 ==> (channels_in(rate, samples) == 1 <==> samples == 128),
        rate >= 88_200 ==> (channels_in(rate, samples) == 1 <==> samples == 256),
        channels_in(rate, samples) == 1 || channels_in(rate, samples) == 2,
{
}

/// **Hexadecimal is written byte by byte.** Two digits stand for each, where it stands.
pub proof fn hexadecimal_is_written_byte_by_byte(bytes: Seq<u8>, at: int)
    ensures
        hex_of(bytes).len() == 2 * bytes.len(),
        0 <= at < bytes.len() ==> hex_of(bytes).subrange(2 * at, 2 * at + 2) == hex_text(
            bytes[at] as nat,
            2,
        ),
    decreases bytes.len(),
{
    if bytes.len() > 0 {
        let head = hex_of(bytes.drop_last());
        hexadecimal_is_written_byte_by_byte(bytes.drop_last(), at);
        crate::text::hexadecimal_digits_read_back(bytes.last() as nat, 2);
        if 0 <= at < bytes.len() - 1 {
            assert(hex_of(bytes).subrange(2 * at, 2 * at + 2) =~= head.subrange(
                2 * at,
                2 * at + 2,
            ));
        } else if at == bytes.len() - 1 {
            assert(hex_of(bytes).subrange(2 * at, 2 * at + 2) =~= hex_text(bytes[at] as nat, 2));
        }
    }
}

/// **A stream is what its frames say.** Nothing is reported before the first of them; from then
/// on the rate is the library's and the channels are the negotiation's; and what comes out is at
/// the stream's rate where it has said, and at the negotiated one until it has.
pub proof fn a_stream_is_what_its_frames_say(
    decoder: &Decoder,
    reported: i32,
    stream: Option<AudioFormat>,
    rate: u32,
)
    requires
        call_ensures(Decoder::stream_format, (decoder, reported), stream),
        call_ensures(Decoder::block_rate, (decoder, stream), rate),
    ensures
        !decoder.has_heard() ==> stream is None && rate == decoder.agreed().sample_rate,
        stream matches Some(format) ==> format.sample_rate == reported && rate == reported
            && format.channels == decoder.agreed().channels && format.channels > 0,
        decoder.has_heard() && reported > 0 && decoder.agreed().channels > 0 ==> stream is Some,
        stream is None ==> rate == decoder.agreed().sample_rate,
{
}

/// **What the library reads is the payload and then silence.** Every byte of the slice is where
/// it was, and behind it stand the zeros that it may look at.
pub proof fn what_is_read_is_the_payload(payload: &[u8], slice: Slice, input: Vec<u8>, at: int)
    requires
        slice.from + slice.take <= payload@.len(),
        call_ensures(scratch, (payload, slice), input),
    ensures
        input@.len() == slice.take + LOOKAHEAD,
        0 <= at < slice.take ==> input@[at] == payload@[slice.from + at],
        slice.take <= at < slice.take + LOOKAHEAD ==> input@[at] == 0,
{
}

} // verus!
