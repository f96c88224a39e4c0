//! The receiving peer connection: answer an offer, then turn the tracks it brings into
//! frames.
//!
//! The connection itself is driven elsewhere. Here is what is decided about it: which port
//! it gets and when that goes back, in what order an answer is put together, which session
//! holds the panel, and what becomes of each packet.
use super::assemble::{frame_view, MirrorCodec, TrackAssembler, TrackState};
use crate::buffers::held;
use crate::error::PipelineError;
use crate::ice_ports::{PoolView, PortPool};
use crate::media::EncodedFrame;
use crate::span::Span;
use crate::text::{begins, chars_of, is_space, joined, space};
use bytes::Bytes;
use rtc::peer_connection::sdp::RTCSessionDescription;
use std::collections::VecDeque;
use vstd::prelude::*;
use vstd::string::*;

verus! {

/// How long to wait for candidate gathering before answering with what there is, in
/// nanoseconds.
///
/// The whole candidate list has to be in the answer, so this sits on the critical path of a
/// sender connecting. A partial list beats refusing the offer.
pub const GATHER_TIMEOUT: u128 = 3_000_000_000;

/// Frames queued from the network before the oldest is dropped.
///
/// Live mirroring: latency beats completeness, so a decoder that has fallen behind loses
/// pictures rather than growing a queue.
pub const FRAME_QUEUE: usize = 20;

/// How often to ask a silent sender for a keyframe, until one arrives, in nanoseconds.
pub const PLI_INTERVAL: u128 = 500_000_000;

/// How many keyframe requests to make before concluding the sender will not send one.
pub const PLI_ATTEMPTS: usize = 12;

/// The `rtc` crate's session description.
#[verifier::external_type_specification]
#[verifier::external_body]
pub struct ExSessionDescription(rtc::peer_connection::sdp::RTCSessionDescription);

/// What keeps a text from being read as an offer, in the reader's own words; `None` where
/// it can be read.
pub uninterp spec fn offer_error(sdp: Seq<char>) -> Option<Seq<char>>;

/// The text of a session description: its `sdp` field.
pub uninterp spec fn offer_text(offer: RTCSessionDescription) -> Seq<char>;

/// Read an offer: `RTCSessionDescription::offer`, which parses the text or says what is
/// wrong with it. Whether it reads, and what is said where it does not, depend on the text
/// alone; a description that was read holds the text as it stands.
#[verifier::external_body]
fn read_offer(sdp: &str) -> (offer: Result<RTCSessionDescription, String>)
    ensures
        match offer {
            Ok(offer) => offer_error(sdp@) is None && offer_text(offer) == sdp@,
            Err(said) => offer_error(sdp@) == Some(said@),
        },
{
    RTCSessionDescription::offer(sdp.to_owned()).map_err(|e| e.to_string())
}

/// The first word of a text: what stands before white space, once any that leads has been
/// skipped.
pub open spec fn first_word(text: Seq<char>) -> Seq<char>
    decreases text.len(),
{
    if text.len() == 0 {
        Seq::empty()
    } else if is_space(text[0]) {
        first_word(text.drop_first())
    } else {
        leading_word(text)
    }
}

/// What stands before the first white space of a text.
pub open spec fn leading_word(text: Seq<char>) -> Seq<char>
    decreases text.len(),
{
    if text.len() == 0 || is_space(text[0]) {
        Seq::empty()
    } else {
        seq![text[0]] + leading_word(text.drop_first())
    }
}

/// What introduces an audio section.
pub open spec fn audio_heading() -> Seq<char> {
    "m=audio "@
}

/// Whether a line opens an audio section that is not rejected: one offered on port 0 is.
pub open spec fn is_audio_line(line: Seq<char>) -> bool {
    &&& begins(line, audio_heading())
    &&& first_word(line.skip(8)).len() > 0
    &&& first_word(line.skip(8)) != "0"@
}

/// Whether `from..to` is one whole line of a text.
pub open spec fn is_line(text: Seq<char>, from: int, to: int) -> bool {
    &&& 0 <= from <= to <= text.len()
    &&& from == 0 || text[from - 1] == '\n'
    &&& to == text.len() || text[to] == '\n'
    &&& forall|i: int| from <= i < to ==> text[i] != '\n'
}

/// Whether an offer has an audio section at all.
pub open spec fn offers_audio(sdp: Seq<char>) -> bool {
    exists|from: int, to: int|
        #[trigger] is_line(sdp, from, to) && is_audio_line(sdp.subrange(from, to))
}

/// Whether `from..to` of a text opens an audio section that is not rejected.
fn audio_line(chars: &Vec<char>, from: usize, to: usize) -> (yes: bool)
    requires
        from <= to <= chars@.len(),
    ensures
        yes == is_audio_line(chars@.subrange(from as int, to as int)),
{
    let ghost line = chars@.subrange(from as int, to as int);
    proof {
        reveal_strlit("m=audio ");
        reveal_strlit("0");
    }
    if to - from < 8 {
        return false;
    }
    let headed: bool = chars[from] == 'm' && chars[from + 1] == '=' && chars[from + 2] == 'a'
        && chars[from + 3] == 'u' && chars[from + 4] == 'd' && chars[from + 5] == 'i' && chars[from
        + 6] == 'o' && chars[from + 7] == ' ';
    if !headed {
        proof {
            if begins(line, audio_heading()) {
                assert(line.take(8) == "m=audio "@);
                assert(line.take(8)[0] == 'm' && line.take(8)[1] == '=' && line.take(8)[2] == 'a'
                    && line.take(8)[3] == 'u' && line.take(8)[4] == 'd' && line.take(8)[5] == 'i'
                    && line.take(8)[6] == 'o' && line.take(8)[7] == ' ');
            }
        }
        return false;
    }
    assert(line.take(8) =~= "m=audio "@);
    let mut at: usize = from + 8;
    assert(line.skip(8) =~= chars@.subrange(at as int, to as int));
    while at < to && space(chars[at])
        invariant
            from + 8 <= at <= to <= chars@.len(),
            first_word(line.skip(8)) == first_word(chars@.subrange(at as int, to as int)),
        decreases to - at,
    {
        proof {
            let rest = chars@.subrange(at as int, to as int);
            assert(rest.drop_first() =~= chars@.subrange(at + 1, to as int));
        }
        at += 1;
    }
    if at == to {
        return false;
    }
    let ghost rest = chars@.subrange(at as int, to as int);
    let zero: bool = chars[at] == '0' && (at + 1 == to || space(chars[at + 1]));
    proof {
        assert(rest[0] == chars@[at as int]);
        let tail = rest.drop_first();
        if at + 1 < to {
            assert(tail[0] == chars@[at + 1]);
        }
        assert(leading_word(rest) == seq![rest[0]] + leading_word(tail));
        if zero {
            assert(leading_word(rest) =~= "0"@);
        } else if leading_word(rest) == "0"@ {
            assert(leading_word(rest)[0] == '0');
            assert(leading_word(rest).len() == 1);
            assert(leading_word(tail).len() == 0);
            if at + 1 < to {
                assert(!is_space(tail[0]));
                assert(leading_word(tail) == seq![tail[0]] + leading_word(tail.drop_first()));
            }
        }
    }
    !zero
}

/// Whether the offer has an audio section at all.
///
/// A scan rather than a full parse because it is one question about one line type. A
/// section offered on port 0 is a *rejected* one — senders that renegotiate away their
/// microphone send exactly that — and reads as "no audio".
pub fn offer_has_audio(sdp: &str) -> (audio: bool)
    ensures
        audio == offers_audio(sdp@),
{
    let chars: Vec<char> = chars_of(sdp);
    let len: usize = chars.len();
    let mut from: usize = 0;
    loop
        invariant
            len == chars@.len(),
            chars@ == sdp@,
            from <= len,
            from == 0 || sdp@[from - 1] == '\n',
            forall|a: int, b: int|
                a < from && #[trigger] is_line(sdp@, a, b) ==> !is_audio_line(
                    sdp@.subrange(a, b),
                ),
        decreases len + 1 - from,
    {
        let mut to: usize = from;
        while to < len && chars[to] != '\n'
            invariant
                from <= to <= len,
                len == chars@.len(),
                chars@ == sdp@,
                forall|i: int| from <= i < to ==> sdp@[i] != '\n',
            decreases len - to,
        {
            to += 1;
        }
        assert(is_line(sdp@, from as int, to as int));
        if audio_line(&chars, from, to) {
            return true;
        }
        assert forall|a: int, b: int| a <= to && #[trigger] is_line(sdp@, a, b) implies
            !is_audio_line(sdp@.subrange(a, b)) by {
            if a >= from {
                if a > from {
                    assert(sdp@[a - 1] == '\n');
                }
                assert(a == from);
                if b < to {
                    assert(sdp@[b] == '\n');
                } else if b > to {
                    assert(sdp@[to as int] != '\n');
                }
                assert(b == to);
            }
        }
        if to == len {
            return false;
        }
        from = to + 1;
    }
}

/// The kind of media a codec is for.
#[derive(Debug, Clone, Copy, PartialEq, Eq, Structural)]
pub enum CodecKind {
    /// Pictures.
    Video,
    /// Sound.
    Audio,
}

/// A codec as an answer registers it.
#[derive(Debug, Clone)]
pub struct CodecParameters {
    /// The kind of media.
    pub kind: CodecKind,
    /// The mime type.
    pub mime_type: &'static str,
    /// The RTP clock.
    pub clock_rate: u32,
    /// How many channels; zero for video.
    pub channels: u16,
    /// The format parameters.
    pub sdp_fmtp_line: &'static str,
    /// The payload type offered. An answerer takes the offerer's numbering, so this is not
    /// what packets arrive stamped with.
    pub payload_type: u8,
}

/// Whether a codec is registered as the assembler will take it: under its own name, kind
/// and clock.
pub open spec fn registers(parameters: CodecParameters, codec: MirrorCodec) -> bool {
    &&& MirrorCodec::named(parameters.mime_type@) == Some(codec)
    &&& parameters.kind == if codec == MirrorCodec::Opus {
        CodecKind::Audio
    } else {
        CodecKind::Video
    }
    &&& parameters.clock_rate as nat == codec.rate()
}

/// The codecs the answer will accept, in order of preference.
///
/// H.264 and VP8 are the mandatory video codecs and Opus the mandatory audio one, so every
/// sender has all three; anything else is refused by not being registered.
pub fn receivable_codecs() -> (codecs: Vec<CodecParameters>)
    ensures
        codecs@.len() == 3,
        registers(codecs@[0], MirrorCodec::H264),
        codecs@[0].mime_type@ == "video/H264"@,
        codecs@[0].channels == 0,
        codecs@[0].payload_type == 102,
        codecs@[0].sdp_fmtp_line@
            == "level-asymmetry-allowed=1;packetization-mode=1;profile-level-id=42e01f"@,
        registers(codecs@[1], MirrorCodec::Vp8),
        codecs@[1].mime_type@ == "video/VP8"@,
        codecs@[1].channels == 0,
        codecs@[1].payload_type == 96,
        codecs@[1].sdp_fmtp_line@ == ""@,
        registers(codecs@[2], MirrorCodec::Opus),
        codecs@[2].mime_type@ == "audio/opus"@,
        codecs@[2].channels == 2,
        codecs@[2].payload_type == 111,
        codecs@[2].sdp_fmtp_line@ == "minptime=10;useinbandfec=1"@,
{
    let mut codecs: Vec<CodecParameters> = Vec::new();
    codecs.push(
        CodecParameters {
            kind: CodecKind::Video,
            mime_type: "video/H264",
            clock_rate: 90_000,
            channels: 0,
            sdp_fmtp_line: "level-asymmetry-allowed=1;packetization-mode=1;profile-level-id=42e01f",
            payload_type: 102,
        },
    );
    codecs.push(
        CodecParameters {
            kind: CodecKind::Video,
            mime_type: "video/VP8",
            clock_rate: 90_000,
            channels: 0,
            sdp_fmtp_line: "",
            payload_type: 96,
        },
    );
    codecs.push(
        CodecParameters {
            kind: CodecKind::Audio,
            mime_type: "audio/opus",
            clock_rate: 48_000,
            channels: 2,
            sdp_fmtp_line: "minptime=10;useinbandfec=1",
            payload_type: 111,
        },
    );
    proof {
        reveal_strlit("video/H264");
        reveal_strlit("video/VP8");
        reveal_strlit("audio/opus");
        assert("audio/opus"@[0] == 'a');
        assert("video/H264"@[0] == 'v');
        assert("video/VP8"@.len() != "video/H264"@.len());
        assert("video/VP8"@.len() != "audio/opus"@.len());
        assert(!crate::text::caseless_equal("audio/opus"@, "video/H264"@)) by {
            assert(crate::text::folded("audio/opus"@[0]) != crate::text::folded(
                "video/H264"@[0],
            ));
        }
    }
    codecs
}

/// A live session: a connection, by whatever number its driver knows it by, and the port
/// it is bound to.
#[derive(Debug, Clone, Copy, PartialEq, Eq, Structural)]
pub struct Session {
    /// The connection.
    pub connection: u64,
    /// Its port.
    pub port: u16,
}

/// What putting an answer together is waiting to hear.
#[derive(Debug, Clone, Copy, PartialEq, Eq, Structural)]
pub enum NegotiatePhase {
    /// Whether the codecs were registered.
    Registering,
    /// Whether the interceptors were.
    Intercepting,
    /// Whether the connection was built.
    Building,
    /// Whether the offer was applied.
    SettingRemote,
    /// Whether an answer was created.
    Answering,
    /// Whether the answer was applied.
    SettingLocal,
    /// That gathering is over, or has taken too long.
    Gathering,
    /// The answer with its candidates.
    Describing,
    /// Nothing: it is answered, or given up.
    Ended,
}

/// What happened since the last instruction.
#[derive(Debug)]
pub enum NegotiateEvent {
    /// The codecs were registered, or this was said.
    Registered(Result<(), String>),
    /// The interceptors were, or this was said.
    Intercepted(Result<(), String>),
    /// The connection was built, or this was said.
    Built(Result<u64, String>),
    /// The offer was applied, or this was said.
    RemoteSet(Result<(), String>),
    /// An answer was created, or this was said.
    Answered(Result<(), String>),
    /// The answer was applied, or this was said.
    LocalSet(Result<(), String>),
    /// Whether gathering completed in time.
    Gathered(bool),
    /// The answer with its candidates, if there is one.
    Described(Option<String>),
}

/// What to do next.
#[derive(Debug)]
pub enum NegotiateAction {
    /// Register the interceptors.
    Intercept,
    /// Build a connection on this port of every address that is offered.
    Build { port: u16 },
    /// Apply the offer.
    SetRemote,
    /// Create an answer. No local track is added: every section is received only.
    CreateAnswer,
    /// Apply the answer.
    SetLocal,
    /// Wait for gathering, no longer than this.
    AwaitGathering(Span),
    /// Fetch the answer with its candidates.
    Describe,
    /// Send this answer, with an audio half where the offer has one, and close this session
    /// that it replaces.
    Answer { sdp: String, audio: bool, close: Option<Session> },
    /// Refuse the offer. Its port has gone back.
    Fail(PipelineError),
}

/// What an answer being put together knows.
#[derive(Debug, Clone, Copy, PartialEq, Eq, Structural)]
pub struct Negotiation {
    /// The port it was given.
    pub port: u16,
    /// Whether the offer has audio.
    pub wants_audio: bool,
    /// The connection, once built.
    pub connection: Option<u64>,
    /// What is being waited to hear.
    pub phase: NegotiatePhase,
}

impl Negotiation {
    /// An answer is fetched only from a connection that was built.
    pub open spec fn well_formed(self) -> bool {
        match self.phase {
            NegotiatePhase::Registering => true,
            NegotiatePhase::Intercepting => true,
            NegotiatePhase::Building => true,
            NegotiatePhase::Ended => true,
            _ => self.connection is Some,
        }
    }

    /// Whether an event is what is being waited to hear.
    pub open spec fn expects(self, event: NegotiateEvent) -> bool {
        match self.phase {
            NegotiatePhase::Registering => event is Registered,
            NegotiatePhase::Intercepting => event is Intercepted,
            NegotiatePhase::Building => event is Built,
            NegotiatePhase::SettingRemote => event is RemoteSet,
            NegotiatePhase::Answering => event is Answered,
            NegotiatePhase::SettingLocal => event is LocalSet,
            NegotiatePhase::Gathering => event is Gathered,
            NegotiatePhase::Describing => event is Described,
            NegotiatePhase::Ended => false,
        }
    }

    /// What an event refuses the offer with, if it does.
    pub open spec fn refusal(event: NegotiateEvent) -> Option<Seq<char>> {
        match event {
            NegotiateEvent::Registered(Err(said)) => Some("codec: "@ + said@),
            NegotiateEvent::Intercepted(Err(said)) => Some("interceptors: "@ + said@),
            NegotiateEvent::Built(Err(said)) => Some("peer connection: "@ + said@),
            NegotiateEvent::RemoteSet(Err(said)) => Some("remote description: "@ + said@),
            NegotiateEvent::Answered(Err(said)) => Some("answer: "@ + said@),
            NegotiateEvent::LocalSet(Err(said)) => Some("local description: "@ + said@),
            NegotiateEvent::Described(None) => Some("no local description after gathering"@),
            _ => None,
        }
    }

    /// What the negotiation becomes on an event.
    pub open spec fn after(self, event: NegotiateEvent) -> Negotiation {
        let phase = if Self::refusal(event) is Some {
            NegotiatePhase::Ended
        } else {
            match event {
                NegotiateEvent::Registered(_) => NegotiatePhase::Intercepting,
                NegotiateEvent::Intercepted(_) => NegotiatePhase::Building,
                NegotiateEvent::Built(_) => NegotiatePhase::SettingRemote,
                NegotiateEvent::RemoteSet(_) => NegotiatePhase::Answering,
                NegotiateEvent::Answered(_) => NegotiatePhase::SettingLocal,
                NegotiateEvent::LocalSet(_) => NegotiatePhase::Gathering,
                NegotiateEvent::Gathered(_) => NegotiatePhase::Describing,
                NegotiateEvent::Described(_) => NegotiatePhase::Ended,
            }
        };
        Negotiation {
            phase,
            connection: match event {
                NegotiateEvent::Built(Ok(connection)) => Some(connection),
                _ => self.connection,
            },
            ..self
        }
    }
}

/// What is active once a connection is over, and the session that is to be closed with it:
/// the active one, where that is the connection's.
pub open spec fn without_session(active: Option<Session>, connection: u64) -> (
    Option<Session>,
    Option<Session>,
) {
    match active {
        Some(session) if session.connection == connection => (None, Some(session)),
        _ => (active, None),
    }
}

/// Answers mirroring offers, one session at a time: a mirror fills the panel, so a second
/// offer replaces the first rather than racing it for the screen.
#[derive(Debug)]
pub struct MirrorReceiver {
    active: Option<Session>,
}

impl View for MirrorReceiver {
    type V = Option<Session>;

    closed spec fn view(&self) -> Option<Session> {
        self.active
    }
}

impl MirrorReceiver {
    /// A receiver with no session, where there is a runtime to drive its connections.
    pub fn new(runtime: bool) -> (receiver: Result<MirrorReceiver, PipelineError>)
        ensures
            match receiver {
                Ok(receiver) => runtime && receiver@ is None,
                Err(PipelineError::Remote(why)) => !runtime && why@
                    == "no async runtime for WebRTC"@,
                Err(_) => false,
            },
    {
        if runtime {
            Ok(MirrorReceiver { active: None })
        } else {
            Err(PipelineError::Remote(String::from_str("no async runtime for WebRTC")))
        }
    }

    /// Whether a mirroring session is up.
    #[must_use]
    pub fn is_active(&self) -> (active: bool)
        ensures
            active == self@ is Some,
    {
        self.active.is_some()
    }

    /// Take up an offer: read it, and give its negotiation a port.
    ///
    /// The negotiation begins with the codecs being registered.
    pub fn build(offer_sdp: &str, ports: &mut PortPool) -> (begun: Result<
        (RTCSessionDescription, Negotiation),
        PipelineError,
    >)
        ensures
            match begun {
                Ok((offer, negotiation)) => {
                    &&& offer_error(offer_sdp@) is None
                    &&& offer_text(offer) == offer_sdp@
                    &&& old(ports)@.is_next(negotiation.port)
                    &&& final(ports)@ == old(ports)@.with(negotiation.port)
                    &&& negotiation == (Negotiation {
                        port: negotiation.port,
                        wants_audio: offers_audio(offer_sdp@),
                        connection: None,
                        phase: NegotiatePhase::Registering,
                    })
                },
                Err(PipelineError::Remote(why)) => {
                    &&& final(ports)@ == old(ports)@
                    &&& match offer_error(offer_sdp@) {
                        Some(said) => why@ == "offer: "@ + said,
                        None => old(ports)@.exhausted() && why@
                            == "every mirroring port is in use"@,
                    }
                },
                Err(_) => false,
            },
    {
        let offer: RTCSessionDescription = match read_offer(offer_sdp) {
            Ok(offer) => offer,
            Err(said) => {
                return Err(PipelineError::Remote(joined("offer: ", said.as_str())));
            },
        };
        match Self::begin(offer_has_audio(offer_sdp), ports) {
            Ok(negotiation) => Ok((offer, negotiation)),
            Err(e) => Err(e),
        }
    }

    /// Give the negotiation of an offer that was read a port.
    pub fn begin(wants_audio: bool, ports: &mut PortPool) -> (begun: Result<
        Negotiation,
        PipelineError,
    >)
        ensures
            match begun {
                Ok(negotiation) => {
                    &&& old(ports)@.is_next(negotiation.port)
                    &&& final(ports)@ == old(ports)@.with(negotiation.port)
                    &&& negotiation == (Negotiation {
                        port: negotiation.port,
                        wants_audio,
                        connection: None,
                        phase: NegotiatePhase::Registering,
                    })
                },
                Err(PipelineError::Remote(why)) => {
                    &&& old(ports)@.exhausted()
                    &&& final(ports)@ == old(ports)@
                    &&& why@ == "every mirroring port is in use"@
                },
                Err(_) => false,
            },
    {
        match ports.take() {
            Some(port) => Ok(
                Negotiation {
                    port,
                    wants_audio,
                    connection: None,
                    phase: NegotiatePhase::Registering,
                },
            ),
            None => Err(
                PipelineError::Remote(String::from_str("every mirroring port is in use")),
            ),
        }
    }

    /// Take what happened in a negotiation and say what to do next.
    ///
    /// A negotiation that failed does not keep its port, or a run of bad offers would
    /// exhaust the range. Only one that has been answered takes the panel, and the session
    /// it replaces is closed afterwards, so that it never binds a port the old one still
    /// holds.
    pub fn negotiate(
        &mut self,
        negotiation: &mut Negotiation,
        ports: &mut PortPool,
        event: NegotiateEvent,
    ) -> (action: NegotiateAction)
        requires
            old(negotiation).well_formed(),
            old(negotiation).expects(event),
        ensures
            *final(negotiation) == old(negotiation).after(event),
            final(negotiation).well_formed(),
            final(negotiation).phase == match action {
                NegotiateAction::Intercept => NegotiatePhase::Intercepting,
                NegotiateAction::Build { .. } => NegotiatePhase::Building,
                NegotiateAction::SetRemote => NegotiatePhase::SettingRemote,
                NegotiateAction::CreateAnswer => NegotiatePhase::Answering,
                NegotiateAction::SetLocal => NegotiatePhase::SettingLocal,
                NegotiateAction::AwaitGathering(_) => NegotiatePhase::Gathering,
                NegotiateAction::Describe => NegotiatePhase::Describing,
                NegotiateAction::Answer { .. } => NegotiatePhase::Ended,
                NegotiateAction::Fail(_) => NegotiatePhase::Ended,
            },
            match Negotiation::refusal(event) {
                Some(refusal) => {
                    &&& final(ports)@ == old(ports)@.without(old(negotiation).port)
                    &&& final(self)@ == old(self)@
                    &&& action matches NegotiateAction::Fail(PipelineError::Remote(why))
                    &&& why@ == refusal
                },
                None => {
                    &&& final(ports)@ == old(ports)@
                    &&& match event {
                        NegotiateEvent::Described(Some(sdp)) => {
                            &&& final(self)@ == Some(
                                Session {
                                    connection: old(negotiation).connection->0,
                                    port: old(negotiation).port,
                                },
                            )
                            &&& action == (NegotiateAction::Answer {
                                sdp,
                                audio: old(negotiation).wants_audio,
                                close: old(self)@,
                            })
                        },
                        _ => {
                            &&& final(self)@ == old(self)@
                            &&& action == match event {
                                NegotiateEvent::Registered(_) => NegotiateAction::Intercept,
                                NegotiateEvent::Intercepted(_) => NegotiateAction::Build {
                                    port: old(negotiation).port,
                                },
                                NegotiateEvent::Built(_) => NegotiateAction::SetRemote,
                                NegotiateEvent::RemoteSet(_) => NegotiateAction::CreateAnswer,
                                NegotiateEvent::Answered(_) => NegotiateAction::SetLocal,
                                NegotiateEvent::LocalSet(_) => NegotiateAction::AwaitGathering(
                                    Span { nanos: GATHER_TIMEOUT },
                                ),
                                _ => NegotiateAction::Describe,
                            }
                        },
                    }
                },
            },
    {
        match event {
            NegotiateEvent::Registered(Ok(())) => {
                negotiation.phase = NegotiatePhase::Intercepting;
                NegotiateAction::Intercept
            },
            NegotiateEvent::Registered(Err(said)) => refuse(
                negotiation,
                ports,
                joined("codec: ", said.as_str()),
            ),
            NegotiateEvent::Intercepted(Ok(())) => {
                negotiation.phase = NegotiatePhase::Building;
                NegotiateAction::Build { port: negotiation.port }
            },
            NegotiateEvent::Intercepted(Err(said)) => refuse(
                negotiation,
                ports,
                joined("interceptors: ", said.as_str()),
            ),
            NegotiateEvent::Built(Ok(connection)) => {
                negotiation.connection = Some(connection);
                negotiation.phase = NegotiatePhase::SettingRemote;
                NegotiateAction::SetRemote
            },
            NegotiateEvent::Built(Err(said)) => refuse(
                negotiation,
                ports,
                joined("peer connection: ", said.as_str()),
            ),
            NegotiateEvent::RemoteSet(Ok(())) => {
                negotiation.phase = NegotiatePhase::Answering;
                NegotiateAction::CreateAnswer
            },
            NegotiateEvent::RemoteSet(Err(said)) => refuse(
                negotiation,
                ports,
                joined("remote description: ", said.as_str()),
            ),
            NegotiateEvent::Answered(Ok(())) => {
                negotiation.phase = NegotiatePhase::SettingLocal;
                NegotiateAction::SetLocal
            },
            NegotiateEvent::Answered(Err(said)) => refuse(
                negotiation,
                ports,
                joined("answer: ", said.as_str()),
            ),
            NegotiateEvent::LocalSet(Ok(())) => {
                negotiation.phase = NegotiatePhase::Gathering;
                NegotiateAction::AwaitGathering(Span { nanos: GATHER_TIMEOUT })
            },
            NegotiateEvent::LocalSet(Err(said)) => refuse(
                negotiation,
                ports,
                joined("local description: ", said.as_str()),
            ),
            NegotiateEvent::Gathered(_) => {
                negotiation.phase = NegotiatePhase::Describing;
                NegotiateAction::Describe
            },
            NegotiateEvent::Described(None) => refuse(
                negotiation,
                ports,
                String::from_str("no local description after gathering"),
            ),
            NegotiateEvent::Described(Some(sdp)) => {
                let close: Option<Session> = self.active;
                let connection: u64 = match negotiation.connection {
                    Some(connection) => connection,
                    None => 0,
                };
                self.active = Some(Session { connection, port: negotiation.port });
                negotiation.phase = NegotiatePhase::Ended;
                NegotiateAction::Answer { sdp, audio: negotiation.wants_audio, close }
            },
        }
    }

    /// A sender's connection is over: let go of its session, and have it closed.
    ///
    /// Idempotent, because it is reached from two directions — the connection's state and a
    /// track ending — and which arrives first is not ours to decide. The end of a connection
    /// whose session has been replaced is nothing to the one that holds the panel. The port
    /// goes back once the socket is shut, by [`closed`].
    pub fn forget(&mut self, connection: u64) -> (close: Option<Session>)
        ensures
            (final(self)@, close) == without_session(old(self)@, connection),
    {
        match self.active {
            Some(session) => {
                if session.connection == connection {
                    self.active = None;
                    Some(session)
                } else {
                    None
                }
            },
            None => None,
        }
    }

    /// Close whatever is up, because the process is going away. Its port goes back at once.
    pub fn shutdown(&mut self, ports: &mut PortPool) -> (close: Option<u64>)
        ensures
            final(self)@ is None,
            match old(self)@ {
                Some(session) => {
                    &&& close == Some(session.connection)
                    &&& final(ports)@ == old(ports)@.without(session.port)
                },
                None => close is None && final(ports)@ == old(ports)@,
            },
    {
        match self.active {
            Some(session) => {
                self.active = None;
                ports.give_back(session.port);
                Some(session.connection)
            },
            None => None,
        }
    }
}

/// Refuse an offer, giving its port back.
fn refuse(negotiation: &mut Negotiation, ports: &mut PortPool, why: String) -> (action:
    NegotiateAction)
    ensures
        *final(negotiation) == (Negotiation { phase: NegotiatePhase::Ended, ..*old(negotiation) }),
        final(ports)@ == old(ports)@.without(old(negotiation).port),
        action == NegotiateAction::Fail(PipelineError::Remote(why)),
{
    negotiation.phase = NegotiatePhase::Ended;
    ports.give_back(negotiation.port);
    NegotiateAction::Fail(PipelineError::Remote(why))
}

/// A session's socket is shut: its port goes back to the pool, and not before.
pub fn closed(session: Session, ports: &mut PortPool)
    ensures
        final(ports)@ == old(ports)@.without(session.port),
{
    ports.give_back(session.port);
}

/// Where a peer connection stands.
#[derive(Debug, Clone, Copy, PartialEq, Eq, Structural)]
pub enum ConnectionState {
    /// Not started.
    New,
    /// On its way up.
    Connecting,
    /// Up.
    Connected,
    /// Lost.
    Disconnected,
    /// Given up.
    Failed,
    /// Closed.
    Closed,
}

/// Whether a connection in this state is over for its session.
pub fn ends_session(state: ConnectionState) -> (over: bool)
    ensures
        over == (state == ConnectionState::Disconnected || state == ConnectionState::Failed || state
            == ConnectionState::Closed),
{
    match state {
        ConnectionState::Disconnected => true,
        ConnectionState::Failed => true,
        ConnectionState::Closed => true,
        _ => false,
    }
}

/// What handing a frame to its consumer came to.
#[derive(Debug, Clone, Copy, PartialEq, Eq, Structural)]
pub enum SendOutcome {
    /// It was queued.
    Queued,
    /// It was queued; the decoder is behind, and the oldest frame made room for it.
    Full,
    /// The consumer is gone.
    Closed,
}

/// The frames on their way to a consumer, oldest first, and whether the consumer is there to
/// take them.
pub struct QueueState<T> {
    /// The frames.
    pub frames: Seq<T>,
    /// Whether the consumer is gone.
    pub closed: bool,
}

impl<T> QueueState<T> {
    /// No more frames than are ever queued.
    pub open spec fn well_formed(self) -> bool {
        self.frames.len() <= FRAME_QUEUE
    }

    /// What the queue becomes of a frame from the network, and what is said of it.
    pub open spec fn offered(self, frame: T) -> (Self, SendOutcome) {
        if self.closed {
            (self, SendOutcome::Closed)
        } else if self.frames.len() < FRAME_QUEUE {
            (QueueState { frames: self.frames.push(frame), ..self }, SendOutcome::Queued)
        } else {
            (
                QueueState { frames: self.frames.drop_first().push(frame), ..self },
                SendOutcome::Full,
            )
        }
    }
}

/// The frames on their way to a consumer.
#[derive(Debug)]
pub struct FrameQueue<T> {
    frames: VecDeque<T>,
    closed: bool,
}

impl<T> View for FrameQueue<T> {
    type V = QueueState<T>;

    closed spec fn view(&self) -> QueueState<T> {
        QueueState { frames: self.frames@, closed: self.closed }
    }
}

impl<T> FrameQueue<T> {
    /// An empty queue, with its consumer there.
    pub fn new() -> (queue: Self)
        ensures
            queue@ == (QueueState::<T> { frames: Seq::empty(), closed: false }),
            queue@.well_formed(),
    {
        FrameQueue { frames: VecDeque::new(), closed: false }
    }

    /// A frame from the network. A full queue loses its oldest frame; only a consumer that is
    /// gone refuses the newest.
    pub fn offer(&mut self, frame: T) -> (outcome: SendOutcome)
        ensures
            (final(self)@, outcome) == old(self)@.offered(frame),
            old(self)@.well_formed() ==> final(self)@.well_formed(),
    {
        if self.closed {
            return SendOutcome::Closed;
        }
        let outcome: SendOutcome = if self.frames.len() < FRAME_QUEUE {
            SendOutcome::Queued
        } else {
            let _ = self.frames.pop_front();
            SendOutcome::Full
        };
        self.frames.push_back(frame);
        outcome
    }

    /// The oldest frame, for the consumer.
    pub fn take(&mut self) -> (frame: Option<T>)
        ensures
            old(self)@.well_formed() ==> final(self)@.well_formed(),
            final(self)@.closed == old(self)@.closed,
            match frame {
                Some(frame) => {
                    &&& old(self)@.frames.len() > 0
                    &&& frame == old(self)@.frames[0]
                    &&& final(self)@.frames == old(self)@.frames.drop_first()
                },
                None => old(self)@.frames.len() == 0 && final(self)@.frames
                    == old(self)@.frames,
            },
    {
        self.frames.pop_front()
    }

    /// The consumer is gone, and nothing that was queued for it is kept.
    pub fn close(&mut self)
        ensures
            final(self)@ == (QueueState::<T> { frames: Seq::empty(), closed: true }),
            final(self)@.well_formed(),
    {
        self.frames.clear();
        self.closed = true;
    }
}

/// What a track's pump knows.
pub struct PumpState {
    /// The track's assembler, once the track has opened.
    pub track: Option<TrackState>,
    /// Whether a keyframe of video has been seen.
    pub seen_keyframe: bool,
}

impl PumpState {
    /// Whether the track is a video track.
    pub open spec fn is_video(self) -> bool {
        self.track matches Some(track) && track.codec != MirrorCodec::Opus
    }
}

/// A frame on its way to its consumer.
#[derive(Debug)]
pub struct Outgoing {
    /// The frame.
    pub frame: EncodedFrame,
    /// Whether it goes to the video consumer; to the audio consumer otherwise.
    pub video: bool,
}

/// Turns one remote track's packets into frames.
#[derive(Debug)]
pub struct Pump {
    assembler: Option<TrackAssembler>,
    is_video: bool,
    seen_keyframe: bool,
}

impl View for Pump {
    type V = PumpState;

    closed spec fn view(&self) -> PumpState {
        PumpState {
            track: match self.assembler {
                Some(assembler) => Some(assembler@),
                None => None,
            },
            seen_keyframe: self.seen_keyframe,
        }
    }
}

impl Pump {
    /// What every pump keeps to.
    pub closed spec fn well_formed(self) -> bool {
        &&& self.assembler matches Some(assembler) ==> assembler.well_formed()
        &&& self.is_video == self@.is_video()
    }

    /// A pump for a track that has not opened.
    pub fn new() -> (pump: Pump)
        ensures
            pump@ == (PumpState { track: None, seen_keyframe: false }),
            pump.well_formed(),
    {
        Pump { assembler: None, is_video: false, seen_keyframe: false }
    }

    /// The track opened in the codec of this mime type, if it has one. Returns whether to
    /// ask for keyframes, or `None` where the codec was never offered and the track is
    /// over.
    pub fn open(&mut self, mime: Option<&str>) -> (requests: Option<bool>)
        requires
            old(self).well_formed(),
        ensures
            final(self).well_formed(),
            final(self)@.seen_keyframe == old(self)@.seen_keyframe,
            ({
                let codec = match mime {
                    Some(mime) => MirrorCodec::named(mime@),
                    None => None,
                };
                match codec {
                    Some(codec) => {
                        &&& final(self)@.track == Some(TrackState::start(codec))
                        &&& requests == Some(codec != MirrorCodec::Opus)
                    },
                    None => requests is None && final(self)@ == old(self)@,
                }
            }),
    {
        let codec: Option<MirrorCodec> = match mime {
            Some(mime) => MirrorCodec::from_mime(mime),
            None => None,
        };
        match codec {
            Some(codec) => {
                self.is_video = codec.is_video();
                self.assembler = Some(TrackAssembler::new(codec));
                Some(self.is_video)
            },
            None => None,
        }
    }

    /// Whether the track's clock can be moved to a timestamp.
    pub fn clock_fits(&self, timestamp: u32) -> (fits: bool)
        ensures
            fits == (self@.track matches Some(track) ==> track.clock_fits(timestamp)),
    {
        match &self.assembler {
            Some(assembler) => assembler.clock_fits(timestamp),
            None => true,
        }
    }

    /// A packet arrived. Returns the frame that is then handed out, if one is; a packet
    /// before the track has opened is nothing.
    pub fn packet(&mut self, timestamp: u32, marker: bool, payload: &Bytes) -> (outgoing: Option<
        Outgoing,
    >)
        requires
            old(self).well_formed(),
            old(self)@.track matches Some(track) ==> track.clock_fits(timestamp),
        ensures
            final(self).well_formed(),
            match old(self)@.track {
                None => outgoing is None && final(self)@ == old(self)@,
                Some(track) => {
                    let (after, frame) = track.fed(timestamp, marker, held(*payload));
                    &&& final(self)@.track == Some(after)
                    &&& match outgoing {
                        Some(outgoing) => {
                            &&& frame == Some(frame_view(outgoing.frame))
                            &&& outgoing.video == old(self)@.is_video()
                        },
                        None => frame is None,
                    }
                    &&& final(self)@.seen_keyframe == (old(self)@.seen_keyframe || (
                    old(self)@.is_video() && frame is Some && (frame->0).keyframe))
                },
            },
    {
        let video: bool = self.is_video;
        let frame: Option<EncodedFrame> = match &mut self.assembler {
            Some(assembler) => assembler.push(timestamp, marker, payload),
            None => {
                return None;
            },
        };
        match frame {
            Some(frame) => {
                if frame.keyframe && video {
                    self.seen_keyframe = true;
                }
                Some(Outgoing { frame, video })
            },
            None => None,
        }
    }

    /// The track is over. Returns the frame that was complete and waiting, if one was;
    /// whatever was half assembled is not a picture.
    pub fn finish(&mut self) -> (outgoing: Option<Outgoing>)
        requires
            old(self).well_formed(),
        ensures
            final(self).well_formed(),
            final(self)@.seen_keyframe == old(self)@.seen_keyframe,
            match old(self)@.track {
                None => outgoing is None && final(self)@ == old(self)@,
                Some(track) => {
                    let (after, frame) = track.handed_out(Seq::empty());
                    &&& final(self)@.track == Some(after)
                    &&& match outgoing {
                        Some(outgoing) => {
                            &&& frame == Some(frame_view(outgoing.frame))
                            &&& outgoing.video == old(self)@.is_video()
                        },
                        None => frame is None,
                    }
                },
            },
    {
        let video: bool = self.is_video;
        let frame: Option<EncodedFrame> = match &mut self.assembler {
            Some(assembler) => assembler.take_ready(),
            None => {
                return None;
            },
        };
        match frame {
            Some(frame) => Some(Outgoing { frame, video }),
            None => None,
        }
    }

    /// Whether a keyframe of video has been seen.
    pub fn seen_keyframe(&self) -> (seen: bool)
        ensures
            seen == self@.seen_keyframe,
    {
        self.seen_keyframe
    }

    /// Whether the pump goes on after handing a frame over: a full queue loses a picture, and
    /// only a consumer that is gone ends the track.
    pub fn goes_on(outcome: SendOutcome) -> (on: bool)
        ensures
            on == (outcome != SendOutcome::Closed),
    {
        match outcome {
            SendOutcome::Closed => false,
            _ => true,
        }
    }
}

/// What to do about asking for a keyframe.
#[derive(Debug, Clone, Copy, PartialEq, Eq, Structural)]
pub enum KeyframeRequest {
    /// Ask, then wait this long before the next question.
    Ask(Span),
    /// Stop: one has been seen.
    Seen,
    /// Stop: the sender never produced one, and nothing can be decoded.
    GiveUp,
}

/// Asks the sender for a keyframe until one arrives, or until it is given up.
#[derive(Debug)]
pub struct KeyframeRequests {
    made: usize,
}

impl KeyframeRequests {
    /// How many requests have been made.
    pub closed spec fn made(self) -> nat {
        self.made as nat
    }

    /// No request made yet.
    pub fn new() -> (requests: KeyframeRequests)
        ensures
            requests.made() == 0,
    {
        KeyframeRequests { made: 0 }
    }

    /// Decide on the next request, knowing whether a keyframe has been seen.
    pub fn next(&mut self, seen: bool) -> (request: KeyframeRequest)
        requires
            old(self).made() <= PLI_ATTEMPTS,
        ensures
            final(self).made() <= PLI_ATTEMPTS,
            request == request_after(old(self).made(), seen),
            request == if seen {
                KeyframeRequest::Seen
            } else if old(self).made() < PLI_ATTEMPTS {
                KeyframeRequest::Ask(Span { nanos: PLI_INTERVAL })
            } else {
                KeyframeRequest::GiveUp
            },
            final(self).made() == old(self).made() + if request is Ask {
                1int
            } else {
                0int
            },
    {
        if seen {
            KeyframeRequest::Seen
        } else if self.made < PLI_ATTEMPTS {
            self.made += 1;
            KeyframeRequest::Ask(Span { nanos: PLI_INTERVAL })
        } else {
            KeyframeRequest::GiveUp
        }
    }
}

/// **A failed negotiation gives its port back.** Taking a port for an offer and refusing
/// the offer, wherever in the negotiation that happens, leaves the pool as it was.
pub proof fn a_refused_offer_costs_no_port(before: PoolView, port: u16)
    requires
        before.is_next(port),
    ensures
        before.with(port).without(port) == before,
{
    crate::ice_ports::giving_back_undoes_taking(before, port);
}

/// **A new session never binds a port the old one still holds.** The port of an offer being
/// negotiated while a session is up is not that session's.
pub proof fn sessions_do_not_share_a_port(pool: PoolView, active: Session, port: u16)
    requires
        pool.taken.contains(active.port),
        pool.is_next(port),
    ensures
        port != active.port,
{
}

/// **A second offer replaces the first.** However often the end of a connection is heard of,
/// its session is closed once; and the end of one that has been replaced leaves the one that
/// replaced it on the panel.
pub proof fn a_replaced_session_ends_alone(active: Option<Session>, connection: u64)
    ensures
        ({
            let (after, close) = without_session(active, connection);
            &&& without_session(after, connection) == (after, None::<Session>)
            &&& close matches Some(session) ==> session.connection == connection && after is None
            &&& active matches Some(session) ==> (session.connection != connection ==> after
                == active && close is None)
        }),
{
}

/// **The newest picture is never the one that is lost.** Whatever is queued, a frame for a
/// consumer that is there goes in last, at most one goes for it, and that is the oldest.
pub proof fn the_newest_frame_is_queued<T>(queue: QueueState<T>, frame: T)
    requires
        queue.well_formed(),
        !queue.closed,
    ensures
        ({
            let after = queue.offered(frame).0;
            &&& after.well_formed()
            &&& after.frames.last() == frame
            &&& (after.frames.drop_last() == queue.frames || (queue.frames.len() == FRAME_QUEUE
                && after.frames.drop_last() == queue.frames.drop_first()))
        }),
{
    let after = queue.offered(frame).0;
    if queue.frames.len() < FRAME_QUEUE {
        assert(after.frames.drop_last() =~= queue.frames);
    } else {
        assert(after.frames.drop_last() =~= queue.frames.drop_first());
    }
}

/// **An answer is put together in one order.** From the codecs to the answer, each thing
/// that succeeds leads to the next, and nothing is skipped.
pub proof fn negotiation_runs_in_order(negotiation: Negotiation, event: NegotiateEvent)
    requires
        negotiation.well_formed(),
        negotiation.expects(event),
        Negotiation::refusal(event) is None,
    ensures
        ({
            let after = negotiation.after(event).phase;
            match negotiation.phase {
                NegotiatePhase::Registering => after == NegotiatePhase::Intercepting,
                NegotiatePhase::Intercepting => after == NegotiatePhase::Building,
                NegotiatePhase::Building => after == NegotiatePhase::SettingRemote,
                NegotiatePhase::SettingRemote => after == NegotiatePhase::Answering,
                NegotiatePhase::Answering => after == NegotiatePhase::SettingLocal,
                NegotiatePhase::SettingLocal => after == NegotiatePhase::Gathering,
                NegotiatePhase::Gathering => after == NegotiatePhase::Describing,
                NegotiatePhase::Describing => after == NegotiatePhase::Ended,
                NegotiatePhase::Ended => false,
            }
        }),
{
}

/// **Only a failure refuses an offer.** Whatever succeeded refuses nothing, whatever failed
/// does, at once; a gathering that took too long is no failure. A negotiation keeps its port and
/// what its offer wanted throughout, and its connection is the one that was built for it.
pub proof fn only_a_failure_refuses(negotiation: Negotiation, event: NegotiateEvent)
    requires
        negotiation.well_formed(),
        negotiation.expects(event),
    ensures
        ({
            let after = negotiation.after(event);
            let failed = match event {
                NegotiateEvent::Registered(said) => said is Err,
                NegotiateEvent::Intercepted(said) => said is Err,
                NegotiateEvent::Built(said) => said is Err,
                NegotiateEvent::RemoteSet(said) => said is Err,
                NegotiateEvent::Answered(said) => said is Err,
                NegotiateEvent::LocalSet(said) => said is Err,
                NegotiateEvent::Gathered(_) => false,
                NegotiateEvent::Described(answer) => answer is None,
            };
            &&& Negotiation::refusal(event) is Some <==> failed
            &&& failed ==> after.phase == NegotiatePhase::Ended
            &&& !failed && !(event is Described) ==> after.phase != NegotiatePhase::Ended
            &&& after.port == negotiation.port
            &&& after.wants_audio == negotiation.wants_audio
            &&& !(event is Built) ==> after.connection == negotiation.connection
            &&& event matches NegotiateEvent::Built(built) ==> (built matches Ok(connection)
                ==> after.connection == Some(connection))
        }),
{
}

/// **The end of the session that is up closes it.** Once its connection is over nothing is
/// active, and it is that session that is closed.
pub proof fn the_end_of_a_session_closes_it(session: Session)
    ensures
        without_session(Some(session), session.connection) == (None::<Session>, Some(session)),
{
}

/// **A frame is lost only to a consumer that is gone or behind.** A queue whose consumer is gone
/// stays as it was and says so; one with room takes the frame and loses nothing; a full one says
/// that it is behind, and stays full.
pub proof fn a_queue_says_what_it_did<T>(queue: QueueState<T>, frame: T)
    requires
        queue.well_formed(),
    ensures
        ({
            let (after, outcome) = queue.offered(frame);
            &&& outcome == SendOutcome::Closed <==> queue.closed
            &&& queue.closed ==> after == queue
            &&& after.closed == queue.closed
            &&& outcome == SendOutcome::Queued ==> after.frames.len() == queue.frames.len() + 1
                && after.frames.drop_last() == queue.frames
            &&& outcome == SendOutcome::Full ==> queue.frames.len() == FRAME_QUEUE
                && after.frames.len() == FRAME_QUEUE
        }),
{
    let after = queue.offered(frame).0;
    if !queue.closed && queue.frames.len() < FRAME_QUEUE {
        assert(after.frames.drop_last() =~= queue.frames);
    }
}

/// A word, and what may follow it, begin with that word.
proof fn a_word_leads(word: Seq<char>, rest: Seq<char>)
    requires
        forall|i: int| 0 <= i < word.len() ==> !is_space(#[trigger] word[i]),
        rest.len() == 0 || is_space(rest[0]),
    ensures
        leading_word(word + rest) == word,
    decreases word.len(),
{
    let text = word + rest;
    if word.len() == 0 {
        assert(text =~= rest);
        assert(leading_word(text) =~= word);
    } else {
        assert(text.drop_first() =~= word.drop_first() + rest);
        assert(text[0] == word[0]);
        a_word_leads(word.drop_first(), rest);
        assert(leading_word(text) =~= word);
    }
}

/// **An audio section is one with a port.** A line that names a port after `m=audio ` opens an
/// audio section exactly where that port is not 0, whatever follows it.
pub proof fn an_audio_section_has_a_port(port: Seq<char>, rest: Seq<char>)
    requires
        port.len() > 0,
        forall|i: int| 0 <= i < port.len() ==> !is_space(#[trigger] port[i]),
        rest.len() == 0 || is_space(rest[0]),
    ensures
        is_audio_line("m=audio "@ + port + rest) <==> port != "0"@,
        !is_audio_line("m=video "@ + port + rest),
{
    reveal_strlit("m=audio ");
    reveal_strlit("m=video ");
    let line = "m=audio "@ + port + rest;
    assert(line.take(8) =~= "m=audio "@);
    assert(line.skip(8) =~= port + rest);
    assert((port + rest)[0] == port[0]);
    a_word_leads(port, rest);
    let other = "m=video "@ + port + rest;
    if begins(other, audio_heading()) {
        assert(other.take(8)[2] == 'v');
        assert("m=audio "@[2] == 'a');
    }
}

/// **Every line of an offer counts.** What is offered by one text and another after it, on lines
/// of their own, is what either offers.
pub proof fn every_line_of_an_offer_counts(head: Seq<char>, tail: Seq<char>)
    ensures
        offers_audio(head + seq!['\n'] + tail) <==> offers_audio(head) || offers_audio(tail),
{
    let text = head + seq!['\n'] + tail;
    let cut = head.len() as int;
    assert(text[cut] == '\n');
    if offers_audio(text) {
        let (from, to) = choose|from: int, to: int|
            #[trigger] is_line(text, from, to) && is_audio_line(text.subrange(from, to));
        if from <= cut {
            assert(to <= cut) by {
                if to > cut {
                    assert(text[cut] != '\n');
                }
            }
            assert(text.subrange(from, to) =~= head.subrange(from, to));
            if from > 0 {
                assert(text[from - 1] == head[from - 1]);
            }
            if to < cut {
                assert(text[to] == head[to]);
            }
            assert forall|i: int| from <= i < to implies head[i] != '\n' by {
                assert(text[i] == head[i]);
            }
            assert(is_line(head, from, to));
        } else {
            let a = from - cut - 1;
            let b = to - cut - 1;
            assert(text.subrange(from, to) =~= tail.subrange(a, b));
            if a > 0 {
                assert(text[from - 1] == tail[a - 1]);
            }
            if b < tail.len() {
                assert(text[to] == tail[b]);
            }
            assert forall|i: int| a <= i < b implies tail[i] != '\n' by {
                assert(text[i + cut + 1] == tail[i]);
            }
            assert(is_line(tail, a, b));
        }
    }
    if offers_audio(head) {
        let (from, to) = choose|from: int, to: int|
            #[trigger] is_line(head, from, to) && is_audio_line(head.subrange(from, to));
        assert(text.subrange(from, to) =~= head.subrange(from, to));
        assert(is_line(text, from, to));
    }
    if offers_audio(tail) {
        let (a, b) = choose|from: int, to: int|
            #[trigger] is_line(tail, from, to) && is_audio_line(tail.subrange(from, to));
        let from = a + cut + 1;
        let to = b + cut + 1;
        assert(text.subrange(from, to) =~= tail.subrange(a, b));
        if a > 0 {
            assert(text[from - 1] == tail[a - 1]);
        }
        assert(is_line(text, from, to));
    }
}

/// White space before a word is skipped.
proof fn a_gap_is_skipped(gap: Seq<char>, text: Seq<char>)
    requires
        forall|i: int| 0 <= i < gap.len() ==> is_space(#[trigger] gap[i]),
    ensures
        first_word(gap + text) == first_word(text),
    decreases gap.len(),
{
    if gap.len() == 0 {
        assert(gap + text =~= text);
    } else {
        assert((gap + text)[0] == gap[0]);
        assert((gap + text).drop_first() =~= gap.drop_first() + text);
        a_gap_is_skipped(gap.drop_first(), text);
    }
}

/// **How far off the port stands does not matter.** White space between `m=audio ` and a port
/// changes nothing, and without a port there is no audio section.
pub proof fn a_gap_before_the_port_does_not_matter(gap: Seq<char>, port: Seq<char>)
    requires
        port.len() > 0,
        forall|i: int| 0 <= i < port.len() ==> !is_space(#[trigger] port[i]),
        forall|i: int| 0 <= i < gap.len() ==> is_space(#[trigger] gap[i]),
    ensures
        is_audio_line("m=audio "@ + gap + port) <==> port != "0"@,
        !is_audio_line("m=audio "@ + gap),
{
    reveal_strlit("m=audio ");
    let empty = Seq::<char>::empty();
    let line = "m=audio "@ + gap + port;
    assert(line.take(8) =~= "m=audio "@);
    assert(line.skip(8) =~= gap + port);
    a_gap_is_skipped(gap, port);
    a_word_leads(port, empty);
    assert(port + empty =~= port);
    let bare = "m=audio "@ + gap;
    assert(bare.skip(8) =~= gap + empty);
    a_gap_is_skipped(gap, empty);
}

/// **A codec is registered as what it is.** Opus is the one that is sound, and each runs at the
/// clock its track will be read by.
pub proof fn a_codec_is_registered_as_what_it_is(parameters: CodecParameters, codec: MirrorCodec)
    requires
        registers(parameters, codec),
    ensures
        parameters.kind == CodecKind::Audio <==> codec == MirrorCodec::Opus,
        parameters.clock_rate == (if codec == MirrorCodec::Opus {
            48_000u32
        } else {
            90_000u32
        }),
        MirrorCodec::named(parameters.mime_type@) == Some(codec),
{
}

/// **A session ends with its connection, and a pump with its consumer.** A connection on its way
/// up or there ends nothing, one that is lost, given up or closed does; and a decoder that is
/// behind ends no track.
pub proof fn a_session_ends_with_its_connection(
    state: ConnectionState,
    over: bool,
    outcome: SendOutcome,
    on: bool,
)
    requires
        call_ensures(ends_session, (state,), over),
        call_ensures(Pump::goes_on, (outcome,), on),
    ensures
        over <==> state != ConnectionState::New && state != ConnectionState::Connecting && state
            != ConnectionState::Connected,
        !on <==> outcome == SendOutcome::Closed,
{
}

/// What is decided on a keyframe request once so many were made.
pub open spec fn request_after(made: nat, seen: bool) -> KeyframeRequest {
    if seen {
        KeyframeRequest::Seen
    } else if made < PLI_ATTEMPTS {
        KeyframeRequest::Ask(Span { nanos: PLI_INTERVAL })
    } else {
        KeyframeRequest::GiveUp
    }
}

/// **A sender is asked until it has answered, or often enough.** Nothing is asked once a keyframe
/// was seen; before that the sender is asked as often as was settled, with the same wait each
/// time, and only then given up.
pub proof fn a_sender_is_asked_often_enough(made: nat, seen: bool)
    ensures
        request_after(made, true) == KeyframeRequest::Seen,
        request_after(made, seen) is Ask <==> !seen && made < 12,
        request_after(made, seen) matches KeyframeRequest::Ask(wait) ==> wait@ == 500_000_000,
        request_after(made, seen) == KeyframeRequest::GiveUp <==> !seen && made >= 12,
{
}

} // verus!
