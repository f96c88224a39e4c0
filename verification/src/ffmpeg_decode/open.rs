//! Opening a media URL: what a fetch is asked with, and what the container turned out to
//! hold.
use crate::error::PipelineError;
use crate::span::Span;
use crate::text::{
    blank, caseless_equal, chars_of, is_blank, is_space, is_trimmed, same_caseless, trim,
};
use vstd::prelude::*;
use vstd::string::*;

verus! {

/// What streams a media URL turned out to have, and what the container says it is.
///
/// Reported before playback starts because the answer changes what the panel shows: a file
/// with no video stream is *music*, and gets a now-playing card rather than a failure.
#[derive(Debug, Clone, PartialEq, Eq)]
pub struct MediaLayout {
    /// Whether a video stream was found.
    pub has_video: bool,
    /// Whether an audio stream was found.
    pub has_audio: bool,
    /// Total duration, when the container knows it.
    pub duration: Option<Span>,
    /// `title` from the container tags, if any.
    pub title: Option<String>,
    /// `artist`.
    pub artist: Option<String>,
    /// `album`.
    pub album: Option<String>,
}

impl Default for MediaLayout {
    fn default() -> (layout: MediaLayout)
        ensures
            !layout.has_video,
            !layout.has_audio,
            layout.duration is None,
            layout.title is None,
            layout.artist is None,
            layout.album is None,
    {
        MediaLayout {
            has_video: false,
            has_audio: false,
            duration: None,
            title: None,
            artist: None,
            album: None,
        }
    }
}

/// How many of the demuxer's time units make a second.
pub const AV_TIME_BASE: u64 = 1_000_000;

/// The duration that a container's raw figure stands for.
///
/// A figure of zero or less is no duration: a live stream reports nothing usable. Scaling
/// to microseconds saturates, so a figure past what that takes stands for the longest that
/// does.
pub open spec fn duration_of(raw: i64) -> Option<Span> {
    if raw <= 0 {
        None
    } else {
        let scaled = if raw * 1_000_000 <= u64::MAX {
            (raw * 1_000_000) as nat
        } else {
            u64::MAX as nat
        };
        Some(Span::of((scaled / AV_TIME_BASE as nat) * 1_000))
    }
}

/// The container's duration, when it has one.
pub fn container_duration(raw: i64) -> (duration: Option<Span>)
    ensures
        duration == duration_of(raw),
{
    if raw <= 0 {
        return None;
    }
    let scaled: u64 = match (raw as u64).checked_mul(1_000_000) {
        Some(scaled) => scaled,
        None => u64::MAX,
    };
    proof {
        assert(raw as u64 == raw);
    }
    Some(Span::from_micros(scaled / AV_TIME_BASE))
}

/// Whether `tagged` is what a container's tag comes to: its text without the white space
/// around it, or nothing where nothing else is in it.
pub open spec fn tag_is(tagged: Option<Seq<char>>, value: Option<Seq<char>>) -> bool {
    match value {
        None => tagged is None,
        Some(value) => if is_blank(value) {
            tagged is None
        } else {
            tagged is Some && is_trimmed(tagged->0, value)
        },
    }
}

/// The text of an optional string.
pub open spec fn text_of(text: Option<String>) -> Option<Seq<char>> {
    match text {
        Some(text) => Some(text@),
        None => None,
    }
}

/// The text of an optional string slice.
pub open spec fn slice_text(text: Option<&str>) -> Option<Seq<char>> {
    match text {
        Some(text) => Some(text@),
        None => None,
    }
}

/// One of the container's tags, without the white space around it; `None` where nothing
/// else is in it.
pub fn tag(value: Option<&str>) -> (tagged: Option<String>)
    ensures
        tag_is(text_of(tagged), slice_text(value)),
{
    match value {
        Some(value) => if blank(value) {
            None
        } else {
            Some(trim(value))
        },
        None => None,
    }
}

/// What the demuxer found in a container.
#[derive(Debug, Clone, Copy)]
pub struct Found<'a> {
    /// Whether there is a video stream.
    pub video: bool,
    /// Whether there is an audio stream.
    pub audio: bool,
    /// Whether there is somewhere for decoded audio to go, in a build that can decode it.
    pub audio_wanted: bool,
    /// The container's own figure for its duration.
    pub duration: i64,
    /// The `title` tag.
    pub title: Option<&'a str>,
    /// The `artist` tag.
    pub artist: Option<&'a str>,
    /// The `album` tag.
    pub album: Option<&'a str>,
}

impl MediaLayout {
    /// What a container holds, as far as this session can play it.
    ///
    /// Audio is claimed only where it can be decoded and has somewhere to go: it drives
    /// whether the panel shows a music card, and a card over silence is worse than none. A
    /// file with neither audio nor video is an error; a file with only one is not.
    pub fn of(found: Found<'_>) -> (layout: Result<MediaLayout, PipelineError>)
        ensures
            match layout {
                Ok(layout) => {
                    &&& layout.has_video == found.video
                    &&& layout.has_audio == (found.audio && found.audio_wanted)
                    &&& layout.has_video || layout.has_audio
                    &&& layout.duration == duration_of(found.duration)
                    &&& tag_is(text_of(layout.title), slice_text(found.title))
                    &&& tag_is(text_of(layout.artist), slice_text(found.artist))
                    &&& tag_is(text_of(layout.album), slice_text(found.album))
                },
                Err(PipelineError::Decode(why)) => {
                    &&& !found.video && !(found.audio && found.audio_wanted)
                    &&& why@ == "the media has neither a video nor an audio stream"@
                },
                Err(_) => false,
            },
    {
        let has_audio: bool = found.audio && found.audio_wanted;
        if !found.video && !has_audio {
            return Err(
                PipelineError::Decode(
                    String::from_str("the media has neither a video nor an audio stream"),
                ),
            );
        }
        Ok(
            MediaLayout {
                has_video: found.video,
                has_audio,
                duration: container_duration(found.duration),
                title: tag(found.title),
                artist: tag(found.artist),
                album: tag(found.album),
            },
        )
    }
}

/// Whether `scheme://` begins at the start of `uri`, with no earlier `://` in it.
pub open spec fn has_scheme(uri: Seq<char>, scheme: Seq<char>) -> bool {
    &&& scheme.len() + 3 <= uri.len()
    &&& uri.take(scheme.len() as int) == scheme
    &&& marks_at(uri, scheme.len() as int)
    &&& forall|i: int| 0 <= i < scheme.len() ==> !#[trigger] marks_at(uri, i)
}

/// Whether `://` stands at `i`.
pub open spec fn marks_at(uri: Seq<char>, i: int) -> bool {
    &&& 0 <= i
    &&& i + 3 <= uri.len()
    &&& uri[i] == ':'
    &&& uri[i + 1] == '/'
    &&& uri[i + 2] == '/'
}

/// Whether a scheme is that of a protocol with a peer at the other end.
pub open spec fn network_scheme(scheme: Seq<char>) -> bool {
    ||| caseless_equal(scheme, "http"@)
    ||| caseless_equal(scheme, "https"@)
    ||| caseless_equal(scheme, "rtsp"@)
    ||| caseless_equal(scheme, "rtmp"@)
    ||| caseless_equal(scheme, "rtmps"@)
    ||| caseless_equal(scheme, "rtp"@)
    ||| caseless_equal(scheme, "udp"@)
    ||| caseless_equal(scheme, "tcp"@)
    ||| caseless_equal(scheme, "mms"@)
    ||| caseless_equal(scheme, "mmsh"@)
}

/// Whether a URI is fetched over a network: what stands before its first `://` is the
/// scheme of such a protocol, in any case.
pub open spec fn network_uri(uri: Seq<char>) -> bool {
    exists|scheme: Seq<char>| #[trigger] has_scheme(uri, scheme) && network_scheme(scheme)
}

/// Whether this URI is fetched over a network, rather than opened from the filesystem.
///
/// A scheme test rather than "not a file": demuxers speak a long list of protocols, and
/// the ones worth timing out are the ones with a peer at the other end.
pub fn is_network_uri(uri: &str) -> (network: bool)
    ensures
        network == network_uri(uri@),
{
    let chars: Vec<char> = chars_of(uri);
    let mut i: usize = 0;
    while i < chars.len()
        invariant
            i <= chars.len(),
            chars@ == uri@,
            forall|j: int| 0 <= j < i ==> !#[trigger] marks_at(uri@, j),
        decreases chars.len() - i,
    {
        if chars.len() - i >= 3 && chars[i] == ':' && chars[i + 1] == '/' && chars[i + 2] == '/' {
            let scheme: &str = uri.substring_char(0, i);
            proof {
                let first = uri@.take(i as int);
                assert(scheme@ =~= first);
                assert(marks_at(uri@, i as int));
                assert(has_scheme(uri@, first));
                assert forall|other: Seq<char>| #[trigger] has_scheme(uri@, other) implies other
                    == first by {
                    if other.len() < i {
                        assert(marks_at(uri@, other.len() as int));
                    } else if other.len() > i {
                        assert(!marks_at(uri@, i as int));
                    }
                }
            }
            return same_caseless(scheme, "http") || same_caseless(scheme, "https")
                || same_caseless(scheme, "rtsp") || same_caseless(scheme, "rtmp") || same_caseless(
                scheme,
                "rtmps",
            ) || same_caseless(scheme, "rtp") || same_caseless(scheme, "udp") || same_caseless(
                scheme,
                "tcp",
            ) || same_caseless(scheme, "mms") || same_caseless(scheme, "mmsh");
        }
        i += 1;
    }
    proof {
        assert forall|scheme: Seq<char>| !#[trigger] has_scheme(uri@, scheme) by {
            if has_scheme(uri@, scheme) {
                assert(marks_at(uri@, scheme.len() as int));
            }
        }
    }
    false
}

/// How long a network read may stall before the fetch is abandoned, in microseconds.
///
/// Long enough that a slow first byte from a loaded server is not mistaken for a dead one,
/// short enough that a wedged fetch is over before anybody has finished asking why nothing
/// happened.
pub const NETWORK_TIMEOUT_US: &'static str = "30000000";

/// How long the demuxer may spend re-establishing a dropped connection, in seconds.
pub const RECONNECT_DELAY_MAX_S: &'static str = "5";

/// The headers of a client that asks to be told what it is about to be sent, and wants it
/// streamed.
pub const STREAMING_HEADERS: &'static str =
    "getcontentFeatures.dlna.org: 1\r\ntransferMode.dlna.org: Streaming\r\n";

/// One option that a container is opened with.
#[derive(Debug, Clone, PartialEq, Eq)]
pub struct InputOption {
    /// The option's name.
    pub key: String,
    /// What it is set to.
    pub value: String,
}

/// An option's name and value as plain text.
pub open spec fn option_text(option: InputOption) -> (Seq<char>, Seq<char>) {
    (option.key@, option.value@)
}

/// What the container at `uri` is opened with, in order: nothing for a local file, and for
/// a network fetch its time limits, its client name, its reconnection and its headers.
pub open spec fn options_for(uri: Seq<char>, user_agent: Seq<char>) -> Seq<(Seq<char>, Seq<char>)> {
    if network_uri(uri) {
        seq![
            ("rw_timeout"@, NETWORK_TIMEOUT_US@),
            ("timeout"@, NETWORK_TIMEOUT_US@),
            ("user_agent"@, user_agent),
            ("reconnect"@, "1"@),
            ("reconnect_streamed"@, "1"@),
            ("reconnect_delay_max"@, RECONNECT_DELAY_MAX_S@),
            ("headers"@, STREAMING_HEADERS@),
        ]
    } else {
        Seq::empty()
    }
}

/// One option.
fn option(key: &str, value: &str) -> (option: InputOption)
    ensures
        option_text(option) == (key@, value@),
{
    InputOption { key: String::from_str(key), value: String::from_str(value) }
}

/// The options to open `uri` with.
///
/// Only network URIs get any: a local file has no socket to time out and no headers to
/// carry.
pub fn input_options(uri: &str, user_agent: &str) -> (options: Vec<InputOption>)
    ensures
        options@.map_values(|option: InputOption| option_text(option)) == options_for(
            uri@,
            user_agent@,
        ),
{
    let mut options: Vec<InputOption> = Vec::new();
    if is_network_uri(uri) {
        options.push(option("rw_timeout", NETWORK_TIMEOUT_US));
        options.push(option("timeout", NETWORK_TIMEOUT_US));
        options.push(option("user_agent", user_agent));
        options.push(option("reconnect", "1"));
        options.push(option("reconnect_streamed", "1"));
        options.push(option("reconnect_delay_max", RECONNECT_DELAY_MAX_S));
        options.push(option("headers", STREAMING_HEADERS));
    }
    proof {
        let texts = options@.map_values(|option: InputOption| option_text(option));
        assert(texts =~= options_for(uri@, user_agent@));
    }
    options
}

/// **A tag says something or is not there.** What is kept of a tag is never empty and has
/// no white space at either end.
pub proof fn a_kept_tag_says_something(kept: Seq<char>, value: Seq<char>)
    requires
        tag_is(Some(kept), Some(value)),
    ensures
        kept.len() > 0,
        !is_space(kept[0]),
        !is_space(kept.last()),
{
    let (from, to) = choose|from: int, to: int|
        #![trigger value.subrange(from, to)]
        {
            &&& 0 <= from <= to <= value.len()
            &&& kept == value.subrange(from, to)
            &&& is_blank(value.take(from))
            &&& is_blank(value.skip(to))
            &&& kept.len() > 0 ==> !is_space(kept[0]) && !is_space(kept.last())
        };
    if kept.len() == 0 {
        assert(from == to);
        assert forall|i: int| 0 <= i < value.len() implies is_space(#[trigger] value[i]) by {
            if i < from {
                assert(is_space(value.take(from)[i]));
            } else {
                assert(is_space(value.skip(to)[i - to]));
            }
        }
    }
}

/// **A duration is the container's figure, where it has one.** It is that many microseconds; a
/// figure of zero or less is none; and one too great to scale is the longest there is.
pub proof fn a_duration_is_the_containers_figure(raw: i64, longer: i64)
    ensures
        duration_of(raw) is Some <==> raw > 0,
        0 < raw && raw * 1_000_000 <= u64::MAX ==> duration_of(raw)->0@ == raw * 1_000,
        0 < raw <= longer ==> duration_of(raw)->0@ <= duration_of(longer)->0@,
{
}

/// **The scheme decides.** Whatever follows, a URI is fetched over a network exactly where what
/// stands before its first `://` is a network's scheme; and one without any is not.
pub proof fn the_scheme_decides(uri: Seq<char>, scheme: Seq<char>, rest: Seq<char>)
    requires
        has_scheme(uri, scheme),
    ensures
        network_uri(uri) <==> network_scheme(scheme),
        network_uri(uri.take(scheme.len() as int + 3) + rest) <==> network_uri(uri),
{
    let other = uri.take(scheme.len() as int + 3) + rest;
    assert(other.take(scheme.len() as int) =~= scheme);
    assert forall|i: int| 0 <= i < scheme.len() implies !#[trigger] marks_at(other, i) by {
        assert(!marks_at(uri, i));
    }
    assert(marks_at(other, scheme.len() as int));
    assert(has_scheme(other, scheme));
    one_scheme(uri, scheme);
    one_scheme(other, scheme);
}

/// A URI has one scheme.
proof fn one_scheme(uri: Seq<char>, scheme: Seq<char>)
    requires
        has_scheme(uri, scheme),
    ensures
        forall|other: Seq<char>| #[trigger] has_scheme(uri, other) ==> other == scheme,
{
    assert forall|other: Seq<char>| #[trigger] has_scheme(uri, other) implies other == scheme by {
        if other.len() < scheme.len() {
            assert(marks_at(uri, other.len() as int));
        } else if other.len() > scheme.len() {
            assert(!marks_at(uri, scheme.len() as int));
        }
    }
}

/// **Only a network fetch is given options, and every one is given the same.** A local file is
/// opened with none; two network fetches differ in nothing but the client's name.
pub proof fn only_a_network_fetch_is_given_options(
    uri: Seq<char>,
    other: Seq<char>,
    user_agent: Seq<char>,
)
    ensures
        options_for(uri, user_agent).len() > 0 <==> network_uri(uri),
        network_uri(uri) == network_uri(other) ==> options_for(uri, user_agent) == options_for(
            other,
            user_agent,
        ),
        network_uri(uri) ==> options_for(uri, user_agent).contains(("user_agent"@, user_agent)),
        network_uri(uri) ==> options_for(uri, user_agent).contains(
            ("rw_timeout"@, NETWORK_TIMEOUT_US@),
        ),
        network_uri(uri) ==> options_for(uri, user_agent).contains(
            ("timeout"@, NETWORK_TIMEOUT_US@),
        ),
        network_uri(uri) ==> options_for(uri, user_agent).contains(("reconnect"@, "1"@)),
        network_uri(uri) ==> options_for(uri, user_agent).contains(("reconnect_streamed"@, "1"@)),
        network_uri(uri) ==> options_for(uri, user_agent).contains(
            ("reconnect_delay_max"@, RECONNECT_DELAY_MAX_S@),
        ),
        network_uri(uri) ==> options_for(uri, user_agent).contains(("headers"@, STREAMING_HEADERS@)),
{
    if network_uri(uri) {
        let options = options_for(uri, user_agent);
        assert(options[0] == ("rw_timeout"@, NETWORK_TIMEOUT_US@));
        assert(options[1] == ("timeout"@, NETWORK_TIMEOUT_US@));
        assert(options[2] == ("user_agent"@, user_agent));
        assert(options[3] == ("reconnect"@, "1"@));
        assert(options[4] == ("reconnect_streamed"@, "1"@));
        assert(options[5] == ("reconnect_delay_max"@, RECONNECT_DELAY_MAX_S@));
        assert(options[6] == ("headers"@, STREAMING_HEADERS@));
    }
}

/// **What stands before `://` is the scheme.** A URI put together from a scheme without a colon
/// is fetched over a network exactly where that scheme is a network's; and one without any colon
/// is not.
pub proof fn what_stands_before_the_marks_is_the_scheme(scheme: Seq<char>, rest: Seq<char>)
    requires
        !scheme.contains(':'),
    ensures
        network_uri(scheme + seq![':', '/', '/'] + rest) <==> network_scheme(scheme),
        !network_uri(scheme),
        !network_uri(scheme + seq![':', '/'] + scheme),
{
    let uri = scheme + seq![':', '/', '/'] + rest;
    let at = scheme.len() as int;
    assert(uri.take(at) =~= scheme);
    assert(uri[at] == ':' && uri[at + 1] == '/' && uri[at + 2] == '/');
    assert forall|i: int| 0 <= i < scheme.len() implies !#[trigger] marks_at(uri, i) by {
        assert(uri[i] == scheme[i]);
    }
    assert(marks_at(uri, at));
    assert(has_scheme(uri, scheme));
    one_scheme(uri, scheme);
    if network_uri(scheme) {
        let other = choose|other: Seq<char>| #[trigger]
            has_scheme(scheme, other) && network_scheme(other);
        assert(marks_at(scheme, other.len() as int));
        assert(scheme[other.len() as int] == ':');
    }
    let single = scheme + seq![':', '/'] + scheme;
    if network_uri(single) {
        let other = choose|other: Seq<char>| #[trigger]
            has_scheme(single, other) && network_scheme(other);
        let i = other.len() as int;
        assert(marks_at(single, i));
        if i < at {
            assert(single[i] == scheme[i]);
        } else if i > at + 1 {
            assert(single[i] == scheme[i - at - 2]);
        } else if i == at {
            assert(single[i + 2] == scheme[0]);
            assert(scheme.len() > 0);
            assert(has_scheme(single, other));
            assert(other =~= scheme);
            a_slash_begins_no_scheme(scheme);
        }
    }
}

/// No network's scheme begins with a slash.
proof fn a_slash_begins_no_scheme(scheme: Seq<char>)
    requires
        scheme.len() > 0,
        scheme[0] == '/',
    ensures
        !network_scheme(scheme),
{
    reveal_strlit("http");
    reveal_strlit("https");
    reveal_strlit("rtsp");
    reveal_strlit("rtmp");
    reveal_strlit("rtmps");
    reveal_strlit("rtp");
    reveal_strlit("udp");
    reveal_strlit("tcp");
    reveal_strlit("mms");
    reveal_strlit("mmsh");
    assert("http"@[0] == 'h' && "https"@[0] == 'h' && "rtsp"@[0] == 'r' && "rtmp"@[0] == 'r'
        && "rtmps"@[0] == 'r' && "rtp"@[0] == 'r' && "udp"@[0] == 'u' && "tcp"@[0] == 't'
        && "mms"@[0] == 'm' && "mmsh"@[0] == 'm');
}

/// **A network's scheme is known in any case.** Each of the protocols with a peer at the other
/// end is one, and a scheme that differs from another in the case of letters alone is one where
/// the other is; a file's is none.
pub proof fn a_networks_scheme_is_known_in_any_case(scheme: Seq<char>, other: Seq<char>)
    ensures
        caseless_equal(scheme, other) ==> (network_scheme(scheme) <==> network_scheme(other)),
        network_scheme("http"@) && network_scheme("https"@) && network_scheme("rtsp"@),
        network_scheme("rtmp"@) && network_scheme("rtmps"@) && network_scheme("rtp"@),
        network_scheme("udp"@) && network_scheme("tcp"@) && network_scheme("mms"@)
            && network_scheme("mmsh"@),
        !network_scheme("file"@) && !network_scheme(""@),
{
    reveal_strlit("http");
    reveal_strlit("https");
    reveal_strlit("rtsp");
    reveal_strlit("rtmp");
    reveal_strlit("rtmps");
    reveal_strlit("rtp");
    reveal_strlit("udp");
    reveal_strlit("tcp");
    reveal_strlit("mms");
    reveal_strlit("mmsh");
    reveal_strlit("file");
    reveal_strlit("");
    assert("file"@[0] == 'f');
    assert("http"@[0] == 'h' && "rtsp"@[0] == 'r' && "rtmp"@[0] == 'r' && "mmsh"@[0] == 'm');
    assert(crate::text::folded("file"@[0]) == 102);
    if caseless_equal(scheme, other) {
        crate::text::case_is_all_that_is_overlooked('a', 'a', scheme, other, other);
        if network_scheme(other) {
            a_case_is_carried_over(scheme, other);
        }
        if network_scheme(scheme) {
            a_case_is_carried_over(other, scheme);
        }
    }
}

/// What is true of a scheme in one case is true of it in another.
proof fn a_case_is_carried_over(a: Seq<char>, b: Seq<char>)
    requires
        caseless_equal(a, b),
        network_scheme(b),
    ensures
        network_scheme(a),
{
    crate::text::case_is_all_that_is_overlooked('a', 'a', a, b, "http"@);
    crate::text::case_is_all_that_is_overlooked('a', 'a', a, b, "https"@);
    crate::text::case_is_all_that_is_overlooked('a', 'a', a, b, "rtsp"@);
    crate::text::case_is_all_that_is_overlooked('a', 'a', a, b, "rtmp"@);
    crate::text::case_is_all_that_is_overlooked('a', 'a', a, b, "rtmps"@);
    crate::text::case_is_all_that_is_overlooked('a', 'a', a, b, "rtp"@);
    crate::text::case_is_all_that_is_overlooked('a', 'a', a, b, "udp"@);
    crate::text::case_is_all_that_is_overlooked('a', 'a', a, b, "tcp"@);
    crate::text::case_is_all_that_is_overlooked('a', 'a', a, b, "mms"@);
    crate::text::case_is_all_that_is_overlooked('a', 'a', a, b, "mmsh"@);
}

/// **A figure too great to scale is the longest that is not.** From there on every figure stands
/// for the same.
pub proof fn a_figure_too_great_is_the_longest(raw: i64, greater: i64)
    requires
        raw * 1_000_000 > u64::MAX,
        greater >= raw,
    ensures
        duration_of(raw) == duration_of(greater),
        duration_of(raw) matches Some(longest) && longest@ == 18_446_744_073_709_000,
{
}

/// **A tag comes to one thing.** It is nothing exactly where there is no tag or nothing but white
/// space in it; what it is otherwise has none at either end, and is settled.
pub proof fn a_tag_comes_to_one_thing(
    a: Option<Seq<char>>,
    b: Option<Seq<char>>,
    value: Option<Seq<char>>,
)
    requires
        tag_is(a, value),
        tag_is(b, value),
    ensures
        a == b,
        a is None <==> (value matches Some(value) ==> is_blank(value)),
        a matches Some(text) ==> text.len() > 0,
{
    if let Some(text) = value {
        if !is_blank(text) {
            crate::text::there_is_one_way_to_trim(a->0, b->0, text);
        }
    }
}

} // verus!
