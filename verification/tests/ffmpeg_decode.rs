use castaway_pipeline::error::PipelineError;
use castaway_pipeline::ffmpeg_decode::av_session::{AvAction, AvEvent, AvSession};
use castaway_pipeline::ffmpeg_decode::frames::to_decoded_frame;
use castaway_pipeline::ffmpeg_decode::hw_attempt::{AttachAction, AttachEvent, Export, HwAttempt};
use castaway_pipeline::ffmpeg_decode::open::{
    container_duration, input_options, is_network_uri, tag, Found, MediaLayout,
    NETWORK_TIMEOUT_US, STREAMING_HEADERS,
};
use castaway_pipeline::ffmpeg_decode::paced::{PacedAction, PacedDrain, PacedEvent};
use castaway_pipeline::ffmpeg_decode::seek::{after_seek, seek_timestamp, SeekStep};
use castaway_pipeline::ffmpeg_decode::stream::{
    Drain, DrainAction, DrainEvent, StreamAction, StreamEvent, StreamSession, UrlAction, UrlEvent,
    UrlSession,
};
use castaway_pipeline::ffmpeg_decode::{
    wanted_at, Drained, Playback, SessionEnd, EOF_HOLD, PACING_SLICE, VIDEO_DECODE_LEAD,
    VIDEO_PACKET_QUEUE,
};
use castaway_pipeline::hwaccel::{
    Build, HwBackendKind, HwGiveUp, HwPreference, Notice, Platform, SurfaceImport,
};
use castaway_pipeline::media::{PixelFormat, VideoCodec};
use castaway_pipeline::span::Span;

const LINUX: Build = Build {
    hwaccel: true,
    platform: Platform::Unix,
};

fn ms(millis: u64) -> Span {
    Span::from_millis(millis)
}

/// A session with a hardware decoder attached that produces pixel format 46.
fn on_hardware(preference: HwPreference) -> HwAttempt {
    let mut attempt = HwAttempt::new(
        preference,
        LINUX,
        Some(SurfaceImport::Supported(HwBackendKind::Vaapi)),
    )
    .unwrap();
    assert!(matches!(
        attempt.attach(LINUX, AttachEvent::Begin),
        AttachAction::OpenDevice(HwBackendKind::Vaapi)
    ));
    assert!(matches!(
        attempt.attach(LINUX, AttachEvent::Opened(Ok(()))),
        AttachAction::BuildExporter
    ));
    assert!(matches!(
        attempt.attach(LINUX, AttachEvent::ExporterBuilt(Ok(()))),
        AttachAction::AttachDecoder
    ));
    assert!(matches!(
        attempt.attach(LINUX, AttachEvent::Attached(Ok(46))),
        AttachAction::Done
    ));
    attempt
}

#[test]
fn a_hardware_frame_is_exported_and_another_is_not() {
    let mut attempt = on_hardware(HwPreference::Auto);
    assert!(attempt.exports(46));
    assert!(!attempt.exports(0));
    assert!(matches!(attempt.export(46, Some(Ok(()))), Ok(Export::Gpu)));
    assert!(matches!(attempt.export(0, None), Ok(Export::Software)));
}

#[test]
fn failed_exports_are_absorbed_and_then_end_the_hardware_session() {
    let mut attempt = on_hardware(HwPreference::Auto);
    let failed = || Some(Err(HwGiveUp::ExportFailed("pool".to_string())));
    for _ in 0..3 {
        assert!(matches!(attempt.export(46, failed()), Ok(Export::Dropped)));
    }
    assert!(matches!(attempt.export(46, failed()), Ok(Export::Restart)));
    assert!(!attempt.wants_hardware());
    assert!(!attempt.exports(46));
    // The rebuilt decoder opens without looking for a device.
    assert!(matches!(
        attempt.attach(LINUX, AttachEvent::Begin),
        AttachAction::Done
    ));
}

#[test]
fn hardware_only_fails_where_an_export_does() {
    let mut attempt = on_hardware(HwPreference::HardwareOnly);
    let failed = Some(Err(HwGiveUp::ExportFailed("pool".to_string())));
    match attempt.export(46, failed) {
        Err(PipelineError::HwDecode(why)) => assert_eq!(why, "surface export failed: pool"),
        other => panic!("{other:?}"),
    }
    assert!(attempt.wants_hardware(), "it never falls back");
    assert!(attempt.exports(46));
}

#[test]
fn a_device_that_will_not_open_leaves_software() {
    let mut attempt = HwAttempt::new(HwPreference::Auto, LINUX, None).unwrap();
    assert!(attempt.wants_hardware());
    let _ = attempt.attach(LINUX, AttachEvent::Begin);
    let gone = HwGiveUp::DeviceUnavailable("no render node".to_string());
    assert!(matches!(
        attempt.attach(LINUX, AttachEvent::Opened(Err(gone))),
        AttachAction::Done
    ));
    assert!(!attempt.wants_hardware());
}

#[test]
fn hardware_only_fails_where_the_device_does() {
    let mut attempt = HwAttempt::new(HwPreference::HardwareOnly, LINUX, None).unwrap();
    let _ = attempt.attach(LINUX, AttachEvent::Begin);
    let gone = HwGiveUp::DeviceUnavailable("no render node".to_string());
    match attempt.attach(LINUX, AttachEvent::Opened(Err(gone))) {
        AttachAction::Fail(e) => assert_eq!(
            e.message(),
            "hardware decode unavailable: hardware device unavailable: no render node"
        ),
        other => panic!("{other:?}"),
    }
}

#[test]
fn a_compositor_that_cannot_import_keeps_decode_on_the_cpu() {
    let mut attempt = HwAttempt::new(
        HwPreference::Auto,
        LINUX,
        Some(SurfaceImport::Unsupported),
    )
    .unwrap();
    assert!(!attempt.wants_hardware());
    assert_eq!(
        attempt.take_notice(),
        Some(Notice::FellBack(HwGiveUp::DeviceUnavailable(
            "the compositor's device cannot import GPU surfaces".to_string()
        )))
    );
    // Where hardware was the only thing asked for, that is an error.
    let refused = HwAttempt::new(
        HwPreference::HardwareOnly,
        LINUX,
        Some(SurfaceImport::Unsupported),
    );
    assert_eq!(
        refused.unwrap_err().message(),
        "hardware decode unavailable: hardware device unavailable: \
         the compositor's device cannot import GPU surfaces"
    );
}

#[test]
fn a_rejected_negotiation_lets_go_of_the_decoder() {
    let mut attempt = on_hardware(HwPreference::Auto);
    assert!(attempt.asks_negotiation());
    assert!(attempt.confirm_hardware(HwBackendKind::Vaapi));
    assert!(!attempt.confirm_hardware(HwBackendKind::D3d11Va));
    assert!(attempt.check_negotiation(LINUX, false).is_ok());
    assert!(attempt.asks_negotiation());
    assert_eq!(attempt.take_notice(), None);
    assert!(attempt.check_negotiation(LINUX, true).is_ok());
    assert!(!attempt.asks_negotiation());
    assert!(!attempt.wants_hardware());
    assert!(!attempt.confirm_hardware(HwBackendKind::Vaapi));
    assert_eq!(
        attempt.take_notice(),
        Some(Notice::FellBack(HwGiveUp::FormatRejected(HwBackendKind::Vaapi)))
    );

    let mut only = on_hardware(HwPreference::HardwareOnly);
    assert!(matches!(
        only.check_negotiation(LINUX, true),
        Err(PipelineError::HwDecode(_))
    ));
}

#[test]
fn a_give_up_is_answered_by_preference() {
    let mut attempt = on_hardware(HwPreference::Auto);
    assert!(attempt
        .give_up(HwGiveUp::DecodeFailed("lost".to_string()))
        .is_ok());
    assert!(!attempt.wants_hardware());
    let mut only = on_hardware(HwPreference::HardwareOnly);
    assert_eq!(
        only.give_up(HwGiveUp::DecodeFailed("lost".to_string()))
            .unwrap_err()
            .message(),
        "hardware decode unavailable: hardware decode failed: lost"
    );
}

#[test]
fn a_frame_is_held_until_it_is_due() {
    let mut drain = PacedDrain::new();
    assert_eq!(
        drain.step(PacedEvent::Received(Some(ms(500)))),
        PacedAction::AskStop
    );
    assert_eq!(drain.step(PacedEvent::Stop(false)), PacedAction::AskSeek);
    assert_eq!(
        drain.step(PacedEvent::SeekPending(false)),
        PacedAction::Judge(ms(500))
    );
    assert_eq!(
        drain.step(PacedEvent::Hopeless(false)),
        PacedAction::AskNow
    );
    assert_eq!(drain.step(PacedEvent::Now(ms(100))), PacedAction::AskStop);
    assert_eq!(drain.step(PacedEvent::Stop(false)), PacedAction::AskSeek);
    assert_eq!(
        drain.step(PacedEvent::SeekPending(false)),
        PacedAction::AskPaused
    );
    assert_eq!(drain.step(PacedEvent::Paused(false)), PacedAction::AskNow);
    assert_eq!(
        drain.step(PacedEvent::Now(ms(110))),
        PacedAction::AskWait(ms(500))
    );
    // The hold ends forty milliseconds after it began: thirty are left.
    assert_eq!(
        drain.step(PacedEvent::Wait(Some(ms(390)))),
        PacedAction::Sleep(ms(30))
    );
    assert_eq!(drain.step(PacedEvent::Slept), PacedAction::AskStop);
    let _ = drain.step(PacedEvent::Stop(false));
    let _ = drain.step(PacedEvent::SeekPending(false));
    let _ = drain.step(PacedEvent::Paused(false));
    let _ = drain.step(PacedEvent::Now(ms(120)));
    assert_eq!(drain.step(PacedEvent::Wait(None)), PacedAction::Export);
    assert_eq!(
        drain.step(PacedEvent::Exported(Export::Software)),
        PacedAction::Present
    );
    assert_eq!(
        drain.step(PacedEvent::Presented(true)),
        PacedAction::Receive
    );
    assert_eq!(
        drain.step(PacedEvent::Received(None)),
        PacedAction::End(Drained::Continue)
    );
}

#[test]
fn a_hold_is_never_longer_than_the_lead() {
    let mut drain = PacedDrain::new();
    let _ = drain.step(PacedEvent::Received(Some(ms(90_000))));
    let _ = drain.step(PacedEvent::Stop(false));
    let _ = drain.step(PacedEvent::SeekPending(false));
    let _ = drain.step(PacedEvent::Hopeless(false));
    let _ = drain.step(PacedEvent::Now(ms(0)));
    let _ = drain.step(PacedEvent::Stop(false));
    let _ = drain.step(PacedEvent::SeekPending(false));
    let _ = drain.step(PacedEvent::Paused(false));
    assert_eq!(VIDEO_DECODE_LEAD, ms(40).nanos);
    assert_eq!(drain.step(PacedEvent::Now(ms(41))), PacedAction::Export);
}

#[test]
fn a_paused_session_holds_its_frame() {
    let mut drain = PacedDrain::new();
    let _ = drain.step(PacedEvent::Received(Some(ms(10))));
    let _ = drain.step(PacedEvent::Stop(false));
    let _ = drain.step(PacedEvent::SeekPending(false));
    let _ = drain.step(PacedEvent::Hopeless(false));
    let _ = drain.step(PacedEvent::Now(ms(0)));
    for _ in 0..10 {
        let _ = drain.step(PacedEvent::Stop(false));
        let _ = drain.step(PacedEvent::SeekPending(false));
        assert_eq!(
            drain.step(PacedEvent::Paused(true)),
            PacedAction::Sleep(Span { nanos: PACING_SLICE })
        );
        assert_eq!(drain.step(PacedEvent::Slept), PacedAction::AskStop);
    }
    assert_eq!(
        drain.step(PacedEvent::Stop(true)),
        PacedAction::End(Drained::Stopped)
    );
}

#[test]
fn a_hopelessly_late_frame_is_dropped_and_a_seek_ends_the_drain() {
    let mut drain = PacedDrain::new();
    let _ = drain.step(PacedEvent::Received(Some(ms(10))));
    let _ = drain.step(PacedEvent::Stop(false));
    let _ = drain.step(PacedEvent::SeekPending(false));
    assert_eq!(
        drain.step(PacedEvent::Hopeless(true)),
        PacedAction::Receive
    );
    let _ = drain.step(PacedEvent::Received(Some(ms(20))));
    let _ = drain.step(PacedEvent::Stop(false));
    assert_eq!(
        drain.step(PacedEvent::SeekPending(true)),
        PacedAction::End(Drained::Continue)
    );
}

#[test]
fn a_plain_drain_hands_over_every_frame() {
    let mut drain = Drain::new();
    assert_eq!(drain.step(DrainEvent::Received(true)), DrainAction::Export);
    assert_eq!(
        drain.step(DrainEvent::Exported(Export::Gpu)),
        DrainAction::Present
    );
    assert_eq!(
        drain.step(DrainEvent::Presented(true)),
        DrainAction::Receive
    );
    assert_eq!(drain.step(DrainEvent::Received(true)), DrainAction::Export);
    assert_eq!(
        drain.step(DrainEvent::Exported(Export::Dropped)),
        DrainAction::Receive
    );
    assert_eq!(drain.step(DrainEvent::Received(true)), DrainAction::Export);
    assert_eq!(
        drain.step(DrainEvent::Exported(Export::Restart)),
        DrainAction::End(Drained::Restart)
    );
}

fn frame(codec: VideoCodec, keyframe: bool, pts: Span) -> StreamEvent {
    StreamEvent::Frame {
        codec: Some(codec),
        keyframe,
        pts,
    }
}

#[test]
fn a_stream_joined_midway_starts_at_a_key_frame() {
    let mut session = StreamSession::new(VideoCodec::H264);
    for _ in 0..3 {
        assert_eq!(
            session.step(frame(VideoCodec::H264, false, ms(0))),
            StreamAction::Pull
        );
    }
    assert_eq!(
        session.step(frame(VideoCodec::H264, true, ms(33))),
        StreamAction::Send {
            pts: Some(33_000),
            key: true
        }
    );
    assert_eq!(session.step(StreamEvent::Sent(true)), StreamAction::Drain);
    assert_eq!(
        session.step(StreamEvent::Drained(Drained::Continue)),
        StreamAction::Pull
    );
    assert_eq!(
        session.step(frame(VideoCodec::H264, false, ms(66))),
        StreamAction::Send {
            pts: Some(66_000),
            key: false
        }
    );
}

#[test]
fn a_stream_passes_over_another_codec_and_survives_a_bad_frame() {
    let mut session = StreamSession::new(VideoCodec::H264);
    assert_eq!(
        session.step(frame(VideoCodec::Vp8, true, ms(0))),
        StreamAction::Pull
    );
    assert_eq!(
        session.step(StreamEvent::Frame {
            codec: None,
            keyframe: true,
            pts: ms(0)
        }),
        StreamAction::Pull
    );
    let _ = session.step(frame(VideoCodec::H264, true, ms(0)));
    assert_eq!(session.step(StreamEvent::Sent(false)), StreamAction::Pull);
    assert_eq!(session.step(StreamEvent::SourceEnded), StreamAction::Flush);
    assert_eq!(
        session.step(StreamEvent::Flushed),
        StreamAction::End(SessionEnd::Finished)
    );
}

#[test]
fn an_item_is_decoded_from_its_video_stream_alone() {
    let mut session = UrlSession::new(1);
    assert_eq!(session.step(UrlEvent::Packet(0)), UrlAction::Read);
    assert_eq!(session.step(UrlEvent::Packet(1)), UrlAction::Decode);
    assert_eq!(
        session.step(UrlEvent::Drained(Drained::Restart)),
        UrlAction::End(SessionEnd::RebuildInSoftware)
    );
    assert!(Playback::goes_on(SessionEnd::RebuildInSoftware));
    assert!(!Playback::goes_on(SessionEnd::Finished));
    let mut session = UrlSession::new(1);
    assert_eq!(session.step(UrlEvent::InputEnded), UrlAction::Flush);
    assert_eq!(
        session.step(UrlEvent::Flushed(Drained::Continue)),
        UrlAction::End(SessionEnd::Finished)
    );
    // Given up on in its last drain, it is rebuilt all the same.
    let mut session = UrlSession::new(1);
    let _ = session.step(UrlEvent::InputEnded);
    assert_eq!(
        session.step(UrlEvent::Flushed(Drained::Restart)),
        UrlAction::End(SessionEnd::RebuildInSoftware)
    );
}

/// Bring a session to its next read.
fn to_read(session: &mut AvSession<u32>) {
    assert!(matches!(
        session.step(AvEvent::Stop(false)),
        AvAction::TakeSeek
    ));
    match session.step(AvEvent::SeekTaken(None)) {
        AvAction::Read => {}
        AvAction::AskDue(_) => {
            assert!(matches!(session.step(AvEvent::Due(false)), AvAction::Read));
        }
        other => panic!("{other:?}"),
    }
}

/// A video packet numbered `n`, wanted at `at`.
fn picture(n: u32, at: Span) -> AvEvent<u32> {
    AvEvent::Packet {
        stream: 0,
        packet: n,
        at: Some(at),
    }
}

#[test]
fn audio_is_never_stuck_behind_an_early_picture() {
    let mut session: AvSession<u32> = AvSession::new(Some(0), Some(1), true);
    to_read(&mut session);
    assert!(matches!(
        session.step(picture(7, ms(1_000))),
        AvAction::AskStop
    ));
    let _ = session.step(AvEvent::Stop(false));
    match session.step(AvEvent::SeekTaken(None)) {
        AvAction::AskDue(at) => assert_eq!(at, ms(960)),
        other => panic!("{other:?}"),
    }
    // Not due: reading goes on, and the sound of the next packet goes out.
    assert!(matches!(session.step(AvEvent::Due(false)), AvAction::Read));
    let sound = AvEvent::Packet {
        stream: 1,
        packet: 8,
        at: Some(ms(0)),
    };
    assert!(matches!(session.step(sound), AvAction::DecodeAudio(8)));
    assert!(matches!(
        session.step(AvEvent::AudioSent(true)),
        AvAction::AskStop
    ));
    let _ = session.step(AvEvent::Stop(false));
    let _ = session.step(AvEvent::SeekTaken(None));
    assert!(matches!(
        session.step(AvEvent::Due(true)),
        AvAction::Decode(7)
    ));
}

#[test]
fn a_full_queue_waits_instead_of_reading() {
    let mut session: AvSession<u32> = AvSession::new(Some(0), None, true);
    for n in 0..VIDEO_PACKET_QUEUE {
        to_read(&mut session);
        let _ = session.step(picture(n as u32, ms(60_000)));
    }
    let _ = session.step(AvEvent::Stop(false));
    let _ = session.step(AvEvent::SeekTaken(None));
    match session.step(AvEvent::Due(false)) {
        AvAction::Sleep(slice) => assert_eq!(slice, ms(50)),
        other => panic!("{other:?}"),
    }
    assert!(matches!(session.step(AvEvent::Slept), AvAction::AskStop));
}

#[test]
fn a_seek_throws_away_what_was_read_before_it() {
    let mut session: AvSession<u32> = AvSession::new(Some(0), None, true);
    to_read(&mut session);
    let _ = session.step(picture(1, ms(500)));
    let _ = session.step(AvEvent::Stop(false));
    match session.step(AvEvent::SeekTaken(Some(ms(30_000)))) {
        AvAction::Seek(target) => assert_eq!(target, ms(30_000)),
        other => panic!("{other:?}"),
    }
    assert!(matches!(
        session.step(AvEvent::SeekServed(true)),
        AvAction::Read
    ));
    assert!(matches!(session.step(AvEvent::InputEnded), AvAction::Flush));
    assert!(matches!(
        session.step(AvEvent::Drained(Drained::Continue)),
        AvAction::End(SessionEnd::Finished)
    ));
}

#[test]
fn a_refused_seek_keeps_what_was_read() {
    let mut session: AvSession<u32> = AvSession::new(Some(0), None, true);
    to_read(&mut session);
    let _ = session.step(picture(1, ms(500)));
    let _ = session.step(AvEvent::Stop(false));
    let _ = session.step(AvEvent::SeekTaken(Some(ms(30_000))));
    assert!(matches!(
        session.step(AvEvent::SeekServed(false)),
        AvAction::AskDue(_)
    ));
    assert!(matches!(
        session.step(AvEvent::Due(true)),
        AvAction::Decode(1)
    ));
}

#[test]
fn the_tail_is_decoded_in_order_and_no_packet_is_waited_for_without_end() {
    let mut session: AvSession<u32> = AvSession::new(Some(0), None, false);
    for n in 0..2 {
        match session.step(AvEvent::Stop(false)) {
            AvAction::Read => {}
            AvAction::AskDue(_) => {
                let _ = session.step(AvEvent::Due(false));
            }
            other => panic!("{other:?}"),
        }
        let _ = session.step(picture(n, ms(60_000)));
    }
    let _ = session.step(AvEvent::Stop(false));
    let _ = session.step(AvEvent::Due(false));
    assert!(matches!(
        session.step(AvEvent::InputEnded),
        AvAction::AskNow
    ));
    assert_eq!(EOF_HOLD, ms(2_000).nanos);
    let _ = session.step(AvEvent::Now(ms(0)));
    assert!(matches!(
        session.step(AvEvent::Due(false)),
        AvAction::AskStop
    ));
    assert!(matches!(
        session.step(AvEvent::Stop(false)),
        AvAction::AskNow
    ));
    // No longer than what is left of the hold.
    match session.step(AvEvent::Now(ms(1_999))) {
        AvAction::Sleep(rest) => assert_eq!(rest, ms(1)),
        other => panic!("{other:?}"),
    }
    let _ = session.step(AvEvent::Slept);
    let _ = session.step(AvEvent::Due(false));
    let _ = session.step(AvEvent::Stop(false));
    assert!(matches!(
        session.step(AvEvent::Now(ms(2_000))),
        AvAction::AskStop
    ));
    assert!(matches!(
        session.step(AvEvent::Stop(false)),
        AvAction::Decode(0)
    ));
    let _ = session.step(AvEvent::Drained(Drained::Continue));
    let _ = session.step(AvEvent::Now(ms(2_000)));
    let _ = session.step(AvEvent::Due(true));
    assert!(matches!(
        session.step(AvEvent::Stop(false)),
        AvAction::Decode(1)
    ));
    assert!(matches!(
        session.step(AvEvent::Drained(Drained::Continue)),
        AvAction::Flush
    ));
    assert!(matches!(
        session.step(AvEvent::Drained(Drained::Restart)),
        AvAction::End(SessionEnd::RebuildInSoftware)
    ));
}

#[test]
fn a_sound_only_item_ends_with_its_input() {
    let mut session: AvSession<u32> = AvSession::new(None, Some(0), false);
    assert!(matches!(
        session.step(AvEvent::Stop(false)),
        AvAction::Read
    ));
    let sound = AvEvent::Packet {
        stream: 0,
        packet: 1,
        at: None,
    };
    assert!(matches!(session.step(sound), AvAction::DecodeAudio(1)));
    assert!(matches!(
        session.step(AvEvent::AudioSent(true)),
        AvAction::AskStop
    ));
    let _ = session.step(AvEvent::Stop(false));
    assert!(matches!(
        session.step(AvEvent::InputEnded),
        AvAction::End(SessionEnd::Finished)
    ));
}

#[test]
fn a_container_says_how_long_it_is_or_does_not() {
    assert_eq!(container_duration(1_500_000), Some(ms(1_500)));
    assert_eq!(container_duration(0), None);
    assert_eq!(container_duration(i64::MIN), None);
    // A figure too large to scale saturates.
    assert_eq!(
        container_duration(i64::MAX),
        Some(Span::from_micros(u64::MAX / 1_000_000))
    );
}

#[test]
fn tags_are_trimmed_and_blank_ones_dropped() {
    assert_eq!(tag(Some("  Blue in Green \n")).as_deref(), Some("Blue in Green"));
    assert_eq!(tag(Some(" \t")), None);
    assert_eq!(tag(Some("")), None);
    assert_eq!(tag(None), None);
}

fn found(video: bool, audio: bool, audio_wanted: bool) -> Found<'static> {
    Found {
        video,
        audio,
        audio_wanted,
        duration: 2_000_000,
        title: Some(" So What "),
        artist: Some(""),
        album: None,
    }
}

#[test]
fn media_with_nothing_to_play_is_refused() {
    let layout = MediaLayout::of(found(true, true, false)).unwrap();
    assert_eq!(
        layout,
        MediaLayout {
            has_video: true,
            has_audio: false,
            duration: Some(ms(2_000)),
            title: Some("So What".to_string()),
            ..MediaLayout::default()
        }
    );
    assert!(MediaLayout::of(found(false, true, true)).unwrap().has_audio);
    assert_eq!(
        MediaLayout::of(found(false, true, false)).unwrap_err().message(),
        "decode error: the media has neither a video nor an audio stream"
    );
}

#[test]
fn only_a_network_fetch_gets_options() {
    assert!(is_network_uri("http://host/film.mkv"));
    assert!(is_network_uri("HTTPS://host/film.mkv"));
    assert!(is_network_uri("mmsh://host/film"));
    assert!(!is_network_uri("/srv/film.mkv"));
    assert!(!is_network_uri("file:///srv/film.mkv"));
    assert!(!is_network_uri("http:/host"));
    // The scheme ends at the first mark.
    assert!(!is_network_uri("file://x/http://host"));
    assert!(input_options("/srv/film.mkv", "castaway/1").is_empty());
    let options = input_options("http://host/film.mkv", "castaway/1");
    let pairs: Vec<(&str, &str)> = options
        .iter()
        .map(|option| (option.key.as_str(), option.value.as_str()))
        .collect();
    assert_eq!(
        pairs,
        vec![
            ("rw_timeout", NETWORK_TIMEOUT_US),
            ("timeout", NETWORK_TIMEOUT_US),
            ("user_agent", "castaway/1"),
            ("reconnect", "1"),
            ("reconnect_streamed", "1"),
            ("reconnect_delay_max", "5"),
            ("headers", STREAMING_HEADERS),
        ]
    );
    assert_eq!(NETWORK_TIMEOUT_US, "30000000");
}

#[test]
fn a_seek_is_made_in_microseconds() {
    assert_eq!(seek_timestamp(ms(30)), Some(30_000));
    assert_eq!(seek_timestamp(Span { nanos: 1_999 }), Some(1));
    assert_eq!(
        seek_timestamp(Span {
            nanos: u128::from(u64::MAX) * 1_000
        }),
        None
    );
}

#[test]
fn a_seek_flushes_before_it_reanchors() {
    assert_eq!(
        after_seek(true, true, true, true, ms(9)),
        vec![
            SeekStep::FlushVideo,
            SeekStep::FlushAudio,
            SeekStep::DropQueuedAudio,
            SeekStep::Reanchor(ms(9)),
        ]
    );
    assert_eq!(
        after_seek(true, true, false, false, ms(9)),
        vec![SeekStep::FlushVideo, SeekStep::Reanchor(ms(9))]
    );
    assert!(after_seek(false, true, true, true, ms(9)).is_empty());
}

#[test]
fn row_padding_is_stripped() {
    let src: Vec<u8> = vec![1, 2, 3, 4, 5, 6, 7, 8, 0, 0, 11, 12, 13, 14, 15, 16, 17, 18];
    let frame = to_decoded_frame(2, 2, 10, &src, ms(40));
    assert_eq!((frame.width, frame.height), (2, 2));
    assert_eq!(frame.format, PixelFormat::Rgba8);
    assert_eq!(frame.pts, ms(40));
    assert_eq!(
        frame.data.as_ref(),
        &[1, 2, 3, 4, 5, 6, 7, 8, 11, 12, 13, 14, 15, 16, 17, 18]
    );
    assert!(to_decoded_frame(0, 0, 0, &[], ms(0)).data.is_empty());
}

#[test]
fn a_packet_without_a_presentation_time_goes_by_its_decode_time() {
    assert_eq!(wanted_at(Some(ms(1)), Some(ms(2))), Some(ms(1)));
    assert_eq!(wanted_at(None, Some(ms(2))), Some(ms(2)));
    assert_eq!(wanted_at(None, None), None);
}

#[test]
fn the_layout_is_reported_once() {
    let mut playback = Playback::new();
    assert!(playback.reports());
    assert!(!playback.reports());
    assert!(!playback.reports());
}
