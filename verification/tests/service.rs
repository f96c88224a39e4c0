use bytes::Bytes;
use castaway_pipeline::error::PipelineError;
use castaway_pipeline::ice_ports::PortPool;
use castaway_pipeline::mirror_in::service::{
    closed, ends_session, offer_has_audio, receivable_codecs, CodecKind, ConnectionState,
    FrameQueue, KeyframeRequest, KeyframeRequests, NegotiateAction, NegotiateEvent, Pump,
    SendOutcome, FRAME_QUEUE, PLI_ATTEMPTS,
};
use castaway_pipeline::mirror_in::{MirrorCodec, MirrorReceiver};

const OFFER: &str = "v=0\r\no=- 4611731400430051336 2 IN IP4 127.0.0.1\r\ns=-\r\nt=0 0\r\n\
                     m=video 9 UDP/TLS/RTP/SAVPF 102\r\nc=IN IP4 0.0.0.0\r\n\
                     m=audio 9 UDP/TLS/RTP/SAVPF 111\r\nc=IN IP4 0.0.0.0\r\n";

#[test]
fn a_rejected_audio_section_is_not_audio() {
    let with_audio =
        "v=0\r\nm=video 9 UDP/TLS/RTP/SAVPF 102\r\nm=audio 9 UDP/TLS/RTP/SAVPF 111\r\n";
    let rejected = "v=0\r\nm=video 9 UDP/TLS/RTP/SAVPF 102\r\nm=audio 0 UDP/TLS/RTP/SAVPF 111\r\n";
    let video_only = "v=0\r\nm=video 9 UDP/TLS/RTP/SAVPF 102\r\n";
    assert!(offer_has_audio(with_audio));
    assert!(!offer_has_audio(rejected));
    assert!(!offer_has_audio(video_only));
    // …and an `a=` line that merely mentions audio is not a media section.
    assert!(!offer_has_audio("v=0\r\na=group:BUNDLE m=audio 9\r\n"));
}

#[test]
fn every_registered_codec_can_be_depacketized() {
    for codec in receivable_codecs() {
        let mime = codec.mime_type;
        let parsed = MirrorCodec::from_mime(mime)
            .unwrap_or_else(|| panic!("{mime} is registered but cannot be depacketized"));
        assert_eq!(
            parsed.is_video(),
            codec.kind == CodecKind::Video,
            "{mime} is registered as the wrong kind"
        );
        assert_eq!(
            parsed.clock_rate(),
            codec.clock_rate,
            "{mime}'s clock rate disagrees with what the answer offers"
        );
    }
}

#[test]
fn an_audio_line_with_no_port_is_not_audio() {
    assert!(!offer_has_audio("m=audio "));
    assert!(!offer_has_audio("m=audio   \r\n"));
    assert!(offer_has_audio("m=audio 00 UDP\n"));
    assert!(offer_has_audio("m=audio 9"));
}

#[test]
fn a_readable_offer_takes_the_lowest_port() {
    let mut ports = PortPool::new(41032, 41033);
    let (offer, negotiation) = MirrorReceiver::build(OFFER, &mut ports).expect("it reads");
    assert_eq!(offer.sdp, OFFER, "the text that was read is the offer's");
    assert_eq!(negotiation.port, 41032);
    assert!(negotiation.wants_audio);
    assert_eq!(ports.in_use(), 1);
}

#[test]
fn an_offer_that_does_not_read_costs_no_port() {
    let mut ports = PortPool::new(41032, 41033);
    match MirrorReceiver::build("this is no description", &mut ports) {
        Err(PipelineError::Remote(why)) => {
            assert!(why.starts_with("offer: "), "{why}");
            assert!(why.len() > "offer: ".len(), "the reader says why: {why}");
        }
        other => panic!("{:?}", other.map(|_| ())),
    }
    assert_eq!(ports.in_use(), 0);
}

#[test]
fn a_full_range_refuses_the_offer() {
    let mut ports = PortPool::new(41032, 41032);
    assert!(ports.take().is_some());
    match MirrorReceiver::build(OFFER, &mut ports) {
        Err(PipelineError::Remote(why)) => assert_eq!(why, "every mirroring port is in use"),
        other => panic!("{:?}", other.map(|_| ())),
    }
}

#[test]
fn a_receiver_needs_a_runtime() {
    match MirrorReceiver::new(false) {
        Err(e) => assert_eq!(
            e.message(),
            "remote: no async runtime for WebRTC"
        ),
        Ok(_) => panic!("there is no runtime"),
    }
    assert!(!MirrorReceiver::new(true).unwrap().is_active());
}

fn events() -> Vec<NegotiateEvent> {
    vec![
        NegotiateEvent::Registered(Ok(())),
        NegotiateEvent::Intercepted(Ok(())),
        NegotiateEvent::Built(Ok(7)),
        NegotiateEvent::RemoteSet(Ok(())),
        NegotiateEvent::Answered(Ok(())),
        NegotiateEvent::LocalSet(Ok(())),
        NegotiateEvent::Gathered(true),
    ]
}

#[test]
fn an_answered_offer_is_the_active_session_and_closes_the_last() {
    let mut receiver = MirrorReceiver::new(true).unwrap();
    let mut ports = PortPool::new(41032, 41040);
    for round in 0..2u16 {
        let mut negotiation = MirrorReceiver::begin(true, &mut ports).unwrap();
        for event in events() {
            receiver.negotiate(&mut negotiation, &mut ports, event);
        }
        let action = receiver.negotiate(
            &mut negotiation,
            &mut ports,
            NegotiateEvent::Described(Some("v=0".to_string())),
        );
        match action {
            NegotiateAction::Answer { sdp, audio, close } => {
                assert_eq!(sdp, "v=0");
                assert!(audio);
                assert_eq!(close.map(|s| s.port), (round == 1).then_some(41032));
                if let Some(old) = close {
                    closed(old, &mut ports);
                }
            }
            other => panic!("{other:?}"),
        }
    }
    assert_eq!(ports.in_use(), 1, "the one that was closed gave its port back");
    assert_eq!(receiver.shutdown(&mut ports), Some(7));
    assert!(!receiver.is_active());
}

#[test]
fn a_connection_that_was_replaced_ends_alone() {
    let mut receiver = MirrorReceiver::new(true).unwrap();
    let mut ports = PortPool::new(41032, 41040);
    for connection in [7, 8] {
        let mut negotiation = MirrorReceiver::begin(true, &mut ports).unwrap();
        for event in events() {
            let event = match event {
                NegotiateEvent::Built(_) => NegotiateEvent::Built(Ok(connection)),
                other => other,
            };
            receiver.negotiate(&mut negotiation, &mut ports, event);
        }
        receiver.negotiate(
            &mut negotiation,
            &mut ports,
            NegotiateEvent::Described(Some("v=0".to_string())),
        );
    }
    assert_eq!(receiver.forget(7), None, "it has been replaced");
    assert!(receiver.is_active());
    assert_eq!(
        receiver.forget(8).map(|session| session.port),
        Some(41033)
    );
    assert_eq!(receiver.forget(8), None, "once");
    assert!(!receiver.is_active());
}

#[test]
fn every_step_that_fails_gives_the_port_back_and_says_which() {
    let no = || "no".to_string();
    let failing: Vec<(NegotiateEvent, &str)> = vec![
        (NegotiateEvent::Registered(Err(no())), "codec: no"),
        (NegotiateEvent::Intercepted(Err(no())), "interceptors: no"),
        (NegotiateEvent::Built(Err(no())), "peer connection: no"),
        (NegotiateEvent::RemoteSet(Err(no())), "remote description: no"),
        (NegotiateEvent::Answered(Err(no())), "answer: no"),
        (NegotiateEvent::LocalSet(Err(no())), "local description: no"),
    ];
    for (at, (event, said)) in failing.into_iter().enumerate() {
        let mut receiver = MirrorReceiver::new(true).unwrap();
        let mut ports = PortPool::new(41032, 41032);
        let mut negotiation = MirrorReceiver::begin(false, &mut ports).unwrap();
        for before in events().into_iter().take(at) {
            receiver.negotiate(&mut negotiation, &mut ports, before);
        }
        match receiver.negotiate(&mut negotiation, &mut ports, event) {
            NegotiateAction::Fail(PipelineError::Remote(why)) => assert_eq!(why, said),
            other => panic!("{other:?}"),
        }
        assert_eq!(ports.in_use(), 0);
        assert!(!receiver.is_active());
    }
    let mut receiver = MirrorReceiver::new(true).unwrap();
    let mut ports = PortPool::new(41032, 41032);
    let mut negotiation = MirrorReceiver::begin(false, &mut ports).unwrap();
    for before in events() {
        receiver.negotiate(&mut negotiation, &mut ports, before);
    }
    match receiver.negotiate(&mut negotiation, &mut ports, NegotiateEvent::Described(None)) {
        NegotiateAction::Fail(PipelineError::Remote(why)) => {
            assert_eq!(why, "no local description after gathering");
        }
        other => panic!("{other:?}"),
    }
    assert_eq!(ports.in_use(), 0);
}

#[test]
fn only_a_finished_connection_ends_the_session() {
    assert!(ends_session(ConnectionState::Failed));
    assert!(ends_session(ConnectionState::Closed));
    assert!(ends_session(ConnectionState::Disconnected));
    assert!(!ends_session(ConnectionState::Connected));
}

#[test]
fn a_keyframe_is_asked_for_until_one_comes_or_the_asking_is_over() {
    let mut requests = KeyframeRequests::new();
    let mut asked = 0usize;
    while let KeyframeRequest::Ask(_) = requests.next(false) {
        asked += 1;
        assert!(asked <= PLI_ATTEMPTS);
    }
    assert_eq!(asked, PLI_ATTEMPTS);
    assert_eq!(requests.next(false), KeyframeRequest::GiveUp);
    let mut requests = KeyframeRequests::new();
    assert_eq!(requests.next(true), KeyframeRequest::Seen);
}

#[test]
fn a_track_that_cannot_be_taken_apart_is_drained_and_dropped() {
    let mut pump = Pump::new();
    assert_eq!(pump.open(Some("video/AV1")), None);
    let mut pump = Pump::new();
    assert_eq!(pump.open(None), None);
    let mut pump = Pump::new();
    assert_eq!(pump.open(Some("video/h264")), Some(true));
    let idr = Bytes::from(vec![5u8, 0xaa, 0xbb, 0xcc]);
    assert!(pump.clock_fits(0));
    let outgoing = pump.packet(0, true, &idr).expect("one packet, one picture");
    assert!(outgoing.frame.keyframe);
    assert!(pump.seen_keyframe());
    assert!(pump.finish().is_none(), "nothing waits");
    // A picture that a track's last packet completed behind another is not lost with it.
    assert!(pump.packet(9000, false, &idr).is_none());
    assert!(pump.packet(18_000, true, &idr).is_some());
    let last = pump.finish().expect("the second picture");
    assert!(last.video);
    assert!(pump.finish().is_none());
    assert!(Pump::goes_on(SendOutcome::Full));
    assert!(!Pump::goes_on(SendOutcome::Closed));
}

#[test]
fn a_decoder_that_falls_behind_loses_the_oldest_frame() {
    let mut queue = FrameQueue::new();
    for frame in 0..FRAME_QUEUE {
        assert_eq!(queue.offer(frame), SendOutcome::Queued);
    }
    assert_eq!(queue.offer(FRAME_QUEUE), SendOutcome::Full);
    for frame in 1..=FRAME_QUEUE {
        assert_eq!(queue.take(), Some(frame));
    }
    assert_eq!(queue.take(), None);
    assert_eq!(queue.offer(7), SendOutcome::Queued);
    queue.close();
    assert_eq!(queue.offer(8), SendOutcome::Closed);
    assert_eq!(queue.take(), None);
}
