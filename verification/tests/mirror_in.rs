use bytes::Bytes;
use castaway_pipeline::media::{AudioCodec, VideoCodec};
use castaway_pipeline::mirror_in::assemble::{annexb_nal_types, is_keyframe};
use castaway_pipeline::mirror_in::depacketize::torn;
use castaway_pipeline::mirror_in::{MirrorCodec, TrackAssembler};
use castaway_pipeline::span::Span;

/// One H.264 NAL, small enough to ride a single packet unfragmented.
fn single_nal(nal_type: u8) -> Bytes {
    Bytes::from(vec![nal_type & 0x1f, 0xaa, 0xbb, 0xcc])
}

#[test]
fn the_mime_types_a_sender_writes_map_to_codecs() {
    assert_eq!(
        MirrorCodec::from_mime("video/H264"),
        Some(MirrorCodec::H264)
    );
    assert_eq!(
        MirrorCodec::from_mime("video/h264"),
        Some(MirrorCodec::H264)
    );
    assert_eq!(MirrorCodec::from_mime("video/VP8"), Some(MirrorCodec::Vp8));
    assert_eq!(
        MirrorCodec::from_mime("audio/opus"),
        Some(MirrorCodec::Opus)
    );
    // Never registered, so never negotiated, so never seen.
    assert_eq!(MirrorCodec::from_mime("video/AV1"), None);
}

/// A picture spread over three packets is one frame, emitted on the marker.
#[test]
fn a_fragmented_picture_becomes_one_frame() {
    let mut a = TrackAssembler::new(MirrorCodec::H264);
    // FU-A: indicator (type 28), then a header with S/E bits and the real type.
    let fu = |start: bool, end: bool, byte: u8| {
        let mut header = 0x01u8; // the fragmented NAL's type (non-IDR slice)
        if start {
            header |= 0x80;
        }
        if end {
            header |= 0x40;
        }
        Bytes::from(vec![28, header, byte])
    };
    assert!(a.push(1000, false, &fu(true, false, 0x11)).is_none());
    assert!(a.push(1000, false, &fu(false, false, 0x22)).is_none());
    let frame = a
        .push(1000, true, &fu(false, true, 0x33))
        .expect("the marker completes the access unit");
    assert_eq!(frame.video_codec, Some(VideoCodec::H264));
    assert_eq!(
        frame.pts,
        Span::zero(),
        "the first frame anchors the clock"
    );
    // Start code, the reassembled NAL header, then the three payload bytes.
    assert_eq!(&frame.data[..], &[0, 0, 0, 1, 0x01, 0x11, 0x22, 0x33]);
}

/// A sender whose marker packet is lost must not weld two pictures together: the
/// timestamp changing is itself the boundary.
#[test]
fn a_new_timestamp_closes_the_previous_picture() {
    let mut a = TrackAssembler::new(MirrorCodec::H264);
    assert!(a.push(9000, false, &single_nal(1)).is_none());
    let frame = a
        .push(18_000, false, &single_nal(1))
        .expect("the first picture is closed by the second's timestamp");
    assert_eq!(frame.pts, Span::zero());
    // …and the second picture is still open, carrying the later time.
    let second = a.push(18_000, true, &single_nal(1)).expect("the second");
    assert_eq!(
        second.pts,
        Span::from_millis(100),
        "9000 ticks of a 90 kHz clock"
    );
}

/// The presentation clock starts at the sender's first timestamp, whatever it is —
/// RTP timestamps start at a random offset by the RFC.
#[test]
fn presentation_time_is_relative_to_the_first_packet() {
    let mut a = TrackAssembler::new(MirrorCodec::H264);
    let first = a.push(3_000_000_000, true, &single_nal(1)).unwrap();
    assert_eq!(first.pts, Span::zero());
    let later = a.push(3_000_090_000, true, &single_nal(1)).unwrap();
    assert_eq!(later.pts, Span::from_secs(1));
}

/// The 32-bit clock wraps every 13 hours at 90 kHz, and a panel is up for weeks. A
/// wrap must read as one more second, not as a 13-hour leap backwards — which every
/// pacing path in the pipeline reads as "hopelessly late" and drops.
#[test]
fn the_rtp_clock_wrapping_is_not_a_leap_backwards() {
    let mut a = TrackAssembler::new(MirrorCodec::H264);
    let base = u32::MAX - 45_000; // half a second short of the wrap
    assert_eq!(a.push(base, true, &single_nal(1)).unwrap().pts, Span::zero());
    // …and 90 000 ticks later, which is 44 999 *after* wrapping through zero.
    let after = a
        .push(base.wrapping_add(90_000), true, &single_nal(1))
        .unwrap();
    assert_eq!(after.pts, Span::from_secs(1));
}

/// The flag the decoder drops frames until it sees.
#[test]
fn keyframes_are_flagged_and_ordinary_slices_are_not() {
    let mut a = TrackAssembler::new(MirrorCodec::H264);
    assert!(
        !a.push(0, true, &single_nal(1)).unwrap().keyframe,
        "a P slice"
    );
    assert!(a.push(90, true, &single_nal(5)).unwrap().keyframe, "an IDR");
    assert!(
        a.push(180, true, &single_nal(7)).unwrap().keyframe,
        "an SPS, which senders emit immediately before the IDR"
    );

    // VP8 says so in bit 0 of the first byte of the frame tag, inverted.
    let mut vp8 = TrackAssembler::new(MirrorCodec::Vp8);
    // Payload descriptor (one byte, no extensions), then the frame tag.
    let key = Bytes::from(vec![0x10, 0x00, 0x00, 0x00]);
    let inter = Bytes::from(vec![0x10, 0x01, 0x00, 0x00]);
    assert!(vp8.push(0, true, &key).unwrap().keyframe);
    assert!(!vp8.push(90, true, &inter).unwrap().keyframe);
}

/// Audio is one packet, one frame, on its own 48 kHz clock — no marker discipline
/// and nothing to reassemble.
#[test]
fn every_opus_packet_is_a_frame_on_the_48_khz_clock() {
    let mut a = TrackAssembler::new(MirrorCodec::Opus);
    let one = Bytes::from_static(&[0xfc, 0x01, 0x02]);
    let first = a.push(0, false, &one).expect("no marker needed");
    assert_eq!(first.audio_codec, Some(AudioCodec::Opus));
    assert_eq!(first.video_codec, None);
    assert!(first.keyframe, "every Opus packet stands alone");
    let next = a.push(960, false, &one).unwrap();
    assert_eq!(next.pts, Span::from_millis(20), "960 ticks at 48 kHz");
}

/// A padding-only or malformed packet is a lost packet, not a lost session.
#[test]
fn junk_packets_are_stepped_over() {
    let mut a = TrackAssembler::new(MirrorCodec::H264);
    assert!(a.push(0, false, &Bytes::new()).is_none());
    assert!(a.push(0, false, &Bytes::from_static(&[0x00])).is_none());
    // …and the track still works afterwards.
    assert!(a.push(0, true, &single_nal(5)).is_some());
}

/// An aggregate that breaks off in the middle of a size is junk like any other.
#[test]
fn a_torn_aggregate_is_stepped_over() {
    assert!(torn(&[24, 0, 1, 0xaa, 0]));
    assert!(torn(&[24, 0, 0, 0]));
    assert!(!torn(&[24, 0, 1, 0xaa]));
    assert!(!torn(&[24, 0, 9, 0xaa]), "a size past the end is refused, not torn");
    assert!(!torn(&[1, 0, 1, 0xaa, 0]), "not an aggregate");
    let mut a = TrackAssembler::new(MirrorCodec::H264);
    assert!(a.push(0, true, &Bytes::from_static(&[24, 0, 1, 0xaa, 0])).is_none());
    assert!(a.push(0, true, &single_nal(5)).is_some());
}

/// Several small units in one packet come out each with its own start code.
#[test]
fn an_aggregate_is_taken_apart() {
    let mut a = TrackAssembler::new(MirrorCodec::H264);
    let stap = Bytes::from_static(&[24, 0, 2, 0x67, 0x42, 0, 2, 0x68, 0xce]);
    let frame = a.push(0, true, &stap).unwrap();
    assert_eq!(
        &frame.data[..],
        &[0, 0, 0, 1, 0x67, 0x42, 0, 0, 0, 1, 0x68, 0xce]
    );
    assert!(frame.keyframe, "a parameter set");
}

/// A VP8 descriptor with extensions is taken off whole.
#[test]
fn an_extended_vp8_descriptor_is_taken_off() {
    let mut a = TrackAssembler::new(MirrorCodec::Vp8);
    // X, then I with a 15-bit picture id, then the frame tag.
    let packet = Bytes::from_static(&[0x90, 0x80, 0x81, 0x02, 0x00, 0x11]);
    let frame = a.push(0, true, &packet).unwrap();
    assert_eq!(&frame.data[..], &[0x00, 0x11]);
}

/// A packet that closes one picture and completes another loses neither: the older comes
/// out at once, the newer with the next packet or flush.
#[test]
fn a_packet_that_completes_two_pictures_loses_neither() {
    let mut a = TrackAssembler::new(MirrorCodec::H264);
    assert!(a.push(9000, false, &single_nal(1)).is_none());
    let older = a.push(18_000, true, &single_nal(5)).unwrap();
    assert!(!older.keyframe);
    assert_eq!(older.pts, Span::zero());
    let newer = a.flush().unwrap();
    assert!(newer.keyframe);
    assert_eq!(newer.pts, Span::from_millis(100));
    assert!(a.flush().is_none());
    // The same, with a packet in place of the flush: even one with nothing in it.
    assert!(a.push(27_000, false, &single_nal(1)).is_none());
    assert_eq!(
        a.push(36_000, true, &single_nal(1)).unwrap().pts,
        Span::from_millis(200)
    );
    assert_eq!(
        a.push(45_000, true, &single_nal(1)).unwrap().pts,
        Span::from_millis(300)
    );
    assert_eq!(
        a.push(45_000, false, &Bytes::new()).unwrap().pts,
        Span::from_millis(400)
    );
    assert!(a.take_ready().is_none());
}

/// What a VP8 sender once declared still stands for a descriptor that declares nothing.
#[test]
fn vp8_extensions_are_remembered() {
    let mut a = TrackAssembler::new(MirrorCodec::Vp8);
    // X, then L and T: a level index and a layer.
    let packet = Bytes::from_static(&[0x90, 0x60, 0x01, 0x20, 0x00, 0x11]);
    assert_eq!(&a.push(0, true, &packet).unwrap().data[..], &[0x00, 0x11]);
    let plain = Bytes::from_static(&[0x10, 0x02, 0x20, 0x01, 0x12]);
    assert_eq!(&a.push(90, true, &plain).unwrap().data[..], &[0x01, 0x12]);
    // A descriptor as long as its payload leaves nothing.
    let bare = Bytes::from_static(&[0x90, 0x80, 0x81, 0x02]);
    assert!(a.push(180, true, &bare).is_none());
}

/// An aggregate with a unit longer than what is left is refused whole.
#[test]
fn an_aggregate_that_runs_past_its_end_is_refused() {
    let mut a = TrackAssembler::new(MirrorCodec::H264);
    let stap = Bytes::from_static(&[24, 0, 2, 0x67, 0x42, 0, 9, 0x68, 0xce]);
    assert!(a.push(0, true, &stap).is_none());
    assert!(a.flush().is_none());
}

#[test]
fn annex_b_units_are_found_behind_either_start_code() {
    assert_eq!(
        annexb_nal_types(&[0, 0, 0, 1, 0x67, 9, 0, 0, 1, 0x65, 9]),
        vec![7, 5]
    );
    assert!(annexb_nal_types(&[0, 0, 1]).is_empty());
    assert!(annexb_nal_types(&[0, 0, 0, 1]).is_empty());
    assert!(is_keyframe(MirrorCodec::H264, &[0, 0, 1, 0x68]));
    assert!(!is_keyframe(MirrorCodec::H264, &[0, 0, 1, 0x61]));
    assert!(!is_keyframe(MirrorCodec::Vp8, &[]));
    assert!(is_keyframe(MirrorCodec::Opus, &[]));
}

#[test]
fn clocks_and_kinds_belong_to_their_codecs() {
    assert_eq!(MirrorCodec::H264.clock_rate(), 90_000);
    assert_eq!(MirrorCodec::Vp8.clock_rate(), 90_000);
    assert_eq!(MirrorCodec::Opus.clock_rate(), 48_000);
    assert!(MirrorCodec::H264.is_video());
    assert!(MirrorCodec::Vp8.is_video());
    assert!(!MirrorCodec::Opus.is_video());
}

#[test]
fn a_step_backwards_never_presents_before_the_start() {
    let mut a = TrackAssembler::new(MirrorCodec::H264);
    assert!(a.clock_fits(9000));
    assert_eq!(a.push(9000, true, &single_nal(1)).unwrap().pts, Span::zero());
    assert_eq!(a.push(0, true, &single_nal(1)).unwrap().pts, Span::zero());
    assert_eq!(
        a.push(18_000, true, &single_nal(1)).unwrap().pts,
        Span::from_millis(100)
    );
}
