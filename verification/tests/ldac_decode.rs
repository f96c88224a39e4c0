use castaway_pipeline::error::PipelineError;
use castaway_pipeline::ldac_decode::{
    channels_written, check_opened, hex_head, scratch, AudioFormat, Block, Call, ChannelMode,
    Decoder, Opened, Payload, Slice,
};
use castaway_pipeline::span::Span;

const MAX_FRAME: usize = 1024;
const CAPACITY: usize = 4096;

fn format(sample_rate: u32, channels: u16) -> AudioFormat {
    AudioFormat {
        sample_rate,
        channels,
    }
}

fn call(used: i32, wrote: i32) -> Call {
    Call {
        failed: false,
        updated: false,
        used,
        wrote,
    }
}

#[test]
fn a_packet_is_many_frames_and_each_plays_after_the_last() {
    let mut payload = Payload::new(300, Span::from_millis(10));
    let mut offsets = Vec::new();
    let mut times = Vec::new();
    while let Some(slice) = payload.next(MAX_FRAME) {
        offsets.push((slice.from, slice.take));
        let block = payload.called(call(120, 1024), CAPACITY).unwrap();
        assert_eq!(block.bytes, 1024);
        times.push(block.pts);
        payload.played(Span::from_millis(2));
    }
    assert_eq!(offsets, vec![(0, 300), (120, 180), (240, 60)]);
    assert_eq!(
        times,
        vec![
            Span::from_millis(10),
            Span::from_millis(12),
            Span::from_millis(14)
        ]
    );
}

#[test]
fn a_tail_too_short_for_a_frame_is_padding() {
    let payload = Payload::new(4, Span::zero());
    assert_eq!(payload.next(MAX_FRAME), None);
    let payload = Payload::new(5, Span::zero());
    assert_eq!(payload.next(MAX_FRAME), Some(Slice { from: 0, take: 5 }));
    let payload = Payload::new(5000, Span::zero());
    assert_eq!(
        payload.next(MAX_FRAME),
        Some(Slice {
            from: 0,
            take: MAX_FRAME
        })
    );
}

#[test]
fn a_reconfiguration_is_audio_and_a_refusal_is_not() {
    let mut payload = Payload::new(150, Span::zero());
    let updated = Call {
        failed: true,
        updated: true,
        used: 50,
        wrote: 8,
    };
    assert_eq!(
        payload.called(updated, CAPACITY),
        Some(Block {
            bytes: 8,
            pts: Span::zero()
        })
    );
    assert!(payload.next(MAX_FRAME).is_some());
    let refused = Call {
        failed: true,
        updated: false,
        used: 50,
        wrote: 8,
    };
    assert_eq!(payload.called(refused, CAPACITY), None);
    assert_eq!(
        payload.next(MAX_FRAME),
        Some(Slice {
            from: 100,
            take: 50
        }),
        "the refused frame is skipped"
    );
    let stuck = Call { used: 0, ..refused };
    assert_eq!(payload.called(stuck, CAPACITY), None);
    assert_eq!(payload.next(MAX_FRAME), None, "the payload is over");
}

#[test]
fn a_frame_that_consumes_nothing_ends_the_payload() {
    for used in [0, -7] {
        let mut payload = Payload::new(100, Span::zero());
        assert_eq!(payload.called(call(used, 8), CAPACITY), None);
        assert_eq!(payload.next(MAX_FRAME), None);
    }
    // What the library says it wrote is believed as far as the buffer goes.
    let mut payload = Payload::new(100, Span::zero());
    let block = payload.called(call(i32::MAX, i32::MAX), CAPACITY).unwrap();
    assert_eq!(block.bytes, CAPACITY);
    assert_eq!(payload.next(MAX_FRAME), None);
    let mut payload = Payload::new(100, Span::zero());
    assert_eq!(payload.called(call(1, -1), CAPACITY).unwrap().bytes, 0);
}

#[test]
fn the_slack_behind_a_frame_is_zeroed() {
    assert_eq!(
        scratch(&[9, 8, 7, 6], Slice { from: 1, take: 2 }),
        vec![8, 7, 0, 0]
    );
}

#[test]
fn the_block_says_how_many_channels_it_holds() {
    assert_eq!(channels_written(48_000, 256), 2);
    assert_eq!(channels_written(48_000, 128), 1);
    assert_eq!(channels_written(96_000, 512), 2);
    assert_eq!(channels_written(96_000, 256), 1);
    assert_eq!(channels_written(88_200, 256), 1);
    assert_eq!(channels_written(44_100, 0), 2);
    // A short final write does not divide, and reads as two channels.
    assert_eq!(channels_written(44_100, 200), 2);
    assert_eq!(channels_written(96_000, 300), 2);
}

#[test]
fn the_first_bytes_tell_framing_mistakes_apart() {
    assert_eq!(hex_head(&[0xaa, 0x0b]), "aa0b");
    assert_eq!(
        hex_head(&[0, 1, 2, 3, 4, 5, 6, 0xff, 0xee]),
        "00010203040506ff"
    );
    assert_eq!(hex_head(&[]), "");
}

#[test]
fn a_decoder_opens_in_the_negotiated_mode() {
    let (decoder, opening) = Decoder::new(format(96_000, 2), true).unwrap();
    assert_eq!(decoder.negotiated(), format(96_000, 2));
    assert_eq!((opening.mode, opening.rate), (ChannelMode::Stereo, 96_000));
    let (_, opening) = Decoder::new(format(44_100, 1), true).unwrap();
    assert_eq!(opening.mode, ChannelMode::Mono);
    match Decoder::new(format(3_000_000_000, 2), true) {
        Err(PipelineError::Decode(why)) => {
            assert_eq!(why, "LDAC sample rate 3000000000 is out of range");
        }
        other => panic!("{other:?}"),
    }
    // Without a handle, that is what is said, whatever the rate.
    for rate in [48_000, 3_000_000_000] {
        match Decoder::new(format(rate, 2), false) {
            Err(PipelineError::Decode(why)) => {
                assert_eq!(why, "could not allocate an LDAC handle");
            }
            other => panic!("{other:?}"),
        }
    }
}

#[test]
fn an_opening_that_fails_says_why() {
    assert!(check_opened(Opened::Ready, format(48_000, 2)).is_ok());
    assert_eq!(format(44_100, 1).describe(), format!("{:?}", format(44_100, 1)));
    match check_opened(Opened::Refused(-12), format(192_000, 2)) {
        Err(PipelineError::Decode(why)) => assert_eq!(
            why,
            "LDAC decoder init refused AudioFormat { sample_rate: 192000, channels: 2 }: \
             error -12"
        ),
        other => panic!("{other:?}"),
    }
}

#[test]
fn a_mismatch_is_said_once_and_the_stream_is_followed() {
    let (mut decoder, _) = Decoder::new(format(48_000, 2), true).unwrap();
    assert!(!decoder.check_against_negotiation(None));
    assert!(!decoder.check_against_negotiation(Some(format(48_000, 1))));
    assert!(decoder.check_against_negotiation(Some(format(96_000, 2))));
    assert!(!decoder.check_against_negotiation(Some(format(96_000, 2))));
    assert_eq!(decoder.block_rate(Some(format(96_000, 2))), 96_000);
    assert_eq!(decoder.block_rate(None), 48_000);
}

#[test]
fn the_stream_says_what_the_rate_is() {
    let negotiated = AudioFormat { sample_rate: 48_000, channels: 2 };
    let (mut decoder, _) = Decoder::new(negotiated, true).expect("a rate in range");
    assert_eq!(decoder.stream_format(48_000), None, "no frame has been decoded");
    decoder.hear(Call {
        failed: true,
        ..call(50, 8)
    });
    assert_eq!(decoder.stream_format(48_000), None, "a refused frame says nothing");
    decoder.hear(call(50, 8));
    assert_eq!(
        decoder.stream_format(96_000),
        Some(AudioFormat { sample_rate: 96_000, channels: 2 })
    );
    assert_eq!(decoder.stream_format(0), None);
    assert_eq!(decoder.stream_format(-1), None);
    let silent = AudioFormat { sample_rate: 48_000, channels: 0 };
    let (mut decoder, _) = Decoder::new(silent, true).expect("a rate in range");
    decoder.hear(call(50, 8));
    assert_eq!(decoder.stream_format(48_000), None);
}
