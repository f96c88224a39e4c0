//! Moving a session to another position.
use crate::span::Span;
use vstd::prelude::*;

verus! {

/// One step of putting everything downstream of a moved demuxer back in step.
#[derive(Debug, Clone, Copy, PartialEq, Eq, Structural)]
pub enum SeekStep {
    /// Flush the video decoder, or its pictures come out labelled with the old position.
    FlushVideo,
    /// Flush the audio decoder, for the same reason.
    FlushAudio,
    /// Have the thread that owns it drop the audio already queued.
    DropQueuedAudio,
    /// Anchor the clock at this position.
    Reanchor(Span),
}

/// The demuxer's timestamp for a target, in microseconds; `None` for one further away than
/// its timestamps reach, which is then not sought at all.
pub fn seek_timestamp(target: Span) -> (timestamp: Option<i64>)
    ensures
        timestamp == if target@ / 1_000 <= i64::MAX {
            Some((target@ / 1_000) as i64)
        } else {
            None
        },
{
    let micros: u128 = target.as_micros();
    if micros <= i64::MAX as u128 {
        Some(micros as i64)
    } else {
        None
    }
}

/// The steps that follow a seek, in order.
///
/// A seek that the demuxer refused is followed by nothing: playback carries on from where
/// it was. One that moved it flushes what decoders there are, drops the queued audio where
/// there is any, and re-anchors the clock last, once nothing stale is left to move it back.
pub open spec fn steps_after_seek(
    moved: bool,
    video: bool,
    audio_decoder: bool,
    has_audio: bool,
    target: Span,
) -> Seq<SeekStep> {
    if !moved {
        Seq::empty()
    } else {
        (if video {
            seq![SeekStep::FlushVideo]
        } else {
            Seq::empty()
        }) + (if audio_decoder {
            seq![SeekStep::FlushAudio]
        } else {
            Seq::empty()
        }) + (if has_audio {
            seq![SeekStep::DropQueuedAudio]
        } else {
            Seq::empty()
        }) + seq![SeekStep::Reanchor(target)]
    }
}

/// What to do once the demuxer has been asked to move to `target`.
pub fn after_seek(
    moved: bool,
    video: bool,
    audio_decoder: bool,
    has_audio: bool,
    target: Span,
) -> (steps: Vec<SeekStep>)
    ensures
        steps@ == steps_after_seek(moved, video, audio_decoder, has_audio, target),
{
    let mut steps: Vec<SeekStep> = Vec::new();
    if moved {
        if video {
            steps.push(SeekStep::FlushVideo);
        }
        if audio_decoder {
            steps.push(SeekStep::FlushAudio);
        }
        if has_audio {
            steps.push(SeekStep::DropQueuedAudio);
        }
        steps.push(SeekStep::Reanchor(target));
    }
    assert(steps@ =~= steps_after_seek(moved, video, audio_decoder, has_audio, target));
    steps
}

/// **The clock moves last, and only with the demuxer.** The one re-anchoring of a seek is
/// to its target and has nothing after it; a refused seek has none.
pub proof fn the_clock_moves_last(
    moved: bool,
    video: bool,
    audio_decoder: bool,
    has_audio: bool,
    target: Span,
)
    ensures
        ({
            let steps = steps_after_seek(moved, video, audio_decoder, has_audio, target);
            &&& moved ==> steps.len() > 0 && steps.last() == SeekStep::Reanchor(target)
            &&& !moved ==> steps.len() == 0
            &&& forall|i: int|
                0 <= i < steps.len() - 1 ==> !((#[trigger] steps[i]) is Reanchor)
        }),
{
}

/// **Everything stale goes, in order, before the clock moves.** A seek that moved the demuxer
/// flushes each decoder there is, once, then has the queued audio dropped where there is audio,
/// and does nothing else before it anchors the clock.
pub proof fn everything_stale_goes_first(
    video: bool,
    audio_decoder: bool,
    has_audio: bool,
    target: Span,
)
    ensures
        ({
            let steps = steps_after_seek(true, video, audio_decoder, has_audio, target);
            &&& steps.contains(SeekStep::FlushVideo) <==> video
            &&& steps.contains(SeekStep::FlushAudio) <==> audio_decoder
            &&& steps.contains(SeekStep::DropQueuedAudio) <==> has_audio
            &&& forall|i: int, j: int|
                0 <= i < j < steps.len() ==> (#[trigger] steps[i]) != (#[trigger] steps[j])
            &&& forall|i: int, j: int|
                0 <= i < steps.len() && 0 <= j < steps.len() && (#[trigger] steps[i])
                    == SeekStep::DropQueuedAudio && ((#[trigger] steps[j]) == SeekStep::FlushVideo
                    || steps[j] == SeekStep::FlushAudio) ==> j < i
        }),
{
    let steps = steps_after_seek(true, video, audio_decoder, has_audio, target);
    let at = if video {
        1int
    } else {
        0int
    };
    let then = if audio_decoder {
        at + 1
    } else {
        at
    };
    if video {
        assert(steps[0] == SeekStep::FlushVideo);
    }
    if audio_decoder {
        assert(steps[at] == SeekStep::FlushAudio);
    }
    if has_audio {
        assert(steps[then] == SeekStep::DropQueuedAudio);
    }
}

/// **A target is sought to the microsecond.** Its timestamp is the last microsecond that is not
/// beyond it, and a target is sought wherever the demuxer's timestamps reach it.
pub proof fn a_target_is_sought_to_the_microsecond(target: Span, timestamp: Option<i64>)
    requires
        call_ensures(seek_timestamp, (target,), timestamp),
    ensures
        timestamp matches Some(micros) ==> 0 <= micros && micros * 1_000 <= target@ < (micros + 1)
            * 1_000,
        timestamp is None <==> target@ >= (i64::MAX + 1) * 1_000,
{
}

} // verus!
