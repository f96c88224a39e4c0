//! The frames that pass between protocol adapters, decoders and the compositor.
use crate::span::Span;
use bytes::Bytes;
use vstd::prelude::*;

verus! {

/// A video codec that a session can negotiate.
#[derive(Debug, Clone, Copy, PartialEq, Eq, Structural)]
pub enum VideoCodec {
    /// H.264, also called AVC.
    H264,
    /// H.265, also called HEVC.
    Hevc,
    /// VP8.
    Vp8,
    /// VP9.
    Vp9,
}

/// An audio codec that a mirrored track can carry.
#[derive(Debug, Clone, Copy, PartialEq, Eq, Structural)]
pub enum AudioCodec {
    /// Opus.
    Opus,
}

/// One encoded access unit, as a protocol adapter hands it over.
#[derive(Debug)]
pub struct EncodedFrame {
    /// The video codec, for a video frame.
    pub video_codec: Option<VideoCodec>,
    /// The audio codec, for an audio frame.
    pub audio_codec: Option<AudioCodec>,
    /// When the frame is to be presented, from the start of its track.
    pub pts: Span,
    /// Whether decoding can start here.
    pub keyframe: bool,
    /// The encoded bytes.
    pub data: Bytes,
}

/// How the pixels of a decoded frame lie in memory.
#[derive(Debug, Clone, Copy, PartialEq, Eq, Structural)]
pub enum PixelFormat {
    /// Red, green, blue, alpha; one byte each, rows packed.
    Rgba8,
}

/// A decoded picture in system memory.
#[derive(Debug)]
pub struct DecodedFrame {
    /// Width in pixels.
    pub width: u32,
    /// Height in pixels.
    pub height: u32,
    /// How the pixels lie.
    pub format: PixelFormat,
    /// When the picture is to be presented.
    pub pts: Span,
    /// The pixels, row after row with nothing between rows.
    pub data: Bytes,
}

} // verus!
