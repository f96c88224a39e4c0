//! Pipeline errors.
use crate::text::joined;
use vstd::prelude::*;

verus! {

/// Failures in the render/decode pipeline.
#[derive(Debug)]
#[non_exhaustive]
pub enum PipelineError {
    /// No suitable GPU adapter/device could be acquired.
    GpuInit(String),
    /// A surface/swapchain operation failed.
    Surface(String),
    /// A remote-control peer connection could not be set up or kept.
    Remote(String),
    /// The decoder could not open or decode the input.
    Decode(String),
    /// The media could not be *got*: the connection was refused, the server answered 404
    /// or 403, the file is not there.
    ///
    /// Apart from [`Self::Decode`] because it is the difference between "your link is
    /// dead" and "this box cannot play that", and every sender protocol has separate words
    /// for the two.
    Fetch(String),
    /// The scriptlet modules could not be evaluated into resources.
    Scriptlets(String),
    /// Audio decode or output failed.
    Audio(String),
    /// A frame's dimensions or format weren't usable.
    InvalidFrame(&'static str),
    /// A hardware decoder could not be set up, or lost its device mid-session. Always
    /// recoverable: the decode loop answers this by falling back to software.
    HwDecode(String),
    /// A GPU surface could not be imported into the compositor's device.
    GpuImport(String),
    /// The output duplicate could not be produced or described. Never fatal to the panel.
    Stream(String),
    /// An encoder could not be opened, or refused a frame.
    Encode(String),
    /// The content decryption module could not be pointed out to the browser. Never fatal.
    Widevine(String),
}

impl PipelineError {
    /// What each failure is introduced by in a log line.
    pub open spec fn heading(self) -> Seq<char> {
        match self {
            PipelineError::GpuInit(_) => "gpu init failed: "@,
            PipelineError::Surface(_) => "surface error: "@,
            PipelineError::Remote(_) => "remote: "@,
            PipelineError::Decode(_) => "decode error: "@,
            PipelineError::Fetch(_) => "fetch error: "@,
            PipelineError::Scriptlets(_) => "scriptlet conversion failed: "@,
            PipelineError::Audio(_) => "audio: "@,
            PipelineError::InvalidFrame(_) => "invalid frame: "@,
            PipelineError::HwDecode(_) => "hardware decode unavailable: "@,
            PipelineError::GpuImport(_) => "gpu surface import failed: "@,
            PipelineError::Stream(_) => "stream: "@,
            PipelineError::Encode(_) => "encode: "@,
            PipelineError::Widevine(_) => "widevine: "@,
        }
    }

    /// What the failure itself says.
    pub open spec fn detail(self) -> Seq<char> {
        match self {
            PipelineError::GpuInit(text) => text@,
            PipelineError::Surface(text) => text@,
            PipelineError::Remote(text) => text@,
            PipelineError::Decode(text) => text@,
            PipelineError::Fetch(text) => text@,
            PipelineError::Scriptlets(text) => text@,
            PipelineError::Audio(text) => text@,
            PipelineError::InvalidFrame(text) => text@,
            PipelineError::HwDecode(text) => text@,
            PipelineError::GpuImport(text) => text@,
            PipelineError::Stream(text) => text@,
            PipelineError::Encode(text) => text@,
            PipelineError::Widevine(text) => text@,
        }
    }

    /// The failure as a log line carries it.
    pub fn message(&self) -> (line: String)
        ensures
            line@ == self.heading() + self.detail(),
    {
        match self {
            PipelineError::GpuInit(text) => joined("gpu init failed: ", text.as_str()),
            PipelineError::Surface(text) => joined("surface error: ", text.as_str()),
            PipelineError::Remote(text) => joined("remote: ", text.as_str()),
            PipelineError::Decode(text) => joined("decode error: ", text.as_str()),
            PipelineError::Fetch(text) => joined("fetch error: ", text.as_str()),
            PipelineError::Scriptlets(text) => joined(
                "scriptlet conversion failed: ",
                text.as_str(),
            ),
            PipelineError::Audio(text) => joined("audio: ", text.as_str()),
            PipelineError::InvalidFrame(text) => joined("invalid frame: ", text),
            PipelineError::HwDecode(text) => joined(
                "hardware decode unavailable: ",
                text.as_str(),
            ),
            PipelineError::GpuImport(text) => joined("gpu surface import failed: ", text.as_str()),
            PipelineError::Stream(text) => joined("stream: ", text.as_str()),
            PipelineError::Encode(text) => joined("encode: ", text.as_str()),
            PipelineError::Widevine(text) => joined("widevine: ", text.as_str()),
        }
    }
}

} // verus!
