//! Receiving a mirrored screen over WebRTC: a sender offers its screen, the panel answers.
//!
//! Host candidates only, and no second message for the answer: it either carries every
//! candidate or the session never connects. [`assemble`] turns packets into frames;
//! the session's own decisions are beside it.
pub mod assemble;
pub mod depacketize;
pub mod service;

pub use assemble::{MirrorCodec, TrackAssembler};
pub use service::MirrorReceiver;
