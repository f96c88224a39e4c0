//! The logic of a receiver panel's media pipeline: what to decode and when, how packets
//! become frames, how inputs are mixed, which device path a frame takes, and where a touch
//! goes. Devices, sockets and windows are the caller's; what is decided about them is here.
use vstd::prelude::*;

pub mod buffers;
pub mod electron_fd_plane;
pub mod error;
pub mod ffmpeg_decode;
pub mod filterlists;
pub mod hwaccel;
pub mod ice_ports;
pub mod icon;
pub mod keepawake;
pub mod kiosk;
pub mod ldac_decode;
pub mod media;
pub mod mirror_in;
pub mod mixer;
pub mod motion;
pub mod span;
pub mod text;

verus! {

} // verus!
