[package]
name = "castaway_pipeline"
version = "0.1.0"
edition = "2021"
publish = false

[dependencies]
adblock = { version = "=0.13.5", default-features = false }
ash = "=0.38.0"
async-trait = "=0.1.92"
bytes = "=1.12.1"
d3d12 = "22"
libc = "=0.2.191"
resvg = { version = "=0.49.0", default-features = false }
rtc = "=0.21.1"
serde_json = "=1.0.154"
thiserror = "=2.0.21"
tokio = { version = "=1.54.1", features = ["rt", "sync", "time", "macros"] }
tracing = "=0.1.44"
ureq = "=2.12.1"
webrtc = "=0.21.1"
wgpu = { version = "=22.1.0", default-features = false, features = ["dx12"] }
winapi = { version = "=0.3.9", features = ["d3d11", "d3d12", "dxgi", "dxgi1_2", "dxgiformat", "dxgitype", "handleapi", "processthreadsapi", "unknwnbase", "winbase", "winerror", "winnt"] }
winit = { version = "0.30", default-features = false, features = ["rwh_06", "x11"] }

[lints.rust]
unexpected_cfgs = { level = "warn", check-cfg = ["cfg(ffmpeg)"] }
