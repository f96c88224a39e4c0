# castaway pipeline

The media pipeline of a cast receiver: what is decided about decoding, hardware surfaces,
mirroring, mixing, input and pacing, as a library whose every function is verified with
[Verus](https://github.com/verus-lang/verus) against its contract.

- `src/` is the library. It holds no device, socket, thread or clock. Where the pipeline has
  to wait for one, the library is a state machine: it is handed what happened and says what
  is to be done next. The calls into other crates that its logic needs stand behind a few
  small functions whose contracts say what is taken on trust.
- `tests/` runs the library, with the real crates behind it.
- `app/` is what surrounds the library: the windows, sockets, threads, files and the
  floating-point arithmetic of sound and motion. The bindings to libav are in
  `app/ffmpeg.rs`, which is compiled where the `ffmpeg` configuration flag is set.

Modules of the library:

| Module | What it decides |
|---|---|
| `ffmpeg_decode` | decode sessions, their pacing, seeking and fallback |
| `hwaccel` | hardware decode policy, surface layouts and their import |
| `mirror_in` | answering a mirroring offer and turning packets into frames |
| `mixer` | what every source owes the one audio device |
| `kiosk` | where a contact goes, and when the panel draws |
| `motion` | which spring a surface moves by, and what it is doing |
| `filterlists` | which lists and scriptlets are used, fetched and cached |
| `electron_fd_plane` | pairing paints with the descriptors that follow them |
| `ldac_decode` | walking an LDAC payload frame by frame |
| `ice_ports`, `keepawake`, `icon` | ports, guards and the window icon |
