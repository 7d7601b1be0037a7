# daq_viewer

Verified core of a camera-frame viewer and DAQ control panels, written in
Verus. The functions of `src/` are proved against their contracts, except
the small trusted wrappers marked `#[verifier::external_body]`, which make
single calls into `std` or `serde_json` and whose contracts are assumed.

- `src/pixels.rs` – pixel decoding of 8, 12 and 16-bit frames.
- `src/histogram.rs` – scaled and exact histograms, equalization and
  contrast-limited equalization tables, order statistics, sample summaries.
- `src/rgba.rs` – frame size limits and the RGBA display buffer.
- `src/peaks.rs` – cross-dispersion profiles and trace-seed peak selection.
- `src/colormap.rs`, `src/trigger.rs` – display and trigger option enums.
- `src/sidecar.rs` – retry schedule, circuit breaker and response parsing
  of the echelle sidecar.
- `src/profile_cache.rs` – calibration-profile cache with hot reload.
- `src/streaming.rs` – analog-input streaming lifecycle and de-interleaving.
- `src/viewer_state.rs`, `src/text.rs` – connection/recording state,
  frame-rate window, recent paths and other viewer bookkeeping.

`app/` is ordinary Rust around the library: floating-point colour and
statistics math, process and file I/O, serde copies of the trigger enums,
and the clock reads that feed the reconnection and frame-rate decisions.
The egui panels themselves (image viewer, analog input, trigger settings)
and their gRPC client are not part of this crate; the state machines of
`src/` (`CameraSession`, `StreamLifecycle`, `RecentProfilePaths`,
`RemoteProfileLoadState`) are the decisions such panels drive.
