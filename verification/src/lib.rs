//! Verified core of a camera frame viewer and DAQ control panels: pixel
//! decoding, histograms and contrast tables, trigger settings, the sidecar
//! circuit breaker, the calibration-profile cache and streaming state machines.

pub mod pixels;
pub mod histogram;
pub mod rgba;
pub mod colormap;
pub mod trigger;
pub mod text;
pub mod sidecar;
pub mod profile_cache;
pub mod streaming;
pub mod viewer_state;
pub mod peaks;
