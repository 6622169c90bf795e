//! A minimal runtime for frame-driven applications on a small handheld:
//! a fixed-order scheduler that polls digital input, invokes an
//! application's per-frame operations, and drives a pixel surface and an
//! optional file store through narrow capability interfaces.

pub mod apps;
pub mod buttons;
pub mod caps;
pub mod compose;
pub mod errors;

pub mod input;
pub mod overlay;
pub mod runtime;
pub mod storage;
