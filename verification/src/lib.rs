//! Asset compilation and runtime control for a small monochrome
//! animated status display in keyboard firmware.
//!
//! The build-time half turns a layered vector illustration into
//! 1-bit-per-pixel packed bitmaps, one per animation pose, with exact
//! control over layer visibility, luminance thresholding and bit
//! packing. The runtime half consumes telemetry events, keeps a
//! snapshot of device state, throttles redraws and alternates between
//! two poses in step with typing activity.

pub mod assets;
pub mod canvas;
pub mod controller;
pub mod info;
pub mod nice_view;
pub mod packer;
pub mod pose;
pub mod style;
