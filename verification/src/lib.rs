//! Waveform looper core: fixed-point waveform downsampling and the
//! loop-region controller that turns pixel-space geometry into ramped
//! playback commands.
//!
//! All scalar quantities are carried as `i64` fixed-point values with a
//! resolution of one millionth of the nominal unit (`utils::UNIT`):
//! micro-pixels for geometry, micro-seconds for time, and micro-units for
//! sample amplitudes and pitch factors.

pub mod controller;
pub mod decoder;
pub mod svg_map;
pub mod ui;
pub mod utils;
