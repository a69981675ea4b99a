//! The declarative description of one recording session.

use vstd::prelude::*;

verus! {

/// What the session captures: the desktop, a camera, or the desktop with the
/// camera composited into a corner.
#[derive(Clone, Copy, Debug, PartialEq, Eq, Structural)]
pub enum RecordingMode {
    Screen,
    Camera,
    PiP,
}

/// Everything the controller needs to know to launch one recording.
///
/// A config is fully resolved before it reaches the command builder: the
/// capture rectangle, the device identifiers and the output path are plain
/// values, validated (or not) by whoever assembled them. The controller does
/// not check that devices exist; a bad identifier surfaces when the encoder
/// process is spawned.
#[derive(Clone, Debug)]
pub struct RecordingConfig {
    /// Filesystem destination of the finished media file.
    pub output_path: String,
    /// Width of the capture rectangle, in pixels.
    pub width: u32,
    /// Height of the capture rectangle, in pixels.
    pub height: u32,
    /// Horizontal origin of the capture rectangle in the virtual display space.
    pub x: i32,
    /// Vertical origin of the capture rectangle in the virtual display space.
    pub y: i32,
    /// What is captured.
    pub mode: RecordingMode,
    /// Backend identifier of the camera; empty when `mode` is `Screen`.
    pub camera_device: String,
    /// Whether an audio input is recorded at all.
    pub audio_enabled: bool,
    /// Backend identifier of the audio input; `"default"` selects the
    /// platform default.
    pub audio_device: String,
    /// Container format: `"webm"` selects the throughput-oriented codec,
    /// anything else is treated as the `"mp4"` default.
    pub container_format: String,
    /// Path to, or bare name of, the external encoder executable, resolved by
    /// the caller once before the session starts.
    pub encoder_path: String,
}

} // verus!
