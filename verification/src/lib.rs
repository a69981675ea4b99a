//! A screen-recording session controller.
//!
//! The library owns the parts of a recorder that can be stated and proved:
//! the session state machine (idle / recording / paused) with its clock
//! bookkeeping, the construction of the encoder's argument list from a
//! declarative configuration, the decisions of the graceful-stop protocol,
//! and the parsing of device and monitor listings. Spawning the encoder
//! process, signalling it and reading the platform's clocks are left to the
//! caller, which hands their outcomes in as plain values.

pub mod command;
pub mod config;
pub mod device_list;
pub mod monitors;
pub mod recorder;
pub mod scan;
pub mod shutdown;
pub mod text;

pub use command::build_recording_command;
pub use command::Platform;
pub use config::RecordingConfig;
pub use config::RecordingMode;
pub use device_list::Device;
pub use monitors::DisplayBounds;
pub use monitors::MonitorInfo;
pub use recorder::Recorder;
pub use recorder::RecorderError;
