//! Real-time audio stream multiplexing engine.
//!
//! The crate bridges a single hardware-driven, double-buffered audio stream to
//! any number of logical application streams.  It converts samples between the
//! hardware encoding and the logical encoding, normalizes byte order,
//! interleaves and deinterleaves channel data, and multiplexes several logical
//! streams onto the one shared hardware stream, mixing output streams
//! additively into the hardware buffer.

pub mod channel;
pub mod device;
pub mod engine;
pub mod endian;
pub mod sample;

pub use device::{BuildStreamError, Device, Direction, Format, PauseStreamError, PlayStreamError, SampleFormat};
pub use device::HardwareEncoding;
pub use endian::Endian;
pub use engine::{EventLoop, StreamId};
