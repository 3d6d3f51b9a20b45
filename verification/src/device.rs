//! Stream formats, the driver-facing device description, and the errors the
//! engine reports.
//!
//! The driver that owns the hardware is an outside collaborator: device
//! enumeration, capability queries and the hardware lifecycle are not part of
//! this engine.  `Device` therefore carries the answers of those queries as
//! plain values: what the driver advertises and how it would respond to a
//! stream request.  The engine's decisions over those answers are what is
//! verified here.

use crate::endian::Endian;
use vstd::prelude::*;

verus! {

/// The sample representation of a logical application stream.
#[derive(Clone, Copy, PartialEq, Eq, Structural, Debug)]
pub enum SampleFormat {
    I16,
    U16,
    F32,
}

/// The direction of a stream: capture or playback.
#[derive(Clone, Copy, PartialEq, Eq, Structural, Debug)]
pub enum Direction {
    Input,
    Output,
}

/// The sample representation the hardware uses, with its byte order.
#[derive(Clone, Copy, PartialEq, Eq, Structural, Debug)]
pub enum HardwareEncoding {
    Int16(Endian),
    Int32(Endian),
    Float32(Endian),
    Float64(Endian),
}

/// The format an application requests for a logical stream.
#[derive(Clone, Copy, PartialEq, Eq, Structural, Debug)]
pub struct Format {
    pub channels: u16,
    pub sample_rate: u32,
    pub data_type: SampleFormat,
}

/// Why building a logical stream failed.
#[derive(Clone, Copy, PartialEq, Eq, Structural, Debug)]
pub enum BuildStreamError {
    /// The requested sample rate, channel count or sample format is
    /// incompatible with the device.
    FormatNotSupported,
    /// The driver refused to create the hardware stream.
    DeviceNotAvailable,
}

/// Why playing a logical stream failed.
#[derive(Clone, Copy, PartialEq, Eq, Structural, Debug)]
pub enum PlayStreamError {
    /// The identity addresses a destroyed or never-created stream.
    InvalidStreamId,
}

/// Why pausing a logical stream failed.
#[derive(Clone, Copy, PartialEq, Eq, Structural, Debug)]
pub enum PauseStreamError {
    /// The identity addresses a destroyed or never-created stream.
    InvalidStreamId,
}

/// What the driver reports about a device, as plain values.
#[derive(Clone, Debug)]
pub struct Device {
    /// Channels of the device's default input format, `None` if the device
    /// has no input format.
    pub max_input_channels: Option<u16>,
    /// Channels of the device's default output format, `None` if the device
    /// has no output format.
    pub max_output_channels: Option<u16>,
    /// The driver's current sample rate.
    pub sample_rate: u32,
    /// The rates the driver answers yes for when asked whether it can switch.
    pub supported_sample_rates: Vec<u32>,
    /// The device's native sample encoding.
    pub data_type: HardwareEncoding,
    /// Frames per half-buffer the driver reports when it creates a stream.
    pub buffer_size: usize,
    /// Whether the driver accepts a request to create a hardware stream.
    pub accepts_streams: bool,
}

/// Whether the engine can satisfy `rate`: either it is the driver's current
/// rate, or the driver says it can switch to it.
pub open spec fn rate_supported(device: Device, rate: u32) -> bool {
    rate == device.sample_rate || device.supported_sample_rates@.contains(rate)
}

/// Whether a requested format is refused against a hardware channel maximum:
/// an unsatisfiable sample rate, the unsigned sample format (which the
/// hardware does not support), or more channels than the device advertises.
pub open spec fn format_rejected(device: Device, format: Format, max_channels: u16) -> bool {
    ||| !rate_supported(device, format.sample_rate)
    ||| format.data_type == SampleFormat::U16
    ||| format.channels > max_channels
}

/// Whether the driver can satisfy `rate` for this device.
pub fn rate_is_supported(device: &Device, rate: u32) -> (b: bool)
    ensures
        b == rate_supported(*device, rate),
{
    if rate == device.sample_rate {
        return true;
    }
    let n = device.supported_sample_rates.len();
    for k in 0..n
        invariant
            n == device.supported_sample_rates@.len(),
            forall|j: int| 0 <= j < k ==> device.supported_sample_rates@[j] != rate,
    {
        if device.supported_sample_rates[k] == rate {
            return true;
        }
    }
    proof {
        assert(!device.supported_sample_rates@.contains(rate));
    }
    false
}

} // verus!
