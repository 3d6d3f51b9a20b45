//! The event loop: the logical stream registry, the shared hardware stream
//! manager, and the per-half-buffer callback dispatcher.
//!
//! One engine multiplexes any number of logical streams onto at most one
//! hardware input stream and one hardware output stream.  Logical streams are
//! created paused, play and pause independently, and are destroyed without
//! renumbering the others.  The hardware stream of a direction is created
//! lazily by the first build request of that direction and reused by later
//! ones; both hardware streams are torn down together when the last logical
//! stream is destroyed.
//!
//! The dispatcher methods are the real-time path.  The user callback itself
//! is owned and invoked by the host: for an input turn the host asks the
//! engine for the converted interleaved buffer and hands it to the callback;
//! for an output turn the host asks whether the stream is ready, lets the
//! callback fill a buffer of the announced length, and commits it.  A turn
//! whose stream is paused, destroyed, unready or unsupported is a silent
//! no-op: the real-time path never reports an error.

use crate::channel::{interleave, views_of};
use crate::device::{
    format_rejected, BuildStreamError, Device, Direction, Format, HardwareEncoding,
    PauseStreamError, PlayStreamError, SampleFormat,
};
use crate::endian::{
    convert_endian_from, convert_endian_to, from_endian_spec, to_endian_spec, Endian,
};
use crate::sample::{
    convert_i16_to_i32, convert_i32_to_i16, mix_i16, mix_i32, scale_16_to_32, scale_32_to_16,
    wrap16, wrap32,
};
use vstd::prelude::*;

verus! {

/// Identity of a logical stream.  Identities are assigned from one upward in
/// order of creation and are never reused.
#[derive(Debug, Clone, PartialEq, Eq, Hash, Structural)]
pub struct StreamId(pub usize);

/// One logical application stream multiplexed onto a hardware stream.
#[derive(Clone, Copy, PartialEq, Eq, Structural, Debug)]
pub struct LogicalStream {
    /// Whether the stream is playing; a new stream starts paused.
    pub playing: bool,
    /// Capture or playback.
    pub direction: Direction,
    /// Channels of the logical buffer.
    pub channels: u16,
    /// The logical sample representation.
    pub sample_format: SampleFormat,
    /// Frames per half-buffer, fixed when the stream was built.
    pub buffer_size: usize,
}

/// The double-buffered sample memory of a hardware stream: one buffer per
/// channel for each of the two halves.  Float encodings are not modeled
/// sample by sample.
pub enum HardwareBuffers {
    Int16 { first: Vec<Vec<i16>>, second: Vec<Vec<i16>> },
    Int32 { first: Vec<Vec<i32>>, second: Vec<Vec<i32>> },
    Unmodeled,
}

/// The single hardware stream of one direction.
pub struct HardwareStream {
    /// Frames per half-buffer, fixed for the stream's lifetime.
    pub buffer_size: usize,
    /// Channels negotiated when the stream was created.
    pub channels: u16,
    /// The hardware-native sample encoding.
    pub encoding: HardwareEncoding,
    /// The double-buffered sample memory.
    pub buffers: HardwareBuffers,
}

/// One buffer per channel, one sample per frame.
pub open spec fn matrix_wf<T>(m: Seq<Vec<T>>, channels: int, frames: int) -> bool {
    &&& m.len() == channels
    &&& forall|c: int| 0 <= c < channels ==> (#[trigger] m[c])@.len() == frames
}

/// Whether samples of this encoding are modeled as integers.
pub open spec fn integer_encoding(e: HardwareEncoding) -> bool {
    e matches HardwareEncoding::Int16(_) || e matches HardwareEncoding::Int32(_)
}

/// The byte order of an encoding.
pub open spec fn encoding_endian(e: HardwareEncoding) -> Endian {
    match e {
        HardwareEncoding::Int16(en) => en,
        HardwareEncoding::Int32(en) => en,
        HardwareEncoding::Float32(en) => en,
        HardwareEncoding::Float64(en) => en,
    }
}

/// Well-formedness of a hardware stream: the buffer variant matches the
/// encoding and each half holds `channels` buffers of `buffer_size` samples.
pub open spec fn hw_wf(hw: HardwareStream) -> bool {
    match hw.buffers {
        HardwareBuffers::Int16 { first, second } => {
            &&& hw.encoding matches HardwareEncoding::Int16(_)
            &&& matrix_wf(first@, hw.channels as int, hw.buffer_size as int)
            &&& matrix_wf(second@, hw.channels as int, hw.buffer_size as int)
        },
        HardwareBuffers::Int32 { first, second } => {
            &&& hw.encoding matches HardwareEncoding::Int32(_)
            &&& matrix_wf(first@, hw.channels as int, hw.buffer_size as int)
            &&& matrix_wf(second@, hw.channels as int, hw.buffer_size as int)
        },
        HardwareBuffers::Unmodeled => !integer_encoding(hw.encoding),
    }
}

/// The sample the hardware holds at half `index`, channel `c`, frame `i`,
/// as an integer.
pub open spec fn hw_sample(hw: HardwareStream, index: int, c: int, i: int) -> int {
    match hw.buffers {
        HardwareBuffers::Int16 { first, second } => (if index == 0 {
            first
        } else {
            second
        })@[c]@[i] as int,
        HardwareBuffers::Int32 { first, second } => (if index == 0 {
            first
        } else {
            second
        })@[c]@[i] as int,
        HardwareBuffers::Unmodeled => 0,
    }
}

/// The other direction.
pub open spec fn opposite(direction: Direction) -> Direction {
    match direction {
        Direction::Input => Direction::Output,
        Direction::Output => Direction::Input,
    }
}

/// The logical stream a successful build request appends: paused, with the
/// requested format, tied to the hardware buffer size fixed at build time.
pub open spec fn new_stream_spec(format: Format, direction: Direction, buffer_size: usize)
    -> LogicalStream {
    LogicalStream {
        playing: false,
        direction,
        channels: format.channels,
        sample_format: format.data_type,
        buffer_size,
    }
}

/// Whether every registry slot is empty.
pub open spec fn all_empty(slots: Seq<Option<LogicalStream>>) -> bool {
    forall|i: int| 0 <= i < slots.len() ==> slots[i] is None
}

/// The engine: the registry of logical streams, at most one hardware stream
/// per direction, the silence handshake of the two half-buffers, and the
/// marker of the process-wide callback slot.
pub struct EventLoop {
    streams: Vec<Option<LogicalStream>>,
    input: Option<HardwareStream>,
    output: Option<HardwareStream>,
    callback_registered: bool,
    silence_first: bool,
    silence_second: bool,
    hardware_running: bool,
}

impl EventLoop {
    /// The registry: one slot per identity ever assigned, `None` once the
    /// stream is destroyed.  Identity `n` lives in slot `n - 1`.
    pub closed spec fn spec_slots(self) -> Seq<Option<LogicalStream>> {
        self.streams@
    }

    /// How many identities have ever been assigned.
    pub open spec fn spec_stream_count(self) -> nat {
        self.spec_slots().len()
    }

    /// The slot a stream identity addresses, if it was ever assigned.
    pub open spec fn spec_slot(self, id: StreamId) -> Option<LogicalStream> {
        if 1 <= id.0 && id.0 <= self.spec_slots().len() {
            self.spec_slots()[id.0 - 1]
        } else {
            None
        }
    }

    /// Whether the identity addresses a live (not destroyed) stream.
    pub open spec fn spec_valid_id(self, id: StreamId) -> bool {
        self.spec_slot(id) is Some
    }

    /// Whether the identity addresses a live stream that is playing.
    pub open spec fn spec_playing(self, id: StreamId) -> bool {
        self.spec_slot(id) matches Some(s) && s.playing
    }

    /// The hardware stream of a direction, if one exists.
    pub closed spec fn spec_hardware(self, direction: Direction) -> Option<HardwareStream> {
        match direction {
            Direction::Input => self.input,
            Direction::Output => self.output,
        }
    }

    /// Whether the process-wide user callback has been registered.
    pub closed spec fn spec_callback_registered(self) -> bool {
        self.callback_registered
    }

    /// Whether the driver has been started and not stopped since.
    pub closed spec fn spec_hardware_running(self) -> bool {
        self.hardware_running
    }

    /// The silence flag of half-buffer `index`: whether that half has
    /// already been silenced in the current fill cycle.
    pub closed spec fn spec_silence(self, index: int) -> bool {
        if index == 0 {
            self.silence_first
        } else {
            self.silence_second
        }
    }

    /// Whether any live stream of `direction` is playing.
    pub open spec fn spec_any_playing(self, direction: Direction) -> bool {
        exists|i: int|
            0 <= i < self.spec_slots().len() && match #[trigger] self.spec_slots()[i] {
                Some(s) => s.playing && s.direction == direction,
                None => false,
            }
    }

    /// The engine invariant: hardware streams are well-formed, and every
    /// live logical stream has a hardware stream of its direction whose
    /// half-buffer size it recorded at build time.
    pub open spec fn wf(self) -> bool {
        &&& (self.spec_hardware(Direction::Input) matches Some(hw) ==> hw_wf(hw))
        &&& (self.spec_hardware(Direction::Output) matches Some(hw) ==> hw_wf(hw))
        &&& forall|i: int|
            0 <= i < self.spec_slots().len() ==> match #[trigger] self.spec_slots()[i] {
                Some(s) => self.spec_hardware(s.direction) matches Some(hw) && hw.buffer_size
                    == s.buffer_size,
                None => true,
            }
    }

    /// A fresh engine: no streams, no hardware, no callback, both halves
    /// unsilenced, driver stopped.
    pub fn new() -> (el: EventLoop)
        ensures
            el.wf(),
            el.spec_stream_count() == 0,
            el.spec_hardware(Direction::Input) is None,
            el.spec_hardware(Direction::Output) is None,
            !el.spec_callback_registered(),
            !el.spec_silence(0),
            !el.spec_silence(1),
            !el.spec_hardware_running(),
    {
        EventLoop {
            streams: Vec::new(),
            input: None,
            output: None,
            callback_registered: false,
            silence_first: false,
            silence_second: false,
            hardware_running: false,
        }
    }

    /// Validate a requested format against the driver's answers and a
    /// hardware channel maximum.  Exactly the unsatisfiable formats are
    /// refused: a sample rate the driver can neither keep nor switch to, the
    /// unsigned sample format, or more channels than the hardware has.
    pub fn check_format(&self, device: &Device, format: &Format, num_hardware_channels: u16)
        -> (r: Result<(), BuildStreamError>)
        ensures
            r == (if format_rejected(*device, *format, num_hardware_channels) {
                Result::<(), BuildStreamError>::Err(BuildStreamError::FormatNotSupported)
            } else {
                Result::<(), BuildStreamError>::Ok(())
            }),
    {
        if !crate::device::rate_is_supported(device, format.sample_rate) {
            return Err(BuildStreamError::FormatNotSupported);
        }
        match format.data_type {
            SampleFormat::U16 => {
                return Err(BuildStreamError::FormatNotSupported);
            },
            _ => {
            },
        }
        if format.channels > num_hardware_channels {
            return Err(BuildStreamError::FormatNotSupported);
        }
        Ok(())
    }
}

/// Whether a build request of `direction` is refused as unsupported: the
/// device has no format of that direction, or the requested format fails
/// against its channel maximum.
pub open spec fn build_rejected(device: Device, format: Format, direction: Direction) -> bool {
    match (if direction == Direction::Input {
        device.max_input_channels
    } else {
        device.max_output_channels
    }) {
        Some(max) => format_rejected(device, format, max),
        None => true,
    }
}

/// Whether a build request of `direction` must ask the driver for a new
/// hardware stream and the driver refuses.
pub open spec fn build_unavailable(pre: EventLoop, device: Device, direction: Direction) -> bool {
    pre.spec_hardware(direction) is None && !device.accepts_streams
}

/// A hardware stream freshly created for `device`: well-formed, zeroed,
/// with the device's reported buffer size and native encoding.
pub open spec fn fresh_hw(hw_opt: Option<HardwareStream>, device: Device, channels: u16) -> bool {
    match hw_opt {
        Some(hw) => {
            &&& hw_wf(hw)
            &&& hw.buffer_size == device.buffer_size
            &&& hw.channels == channels
            &&& hw.encoding == device.data_type
            &&& forall|index: int, c: int, i: int|
                0 <= index < 2 && 0 <= c < hw.channels && 0 <= i < hw.buffer_size ==> hw_sample(
                    hw,
                    index,
                    c,
                    i,
                ) == 0
        },
        None => false,
    }
}

/// How a successful build changes the engine: the registry grows by one
/// paused stream whose identity is one past every identity assigned before;
/// the hardware stream of the direction is created (zeroed, with the
/// device's reported buffer size and native encoding) on first use and
/// reused unchanged otherwise; the opposite direction's hardware stream and
/// everything else are untouched.
pub open spec fn spec_build_ok_rel(
    pre: EventLoop,
    post: EventLoop,
    device: Device,
    format: Format,
    direction: Direction,
    id: StreamId,
) -> bool {
    let hw_post = post.spec_hardware(direction);
    &&& id.0 == pre.spec_stream_count() + 1
    &&& hw_post is Some
    &&& (pre.spec_hardware(direction) is Some ==> hw_post == pre.spec_hardware(direction))
    &&& (pre.spec_hardware(direction) is None ==> fresh_hw(hw_post, device, format.channels))
    &&& (hw_post matches Some(hw) && post.spec_slots() == pre.spec_slots().push(
        Some(new_stream_spec(format, direction, hw.buffer_size)),
    ))
    &&& post.spec_hardware(opposite(direction)) == pre.spec_hardware(opposite(direction))
    &&& post.spec_callback_registered() == pre.spec_callback_registered()
    &&& post.spec_silence(0) == pre.spec_silence(0)
    &&& post.spec_silence(1) == pre.spec_silence(1)
    &&& post.spec_hardware_running() == pre.spec_hardware_running()
}

/// A zeroed channel matrix: `channels` buffers of `frames` copies of `zero`.
fn zero_matrix<T: Copy>(zero: T, channels: u16, frames: usize) -> (m: Vec<Vec<T>>)
    ensures
        matrix_wf(m@, channels as int, frames as int),
        forall|c: int, i: int| 0 <= c < channels && 0 <= i < frames ==> m@[c]@[i] == zero,
{
    let mut m: Vec<Vec<T>> = Vec::new();
    for c in 0..channels
        invariant
            m@.len() == c,
            forall|cc: int| 0 <= cc < c ==> (#[trigger] m@[cc])@.len() == frames,
            forall|cc: int, i: int| 0 <= cc < c && 0 <= i < frames ==> m@[cc]@[i] == zero,
    {
        let mut row: Vec<T> = Vec::new();
        for i in 0..frames
            invariant
                row@.len() == i,
                forall|ii: int| 0 <= ii < i ==> row@[ii] == zero,
        {
            row.push(zero);
        }
        m.push(row);
    }
    m
}

/// The driver's answer to a stream creation request, modeled: a stream with
/// the device's reported buffer size and native encoding, its sample memory
/// zeroed.
fn prepare_hardware_stream(device: &Device, channels: u16) -> (hw: HardwareStream)
    ensures
        hw_wf(hw),
        hw.buffer_size == device.buffer_size,
        hw.channels == channels,
        hw.encoding == device.data_type,
        forall|index: int, c: int, i: int|
            0 <= index < 2 && 0 <= c < channels && 0 <= i < device.buffer_size ==> hw_sample(
                hw,
                index,
                c,
                i,
            ) == 0,
{
    let buffers = match device.data_type {
        HardwareEncoding::Int16(_) => HardwareBuffers::Int16 {
            first: zero_matrix(0i16, channels, device.buffer_size),
            second: zero_matrix(0i16, channels, device.buffer_size),
        },
        HardwareEncoding::Int32(_) => HardwareBuffers::Int32 {
            first: zero_matrix(0i32, channels, device.buffer_size),
            second: zero_matrix(0i32, channels, device.buffer_size),
        },
        HardwareEncoding::Float32(_) => HardwareBuffers::Unmodeled,
        HardwareEncoding::Float64(_) => HardwareBuffers::Unmodeled,
    };
    HardwareStream { buffer_size: device.buffer_size, channels, encoding: device.data_type, buffers }
}

impl EventLoop {
    /// Build a logical input stream.  The shared hardware input stream is
    /// created on the first input request and reused afterwards (its shape is
    /// not re-validated: the first request wins).  On failure the engine is
    /// left exactly as it was.
    pub fn build_input_stream(&mut self, device: &Device, format: &Format) -> (r: Result<
        StreamId,
        BuildStreamError,
    >)
        requires
            old(self).wf(),
        ensures
            final(self).wf(),
            match r {
                Ok(id) => {
                    &&& !build_rejected(*device, *format, Direction::Input)
                    &&& !build_unavailable(*old(self), *device, Direction::Input)
                    &&& spec_build_ok_rel(
                        *old(self),
                        *final(self),
                        *device,
                        *format,
                        Direction::Input,
                        id,
                    )
                },
                Err(e) => {
                    &&& *final(self) == *old(self)
                    &&& (if build_rejected(*device, *format, Direction::Input) {
                        e == BuildStreamError::FormatNotSupported
                    } else {
                        &&& build_unavailable(*old(self), *device, Direction::Input)
                        &&& e == BuildStreamError::DeviceNotAvailable
                    })
                },
            },
    {
        let max_channels: u16;
        match device.max_input_channels {
            Some(m) => {
                max_channels = m;
            },
            None => {
                return Err(BuildStreamError::FormatNotSupported);
            },
        }
        match self.check_format(device, format, max_channels) {
            Ok(()) => {
            },
            Err(e) => {
                return Err(e);
            },
        }
        let buffer_size: usize;
        if self.input.is_some() {
            buffer_size = match &self.input {
                Some(hw) => hw.buffer_size,
                None => 0,
            };
        } else {
            if !device.accepts_streams {
                return Err(BuildStreamError::DeviceNotAvailable);
            }
            let hw = prepare_hardware_stream(device, format.channels);
            buffer_size = hw.buffer_size;
            self.input = Some(hw);
        }
        let stream = LogicalStream {
            playing: false,
            direction: Direction::Input,
            channels: format.channels,
            sample_format: format.data_type,
            buffer_size,
        };
        self.streams.push(Some(stream));
        Ok(StreamId(self.streams.len()))
    }

    /// Build a logical output stream; the mirror of `build_input_stream`.
    pub fn build_output_stream(&mut self, device: &Device, format: &Format) -> (r: Result<
        StreamId,
        BuildStreamError,
    >)
        requires
            old(self).wf(),
        ensures
            final(self).wf(),
            match r {
                Ok(id) => {
                    &&& !build_rejected(*device, *format, Direction::Output)
                    &&& !build_unavailable(*old(self), *device, Direction::Output)
                    &&& spec_build_ok_rel(
                        *old(self),
                        *final(self),
                        *device,
                        *format,
                        Direction::Output,
                        id,
                    )
                },
                Err(e) => {
                    &&& *final(self) == *old(self)
                    &&& (if build_rejected(*device, *format, Direction::Output) {
                        e == BuildStreamError::FormatNotSupported
                    } else {
                        &&& build_unavailable(*old(self), *device, Direction::Output)
                        &&& e == BuildStreamError::DeviceNotAvailable
                    })
                },
            },
    {
        let max_channels: u16;
        match device.max_output_channels {
            Some(m) => {
                max_channels = m;
            },
            None => {
                return Err(BuildStreamError::FormatNotSupported);
            },
        }
        match self.check_format(device, format, max_channels) {
            Ok(()) => {
            },
            Err(e) => {
                return Err(e);
            },
        }
        let buffer_size: usize;
        if self.output.is_some() {
            buffer_size = match &self.output {
                Some(hw) => hw.buffer_size,
                None => 0,
            };
        } else {
            if !device.accepts_streams {
                return Err(BuildStreamError::DeviceNotAvailable);
            }
            let hw = prepare_hardware_stream(device, format.channels);
            buffer_size = hw.buffer_size;
            self.output = Some(hw);
        }
        let stream = LogicalStream {
            playing: false,
            direction: Direction::Output,
            channels: format.channels,
            sample_format: format.data_type,
            buffer_size,
        };
        self.streams.push(Some(stream));
        Ok(StreamId(self.streams.len()))
    }
}

/// How playing a stream changes the engine: its flag is set, the driver is
/// started, and nothing else changes.
pub open spec fn spec_play_ok_rel(pre: EventLoop, post: EventLoop, id: StreamId) -> bool {
    &&& pre.spec_valid_id(id)
    &&& (pre.spec_slot(id) matches Some(s) && post.spec_slots() == pre.spec_slots().update(
        id.0 - 1,
        Some(LogicalStream { playing: true, ..s }),
    ))
    &&& post.spec_hardware(Direction::Input) == pre.spec_hardware(Direction::Input)
    &&& post.spec_hardware(Direction::Output) == pre.spec_hardware(Direction::Output)
    &&& post.spec_callback_registered() == pre.spec_callback_registered()
    &&& post.spec_silence(0) == pre.spec_silence(0)
    &&& post.spec_silence(1) == pre.spec_silence(1)
    &&& post.spec_hardware_running()
}

/// How pausing a stream changes the engine: its flag is cleared, and the
/// driver is stopped exactly when no stream of either direction remains
/// playing.
pub open spec fn spec_pause_ok_rel(pre: EventLoop, post: EventLoop, id: StreamId) -> bool {
    &&& pre.spec_valid_id(id)
    &&& (pre.spec_slot(id) matches Some(s) && post.spec_slots() == pre.spec_slots().update(
        id.0 - 1,
        Some(LogicalStream { playing: false, ..s }),
    ))
    &&& post.spec_hardware(Direction::Input) == pre.spec_hardware(Direction::Input)
    &&& post.spec_hardware(Direction::Output) == pre.spec_hardware(Direction::Output)
    &&& post.spec_callback_registered() == pre.spec_callback_registered()
    &&& post.spec_silence(0) == pre.spec_silence(0)
    &&& post.spec_silence(1) == pre.spec_silence(1)
    &&& post.spec_hardware_running() == (pre.spec_hardware_running() && (post.spec_any_playing(
        Direction::Input,
    ) || post.spec_any_playing(Direction::Output)))
}

/// How destroying a stream changes the engine: the slot is emptied but keeps
/// its place, so no identity is renumbered or reused; when the last logical
/// stream is gone, both hardware streams are torn down together and the
/// driver is stopped.  Destroying an invalid identity does nothing.
pub open spec fn spec_destroy_rel(pre: EventLoop, post: EventLoop, id: StreamId) -> bool {
    if pre.spec_valid_id(id) {
        let emptied = pre.spec_slots().update(id.0 - 1, Option::<LogicalStream>::None);
        &&& post.spec_slots() == emptied
        &&& post.spec_callback_registered() == pre.spec_callback_registered()
        &&& post.spec_silence(0) == pre.spec_silence(0)
        &&& post.spec_silence(1) == pre.spec_silence(1)
        &&& (if all_empty(emptied) {
            &&& post.spec_hardware(Direction::Input) is None
            &&& post.spec_hardware(Direction::Output) is None
            &&& !post.spec_hardware_running()
        } else {
            &&& post.spec_hardware(Direction::Input) == pre.spec_hardware(Direction::Input)
            &&& post.spec_hardware(Direction::Output) == pre.spec_hardware(Direction::Output)
            &&& post.spec_hardware_running() == pre.spec_hardware_running()
        })
    } else {
        post == pre
    }
}

impl EventLoop {
    /// Whether any live stream of `direction` is playing; used to decide
    /// whether the shared hardware may be stopped.
    pub fn is_any_playing(&self, direction: Direction) -> (b: bool)
        ensures
            b == self.spec_any_playing(direction),
    {
        let n = self.streams.len();
        for k in 0..n
            invariant
                n == self.streams@.len(),
                forall|j: int|
                    0 <= j < k ==> match #[trigger] self.streams@[j] {
                        Some(s) => !(s.playing && s.direction == direction),
                        None => true,
                    },
        {
            match &self.streams[k] {
                Some(s) => {
                    if s.playing && s.direction == direction {
                        return true;
                    }
                },
                None => {
                },
            }
        }
        false
    }

    /// Whether any live stream remains in the registry.
    fn has_any_stream(&self) -> (b: bool)
        ensures
            b == !all_empty(self.spec_slots()),
    {
        let n = self.streams.len();
        for k in 0..n
            invariant
                n == self.streams@.len(),
                forall|j: int| 0 <= j < k ==> self.streams@[j] is None,
        {
            if self.streams[k].is_some() {
                return true;
            }
        }
        false
    }

    /// Mark a logical stream playing and start the driver.  Fails exactly on
    /// an identity that was destroyed or never assigned.
    pub fn play_stream(&mut self, stream_id: StreamId) -> (r: Result<(), PlayStreamError>)
        requires
            old(self).wf(),
        ensures
            final(self).wf(),
            match r {
                Ok(()) => spec_play_ok_rel(*old(self), *final(self), stream_id),
                Err(e) => {
                    &&& !old(self).spec_valid_id(stream_id)
                    &&& e == PlayStreamError::InvalidStreamId
                    &&& *final(self) == *old(self)
                },
            },
    {
        if stream_id.0 < 1 || stream_id.0 > self.streams.len() {
            return Err(PlayStreamError::InvalidStreamId);
        }
        let idx = stream_id.0 - 1;
        match self.streams[idx] {
            None => Err(PlayStreamError::InvalidStreamId),
            Some(s) => {
                self.streams[idx] = Some(
                    LogicalStream {
                        playing: true,
                        direction: s.direction,
                        channels: s.channels,
                        sample_format: s.sample_format,
                        buffer_size: s.buffer_size,
                    },
                );
                self.hardware_running = true;
                Ok(())
            },
        }
    }

    /// Mark a logical stream paused and stop the driver when no stream
    /// remains playing.  Pausing takes effect on the next dispatcher turn.
    /// Fails exactly on an identity that was destroyed or never assigned.
    pub fn pause_stream(&mut self, stream_id: StreamId) -> (r: Result<(), PauseStreamError>)
        requires
            old(self).wf(),
        ensures
            final(self).wf(),
            match r {
                Ok(()) => spec_pause_ok_rel(*old(self), *final(self), stream_id),
                Err(e) => {
                    &&& !old(self).spec_valid_id(stream_id)
                    &&& e == PauseStreamError::InvalidStreamId
                    &&& *final(self) == *old(self)
                },
            },
    {
        if stream_id.0 < 1 || stream_id.0 > self.streams.len() {
            return Err(PauseStreamError::InvalidStreamId);
        }
        let idx = stream_id.0 - 1;
        match self.streams[idx] {
            None => Err(PauseStreamError::InvalidStreamId),
            Some(s) => {
                self.streams[idx] = Some(
                    LogicalStream {
                        playing: false,
                        direction: s.direction,
                        channels: s.channels,
                        sample_format: s.sample_format,
                        buffer_size: s.buffer_size,
                    },
                );
                let still_playing = self.is_any_playing(Direction::Input) || self.is_any_playing(
                    Direction::Output,
                );
                if !still_playing {
                    self.hardware_running = false;
                }
                Ok(())
            },
        }
    }

    /// Empty a logical stream's registry slot without renumbering the
    /// others; tear both hardware streams down together when the last
    /// stream is gone.  An invalid identity is ignored.
    pub fn destroy_stream(&mut self, stream_id: StreamId)
        requires
            old(self).wf(),
        ensures
            final(self).wf(),
            spec_destroy_rel(*old(self), *final(self), stream_id),
    {
        if stream_id.0 < 1 || stream_id.0 > self.streams.len() {
            return ;
        }
        let idx = stream_id.0 - 1;
        match self.streams[idx] {
            None => {
            },
            Some(_) => {
                self.streams[idx] = None;
                if !self.has_any_stream() {
                    self.input = None;
                    self.output = None;
                    self.hardware_running = false;
                }
            },
        }
    }

    /// Claim the process-wide callback slot.  The engine keeps a single
    /// registration for its whole life; registering again replaces the
    /// previous callback.  The callback itself is owned and invoked by the
    /// host, which drives the dispatcher methods.
    pub fn run(&mut self)
        requires
            old(self).wf(),
        ensures
            final(self).wf(),
            final(self).spec_callback_registered(),
            final(self).spec_slots() == old(self).spec_slots(),
            final(self).spec_hardware(Direction::Input) == old(self).spec_hardware(
                Direction::Input,
            ),
            final(self).spec_hardware(Direction::Output) == old(self).spec_hardware(
                Direction::Output,
            ),
            final(self).spec_silence(0) == old(self).spec_silence(0),
            final(self).spec_silence(1) == old(self).spec_silence(1),
            final(self).spec_hardware_running() == old(self).spec_hardware_running(),
    {
        self.callback_registered = true;
    }
}

/// The logical sample read from hardware integer `raw` under `encoding`:
/// the byte order is normalized first, then the value is scaled to the
/// logical 16-bit range.
pub open spec fn input_sample_spec(encoding: HardwareEncoding, raw: int) -> i16 {
    match encoding {
        HardwareEncoding::Int16(e) => from_endian_spec(raw as i16, e),
        HardwareEncoding::Int32(e) => scale_32_to_16(from_endian_spec(raw as i32, e) as int) as i16,
        HardwareEncoding::Float32(_) => 0i16,
        HardwareEncoding::Float64(_) => 0i16,
    }
}

/// The hardware integer written for logical sample `x` under `encoding`:
/// the value is scaled to the hardware width, then put in the hardware byte
/// order.
pub open spec fn output_sample_spec(encoding: HardwareEncoding, x: i16) -> int {
    match encoding {
        HardwareEncoding::Int16(e) => to_endian_spec(x, e) as int,
        HardwareEncoding::Int32(e) => to_endian_spec(scale_16_to_32(x as int) as i32, e) as int,
        HardwareEncoding::Float32(_) => 0,
        HardwareEncoding::Float64(_) => 0,
    }
}

/// Accumulation at the hardware sample width: the sum wrapped into the
/// hardware sample range.
pub open spec fn hw_wrap(encoding: HardwareEncoding, v: int) -> int {
    match encoding {
        HardwareEncoding::Int16(_) => wrap16(v),
        HardwareEncoding::Int32(_) => wrap32(v),
        HardwareEncoding::Float32(_) => 0,
        HardwareEncoding::Float64(_) => 0,
    }
}

impl EventLoop {
    /// Whether a dispatcher turn for this stream does work: the stream is
    /// live, playing and of the turn's direction, the callback and the
    /// hardware stream of the direction exist, the stream's 16-bit logical
    /// format runs over a modeled integer hardware encoding, its channels
    /// fit the hardware stream, and its logical buffer length fits the
    /// machine.  Anything else is a silent no-op by design.
    pub open spec fn spec_frame_active(self, id: StreamId, direction: Direction) -> bool {
        &&& self.spec_callback_registered()
        &&& (self.spec_slot(id) matches Some(s) && {
            &&& s.playing
            &&& s.direction == direction
            &&& s.sample_format == SampleFormat::I16
            &&& (self.spec_hardware(direction) matches Some(hw) && {
                &&& integer_encoding(hw.encoding)
                &&& s.channels <= hw.channels
                &&& s.buffer_size * s.channels <= usize::MAX
            })
        })
    }
}

/// Bounding a product by division: for positive `ch`,
/// `bs * ch <= max` exactly when `bs <= max / ch`.
proof fn lemma_mul_fits(bs: int, ch: int, max: int)
    requires
        0 <= bs,
        1 <= ch,
        0 <= max,
    ensures
        (bs <= max / ch) <==> (bs * ch <= max),
{
    vstd::arithmetic::div_mod::lemma_fundamental_div_mod(max, ch);
    vstd::arithmetic::div_mod::lemma_mod_bound(max, ch);
    if bs <= max / ch {
        vstd::arithmetic::mul::lemma_mul_inequality(bs, max / ch, ch);
        assert(ch * (max / ch) == (max / ch) * ch) by (nonlinear_arith);
    } else {
        vstd::arithmetic::mul::lemma_mul_inequality(max / ch + 1, bs, ch);
        assert((max / ch + 1) * ch == (max / ch) * ch + ch) by (nonlinear_arith);
        assert(ch * (max / ch) == (max / ch) * ch) by (nonlinear_arith);
    }
}

/// The length of a stream's logical buffer, if it fits the machine:
/// frames per half-buffer times channels.
fn frame_len(buffer_size: usize, channels: u16) -> (r: Option<usize>)
    ensures
        r is Some <==> buffer_size * channels <= usize::MAX,
        (r matches Some(n) ==> n == buffer_size * channels),
{
    if channels == 0 {
        proof {
            assert(buffer_size * 0 == 0) by (nonlinear_arith);
        }
        return Some(0);
    }
    let ch = channels as usize;
    proof {
        lemma_mul_fits(buffer_size as int, ch as int, usize::MAX as int);
    }
    if buffer_size <= usize::MAX / ch {
        Some(buffer_size * ch)
    } else {
        None
    }
}

impl EventLoop {
    /// One input turn of the dispatcher for one logical stream: the
    /// converted, interleaved logical buffer the user callback is to
    /// receive, read from half-buffer `index` of the hardware input stream.
    /// `None` when the turn is inactive (see `spec_frame_active`): skipping
    /// is silent by design, the real-time path never reports an error.
    pub fn input_frame(&self, stream_id: StreamId, index: usize) -> (r: Option<Vec<i16>>)
        requires
            self.wf(),
            index < 2,
        ensures
            r is Some <==> self.spec_frame_active(stream_id, Direction::Input),
            (r matches Some(buf) ==> (self.spec_slot(stream_id) matches Some(s)
                && self.spec_hardware(Direction::Input) matches Some(hw) && {
                &&& buf@.len() == s.buffer_size * s.channels
                &&& forall|k: int|
                    0 <= k < buf@.len() ==> buf@[k] == input_sample_spec(
                        hw.encoding,
                        hw_sample(hw, index as int, k % (s.channels as int), k / (
                        s.channels as int)),
                    )
            })),
    {
        if !self.callback_registered {
            return None;
        }
        if stream_id.0 < 1 || stream_id.0 > self.streams.len() {
            return None;
        }
        let s = match self.streams[stream_id.0 - 1] {
            Some(s) => s,
            None => {
                return None;
            },
        };
        if !s.playing {
            return None;
        }
        if s.direction != Direction::Input {
            return None;
        }
        if s.sample_format != SampleFormat::I16 {
            return None;
        }
        let hw = match &self.input {
            Some(hw) => hw,
            None => {
                return None;
            },
        };
        let endian: Endian;
        match hw.encoding {
            HardwareEncoding::Int16(e) => {
                endian = e;
            },
            HardwareEncoding::Int32(e) => {
                endian = e;
            },
            HardwareEncoding::Float32(_) => {
                return None;
            },
            HardwareEncoding::Float64(_) => {
                return None;
            },
        }
        if s.channels > hw.channels {
            return None;
        }
        match frame_len(s.buffer_size, s.channels) {
            Some(_) => {
            },
            None => {
                return None;
            },
        }
        let ch = s.channels as usize;
        let bs = s.buffer_size;
        proof {
            assert(self.spec_slot(stream_id) == Some(s));
            assert(bs == hw.buffer_size);
        }
        let mut chans: Vec<Vec<i16>> = Vec::new();
        match &hw.buffers {
            HardwareBuffers::Int16 { first, second } => {
                let half = if index == 0 {
                    first
                } else {
                    second
                };
                for c in 0..ch
                    invariant
                        ch <= half@.len(),
                        bs == hw.buffer_size,
                        hw_wf(*hw),
                        hw.encoding == HardwareEncoding::Int16(endian),
                        hw.buffers matches HardwareBuffers::Int16 { first: f2, second: s2 }
                            && *half == (if index == 0 { f2 } else { s2 }),
                        index < 2,
                        forall|cc: int| 0 <= cc < half@.len() ==> (#[trigger] half@[cc])@.len()
                            == bs,
                        chans@.len() == c,
                        forall|cc: int| 0 <= cc < c ==> (#[trigger] chans@[cc])@.len() == bs,
                        forall|cc: int, ii: int|
                            0 <= cc < c && 0 <= ii < bs ==> chans@[cc]@[ii] == input_sample_spec(
                                hw.encoding,
                                hw_sample(*hw, index as int, cc, ii),
                            ),
                {
                    let mut row: Vec<i16> = Vec::new();
                    for i in 0..bs
                        invariant
                            c < ch <= half@.len(),
                            half@[c as int]@.len() == bs,
                            hw.encoding == HardwareEncoding::Int16(endian),
                            hw.buffers matches HardwareBuffers::Int16 { first: f2, second: s2 }
                                && *half == (if index == 0 { f2 } else { s2 }),
                            index < 2,
                            row@.len() == i,
                            forall|ii: int|
                                0 <= ii < i ==> row@[ii] == input_sample_spec(
                                    hw.encoding,
                                    hw_sample(*hw, index as int, c as int, ii),
                                ),
                    {
                        let v = convert_endian_from(half[c][i], endian);
                        row.push(v);
                    }
                    chans.push(row);
                }
            },
            HardwareBuffers::Int32 { first, second } => {
                let half = if index == 0 {
                    first
                } else {
                    second
                };
                for c in 0..ch
                    invariant
                        ch <= half@.len(),
                        bs == hw.buffer_size,
                        hw_wf(*hw),
                        hw.encoding == HardwareEncoding::Int32(endian),
                        hw.buffers matches HardwareBuffers::Int32 { first: f2, second: s2 }
                            && *half == (if index == 0 { f2 } else { s2 }),
                        index < 2,
                        forall|cc: int| 0 <= cc < half@.len() ==> (#[trigger] half@[cc])@.len()
                            == bs,
                        chans@.len() == c,
                        forall|cc: int| 0 <= cc < c ==> (#[trigger] chans@[cc])@.len() == bs,
                        forall|cc: int, ii: int|
                            0 <= cc < c && 0 <= ii < bs ==> chans@[cc]@[ii] == input_sample_spec(
                                hw.encoding,
                                hw_sample(*hw, index as int, cc, ii),
                            ),
                {
                    let mut row: Vec<i16> = Vec::new();
                    for i in 0..bs
                        invariant
                            c < ch <= half@.len(),
                            half@[c as int]@.len() == bs,
                            hw.encoding == HardwareEncoding::Int32(endian),
                            hw.buffers matches HardwareBuffers::Int32 { first: f2, second: s2 }
                                && *half == (if index == 0 { f2 } else { s2 }),
                            index < 2,
                            row@.len() == i,
                            forall|ii: int|
                                0 <= ii < i ==> row@[ii] == input_sample_spec(
                                    hw.encoding,
                                    hw_sample(*hw, index as int, c as int, ii),
                                ),
                    {
                        let v = convert_i32_to_i16(convert_endian_from(half[c][i], endian));
                        row.push(v);
                    }
                    chans.push(row);
                }
            },
            HardwareBuffers::Unmodeled => {
                proof {
                    assert(false);
                }
            },
        }
        let mut out: Vec<i16> = Vec::new();
        interleave(&chans, &mut out);
        proof {
            let vs = views_of(chans@);
            if ch == 0 {
                assert(out@.len() == 0);
                assert(bs * (s.channels as int) == 0) by (nonlinear_arith)
                    requires
                        s.channels == 0,
                ;
            } else {
                assert(crate::channel::frames_of(vs) == bs as int);
                assert forall|k: int| 0 <= k < out@.len() implies out@[k] == input_sample_spec(
                    (self.spec_hardware(Direction::Input)->Some_0).encoding,
                    hw_sample(
                        self.spec_hardware(Direction::Input)->Some_0,
                        index as int,
                        k % (s.channels as int),
                        k / (s.channels as int),
                    ),
                ) by {
                    vstd::arithmetic::div_mod::lemma_mod_bound(k, ch as int);
                    vstd::arithmetic::div_mod::lemma_fundamental_div_mod(k, ch as int);
                    assert(k / (ch as int) < bs) by (nonlinear_arith)
                        requires
                            0 <= k < (bs as int) * (ch as int),
                            k == (ch as int) * (k / (ch as int)) + k % (ch as int),
                            0 <= k % (ch as int) < ch,
                            0 <= k / (ch as int),
                    ;
                }
            }
        }
        Some(out)
    }

    /// Whether an output turn for this stream would do work, and if so how
    /// many samples the user callback must provide: frames per half-buffer
    /// times the stream's channel count.
    pub fn output_ready(&self, stream_id: StreamId) -> (r: Option<usize>)
        requires
            self.wf(),
        ensures
            r is Some <==> self.spec_frame_active(stream_id, Direction::Output),
            (r matches Some(n) ==> (self.spec_slot(stream_id) matches Some(s) && n
                == s.buffer_size * s.channels)),
    {
        if !self.callback_registered {
            return None;
        }
        if stream_id.0 < 1 || stream_id.0 > self.streams.len() {
            return None;
        }
        let s = match self.streams[stream_id.0 - 1] {
            Some(s) => s,
            None => {
                return None;
            },
        };
        if !s.playing {
            return None;
        }
        if s.direction != Direction::Output {
            return None;
        }
        if s.sample_format != SampleFormat::I16 {
            return None;
        }
        let hw = match &self.output {
            Some(hw) => hw,
            None => {
                return None;
            },
        };
        match hw.encoding {
            HardwareEncoding::Int16(_) => {
            },
            HardwareEncoding::Int32(_) => {
            },
            HardwareEncoding::Float32(_) => {
                return None;
            },
            HardwareEncoding::Float64(_) => {
                return None;
            },
        }
        if s.channels > hw.channels {
            return None;
        }
        frame_len(s.buffer_size, s.channels)
    }
}

/// How one active output turn changes the engine.  The turn silences the
/// half exactly when no output stream has silenced it in the current fill
/// cycle; a silencing turn overwrites the half with its converted samples
/// and re-arms the opposite half, a later turn of the same cycle accumulates
/// into the half, wrapping at the hardware width, so several output streams
/// mix additively.  Hardware channels beyond the stream's, the other half,
/// the registry and everything else stay as they were.
pub open spec fn spec_output_frame_rel(
    pre: EventLoop,
    post: EventLoop,
    id: StreamId,
    index: int,
    data: Seq<i16>,
) -> bool {
    let silenced = !pre.spec_silence(index);
    &&& post.spec_slots() == pre.spec_slots()
    &&& post.spec_hardware(Direction::Input) == pre.spec_hardware(Direction::Input)
    &&& post.spec_callback_registered() == pre.spec_callback_registered()
    &&& post.spec_hardware_running() == pre.spec_hardware_running()
    &&& post.spec_silence(index)
    &&& post.spec_silence(1 - index) == (if silenced {
        false
    } else {
        pre.spec_silence(1 - index)
    })
    &&& (pre.spec_slot(id) matches Some(s) && pre.spec_hardware(Direction::Output) matches Some(hw)
        && post.spec_hardware(Direction::Output) matches Some(hw2) && {
        &&& hw2.buffer_size == hw.buffer_size
        &&& hw2.channels == hw.channels
        &&& hw2.encoding == hw.encoding
        &&& hw_wf(hw2)
        &&& forall|c: int, i: int|
            0 <= c < s.channels && 0 <= i < hw.buffer_size ==> #[trigger] hw_sample(
                hw2,
                index,
                c,
                i,
            ) == (if silenced {
                output_sample_spec(hw.encoding, data[i * (s.channels as int) + c])
            } else {
                hw_wrap(
                    hw.encoding,
                    hw_sample(hw, index, c, i) + output_sample_spec(
                        hw.encoding,
                        data[i * (s.channels as int) + c],
                    ),
                )
            })
        &&& forall|c: int, i: int|
            s.channels <= c < hw.channels && 0 <= i < hw.buffer_size ==> #[trigger] hw_sample(
                hw2,
                index,
                c,
                i,
            ) == hw_sample(hw, index, c, i)
        &&& forall|c: int, i: int|
            0 <= c < hw.channels && 0 <= i < hw.buffer_size ==> #[trigger] hw_sample(
                hw2,
                1 - index,
                c,
                i,
            ) == hw_sample(hw, 1 - index, c, i)
    })
}

/// Mix one logical buffer into one half of a 16-bit hardware buffer:
/// channel by channel, replacing when the half was just silenced, otherwise
/// accumulating with wraparound; hardware channels beyond the stream's are
/// untouched.
fn mix_half_i16(
    half: &Vec<Vec<i16>>,
    data: &Vec<i16>,
    channels: u16,
    hw_channels: u16,
    frames: usize,
    endian: Endian,
    silenced: bool,
) -> (r: Vec<Vec<i16>>)
    requires
        matrix_wf(half@, hw_channels as int, frames as int),
        channels <= hw_channels,
        data@.len() == frames * channels,
    ensures
        matrix_wf(r@, hw_channels as int, frames as int),
        forall|c: int, i: int|
            0 <= c < channels && 0 <= i < frames ==> (#[trigger] r@[c]@[i]) as int == (if silenced {
                to_endian_spec(data@[i * (channels as int) + c], endian) as int
            } else {
                wrap16(
                    half@[c]@[i] + to_endian_spec(data@[i * (channels as int) + c], endian) as int,
                )
            }),
        forall|c: int| channels <= c < hw_channels ==> (#[trigger] r@[c])@ == half@[c]@,
{
    let ch = channels as usize;
    let hw_ch = hw_channels as usize;
    let data_len = data.len();
    let mut result: Vec<Vec<i16>> = Vec::new();
    for c in 0..hw_ch
        invariant
            ch == channels,
            hw_ch == hw_channels,
            ch <= hw_ch,
            matrix_wf(half@, hw_channels as int, frames as int),
            data@.len() == frames * channels,
            data_len == data@.len(),
            result@.len() == c,
            forall|cc: int| 0 <= cc < c ==> (#[trigger] result@[cc])@.len() == frames,
            forall|cc: int, ii: int|
                0 <= cc < c && cc < ch && 0 <= ii < frames ==> (#[trigger] result@[cc]@[ii]) as int
                    == (if silenced {
                    to_endian_spec(data@[ii * (channels as int) + cc], endian) as int
                } else {
                    wrap16(
                        half@[cc]@[ii] + to_endian_spec(
                            data@[ii * (channels as int) + cc],
                            endian,
                        ) as int,
                    )
                }),
            forall|cc: int| ch <= cc < c ==> (#[trigger] result@[cc])@ == half@[cc]@,
    {
        let mut row: Vec<i16> = Vec::new();
        if c < ch {
            for i in 0..frames
                invariant
                    ch == channels,
                    c < ch <= hw_ch,
                    matrix_wf(half@, hw_channels as int, frames as int),
                    hw_ch == hw_channels,
                    data@.len() == frames * channels,
                    data_len == data@.len(),
                    row@.len() == i,
                    forall|ii: int|
                        0 <= ii < i ==> (#[trigger] row@[ii]) as int == (if silenced {
                            to_endian_spec(data@[ii * (channels as int) + c as int], endian) as int
                        } else {
                            wrap16(
                                half@[c as int]@[ii] + to_endian_spec(
                                    data@[ii * (channels as int) + c as int],
                                    endian,
                                ) as int,
                            )
                        }),
            {
                proof {
                    assert((i as int) * (ch as int) + (c as int) < (frames as int) * (ch as int))
                        by (nonlinear_arith)
                        requires
                            0 <= i < frames,
                            0 <= c < ch,
                    ;
                    assert((frames as int) * (ch as int) == data@.len());
                }
                let x = data[i * ch + c];
                let conv = convert_endian_to(x, endian);
                let cell = if silenced {
                    conv
                } else {
                    mix_i16(half[c][i], conv)
                };
                row.push(cell);
            }
        } else {
            for i in 0..frames
                invariant
                    ch <= c < hw_ch,
                    matrix_wf(half@, hw_channels as int, frames as int),
                    hw_ch == hw_channels,
                    row@.len() == i,
                    forall|ii: int| 0 <= ii < i ==> row@[ii] == half@[c as int]@[ii],
            {
                row.push(half[c][i]);
            }
            proof {
                assert(row@ =~= half@[c as int]@);
            }
        }
        result.push(row);
    }
    result
}

/// Mix one logical buffer into one half of a 32-bit hardware buffer; the
/// 32-bit mirror of `mix_half_i16`, scaling each sample up before the byte
/// order is applied.
fn mix_half_i32(
    half: &Vec<Vec<i32>>,
    data: &Vec<i16>,
    channels: u16,
    hw_channels: u16,
    frames: usize,
    endian: Endian,
    silenced: bool,
) -> (r: Vec<Vec<i32>>)
    requires
        matrix_wf(half@, hw_channels as int, frames as int),
        channels <= hw_channels,
        data@.len() == frames * channels,
    ensures
        matrix_wf(r@, hw_channels as int, frames as int),
        forall|c: int, i: int|
            0 <= c < channels && 0 <= i < frames ==> (#[trigger] r@[c]@[i]) as int == (if silenced {
                to_endian_spec(scale_16_to_32(data@[i * (channels as int) + c] as int) as i32, endian) as int
            } else {
                wrap32(
                    half@[c]@[i] + to_endian_spec(
                        scale_16_to_32(data@[i * (channels as int) + c] as int) as i32,
                        endian,
                    ) as int,
                )
            }),
        forall|c: int| channels <= c < hw_channels ==> (#[trigger] r@[c])@ == half@[c]@,
{
    let ch = channels as usize;
    let hw_ch = hw_channels as usize;
    let data_len = data.len();
    let mut result: Vec<Vec<i32>> = Vec::new();
    for c in 0..hw_ch
        invariant
            ch == channels,
            hw_ch == hw_channels,
            ch <= hw_ch,
            matrix_wf(half@, hw_channels as int, frames as int),
            data@.len() == frames * channels,
            data_len == data@.len(),
            result@.len() == c,
            forall|cc: int| 0 <= cc < c ==> (#[trigger] result@[cc])@.len() == frames,
            forall|cc: int, ii: int|
                0 <= cc < c && cc < ch && 0 <= ii < frames ==> (#[trigger] result@[cc]@[ii]) as int
                    == (if silenced {
                    to_endian_spec(
                        scale_16_to_32(data@[ii * (channels as int) + cc] as int) as i32,
                        endian,
                    ) as int
                } else {
                    wrap32(
                        half@[cc]@[ii] + to_endian_spec(
                            scale_16_to_32(data@[ii * (channels as int) + cc] as int) as i32,
                            endian,
                        ) as int,
                    )
                }),
            forall|cc: int| ch <= cc < c ==> (#[trigger] result@[cc])@ == half@[cc]@,
    {
        let mut row: Vec<i32> = Vec::new();
        if c < ch {
            for i in 0..frames
                invariant
                    ch == channels,
                    c < ch <= hw_ch,
                    matrix_wf(half@, hw_channels as int, frames as int),
                    hw_ch == hw_channels,
                    data@.len() == frames * channels,
                    data_len == data@.len(),
                    row@.len() == i,
                    forall|ii: int|
                        0 <= ii < i ==> (#[trigger] row@[ii]) as int == (if silenced {
                            to_endian_spec(
                                scale_16_to_32(data@[ii * (channels as int) + c as int] as int) as i32,
                                endian,
                            ) as int
                        } else {
                            wrap32(
                                half@[c as int]@[ii] + to_endian_spec(
                                    scale_16_to_32(
                                        data@[ii * (channels as int) + c as int] as int,
                                    ) as i32,
                                    endian,
                                ) as int,
                            )
                        }),
            {
                proof {
                    assert((i as int) * (ch as int) + (c as int) < (frames as int) * (ch as int))
                        by (nonlinear_arith)
                        requires
                            0 <= i < frames,
                            0 <= c < ch,
                    ;
                    assert((frames as int) * (ch as int) == data@.len());
                }
                let x = data[i * ch + c];
                let conv = convert_endian_to(convert_i16_to_i32(x), endian);
                let cell = if silenced {
                    conv
                } else {
                    mix_i32(half[c][i], conv)
                };
                row.push(cell);
            }
        } else {
            for i in 0..frames
                invariant
                    ch <= c < hw_ch,
                    matrix_wf(half@, hw_channels as int, frames as int),
                    hw_ch == hw_channels,
                    row@.len() == i,
                    forall|ii: int| 0 <= ii < i ==> row@[ii] == half@[c as int]@[ii],
            {
                row.push(half[c][i]);
            }
            proof {
                assert(row@ =~= half@[c as int]@);
            }
        }
        result.push(row);
    }
    result
}

impl EventLoop {
    /// One output turn of the dispatcher for one logical stream: commit the
    /// buffer the user callback filled for half-buffer `index`.  When the
    /// turn is active and the buffer has the announced length, the half is
    /// zeroed if no output stream silenced it in this fill cycle, and the
    /// converted samples are then accumulated into the hardware buffer, so
    /// several output streams mix additively; the opposite half's silence
    /// flag is re-armed by the silencing turn.  An inactive turn or a
    /// buffer of the wrong length is a silent no-op: the real-time path
    /// never reports an error.
    pub fn output_frame(&mut self, stream_id: StreamId, index: usize, data: &Vec<i16>) -> (processed:
        bool)
        requires
            old(self).wf(),
            index < 2,
        ensures
            final(self).wf(),
            processed == (old(self).spec_frame_active(stream_id, Direction::Output) && (old(
                self,
            ).spec_slot(stream_id) matches Some(s) && data@.len() == s.buffer_size * s.channels)),
            processed ==> spec_output_frame_rel(
                *old(self),
                *final(self),
                stream_id,
                index as int,
                data@,
            ),
            !processed ==> *final(self) == *old(self),
    {
        if !self.callback_registered {
            return false;
        }
        if stream_id.0 < 1 || stream_id.0 > self.streams.len() {
            return false;
        }
        let s = match self.streams[stream_id.0 - 1] {
            Some(s) => s,
            None => {
                return false;
            },
        };
        if !s.playing {
            return false;
        }
        if s.direction != Direction::Output {
            return false;
        }
        if s.sample_format != SampleFormat::I16 {
            return false;
        }
        let endian: Endian;
        let hw_channels: u16;
        match &self.output {
            Some(hw) => {
                match hw.encoding {
                    HardwareEncoding::Int16(e) => {
                        endian = e;
                    },
                    HardwareEncoding::Int32(e) => {
                        endian = e;
                    },
                    HardwareEncoding::Float32(_) => {
                        return false;
                    },
                    HardwareEncoding::Float64(_) => {
                        return false;
                    },
                }
                hw_channels = hw.channels;
            },
            None => {
                return false;
            },
        }
        if s.channels > hw_channels {
            return false;
        }
        let expected: usize;
        match frame_len(s.buffer_size, s.channels) {
            Some(n) => {
                expected = n;
            },
            None => {
                return false;
            },
        }
        if data.len() != expected {
            return false;
        }
        proof {
            assert(self.spec_slot(stream_id) == Some(s));
        }
        // The silence handshake: the first output turn of a fill cycle for
        // this half silences it and re-arms the opposite half.
        let silenced: bool;
        if index == 0 {
            if !self.silence_first {
                self.silence_first = true;
                self.silence_second = false;
                silenced = true;
            } else {
                silenced = false;
            }
        } else {
            if !self.silence_second {
                self.silence_second = true;
                self.silence_first = false;
                silenced = true;
            } else {
                silenced = false;
            }
        }
        let hw = match self.output.take() {
            Some(hw) => hw,
            None => {
                proof {
                    assert(false);
                }
                return false;
            },
        };
        proof {
            assert(s.buffer_size == hw.buffer_size);
            assert((s.buffer_size as int) * (s.channels as int) == (hw.buffer_size as int) * (
            s.channels as int));
        }
        let new_buffers = match hw.buffers {
            HardwareBuffers::Int16 { first, second } => {
                if index == 0 {
                    let nf = mix_half_i16(
                        &first,
                        data,
                        s.channels,
                        hw.channels,
                        hw.buffer_size,
                        endian,
                        silenced,
                    );
                    HardwareBuffers::Int16 { first: nf, second }
                } else {
                    let ns = mix_half_i16(
                        &second,
                        data,
                        s.channels,
                        hw.channels,
                        hw.buffer_size,
                        endian,
                        silenced,
                    );
                    HardwareBuffers::Int16 { first, second: ns }
                }
            },
            HardwareBuffers::Int32 { first, second } => {
                if index == 0 {
                    let nf = mix_half_i32(
                        &first,
                        data,
                        s.channels,
                        hw.channels,
                        hw.buffer_size,
                        endian,
                        silenced,
                    );
                    HardwareBuffers::Int32 { first: nf, second }
                } else {
                    let ns = mix_half_i32(
                        &second,
                        data,
                        s.channels,
                        hw.channels,
                        hw.buffer_size,
                        endian,
                        silenced,
                    );
                    HardwareBuffers::Int32 { first, second: ns }
                }
            },
            HardwareBuffers::Unmodeled => {
                proof {
                    assert(false);
                }
                HardwareBuffers::Unmodeled
            },
        };
        self.output = Some(
            HardwareStream {
                buffer_size: hw.buffer_size,
                channels: hw.channels,
                encoding: hw.encoding,
                buffers: new_buffers,
            },
        );
        true
    }

    /// The hardware stream of a direction, for inspection.
    pub fn hardware(&self, direction: Direction) -> (r: &Option<HardwareStream>)
        ensures
            *r == self.spec_hardware(direction),
    {
        match direction {
            Direction::Input => &self.input,
            Direction::Output => &self.output,
        }
    }

    /// Whether the identity addresses a live stream and, if so, whether the
    /// stream is playing.
    pub fn stream_state(&self, stream_id: StreamId) -> (r: Option<bool>)
        ensures
            r is Some <==> self.spec_valid_id(stream_id),
            (r matches Some(p) ==> p == self.spec_playing(stream_id)),
    {
        if stream_id.0 < 1 || stream_id.0 > self.streams.len() {
            return None;
        }
        match self.streams[stream_id.0 - 1] {
            Some(s) => Some(s.playing),
            None => None,
        }
    }

    /// Whether the driver has been started and not stopped since.
    pub fn hardware_running(&self) -> (b: bool)
        ensures
            b == self.spec_hardware_running(),
    {
        self.hardware_running
    }

    /// Whether the process-wide user callback has been registered.
    pub fn callback_is_registered(&self) -> (b: bool)
        ensures
            b == self.spec_callback_registered(),
    {
        self.callback_registered
    }

    /// How many identities have ever been assigned.
    pub fn stream_count(&self) -> (n: usize)
        ensures
            n == self.spec_stream_count(),
    {
        self.streams.len()
    }
}

/// Stream identities are assigned strictly increasing: two consecutive
/// successful builds, whatever their directions or formats, return
/// identities one apart.
pub proof fn lemma_identities_strictly_increase(
    s0: EventLoop,
    s1: EventLoop,
    s2: EventLoop,
    d1: Device,
    f1: Format,
    dir1: Direction,
    id1: StreamId,
    d2: Device,
    f2: Format,
    dir2: Direction,
    id2: StreamId,
)
    requires
        spec_build_ok_rel(s0, s1, d1, f1, dir1, id1),
        spec_build_ok_rel(s1, s2, d2, f2, dir2, id2),
    ensures
        id1.0 == s0.spec_stream_count() + 1,
        id2.0 == id1.0 + 1,
{
}

/// Destroying a stream never shrinks the registry and never renumbers a
/// slot, so a build that follows a destroy assigns an identity strictly
/// greater than every identity assigned before: destroyed identities are
/// never reused.
pub proof fn lemma_identities_never_reused(
    s0: EventLoop,
    s1: EventLoop,
    s2: EventLoop,
    destroyed: StreamId,
    device: Device,
    format: Format,
    direction: Direction,
    id: StreamId,
)
    requires
        spec_destroy_rel(s0, s1, destroyed),
        spec_build_ok_rel(s1, s2, device, format, direction, id),
    ensures
        id.0 == s0.spec_stream_count() + 1,
        forall|other: StreamId| s0.spec_valid_id(other) ==> other.0 < id.0,
        s2.spec_slot(destroyed) is None || !s0.spec_valid_id(destroyed),
{
    if s0.spec_valid_id(destroyed) {
        assert(s1.spec_slots().len() == s0.spec_slots().len());
        assert(s2.spec_slot(destroyed) is None);
    }
}

/// A freshly built stream starts paused, and a dispatcher turn for it does
/// no conversion work and hands the user callback nothing until it is
/// played: both directions' turns are inactive.
pub proof fn lemma_new_stream_starts_paused(
    s0: EventLoop,
    s1: EventLoop,
    device: Device,
    format: Format,
    direction: Direction,
    id: StreamId,
)
    requires
        spec_build_ok_rel(s0, s1, device, format, direction, id),
    ensures
        s1.spec_valid_id(id),
        !s1.spec_playing(id),
        !s1.spec_frame_active(id, Direction::Input),
        !s1.spec_frame_active(id, Direction::Output),
{
    assert(s1.spec_slots()[id.0 - 1] == Some(
        new_stream_spec(format, direction, (s1.spec_hardware(direction)->Some_0).buffer_size),
    ));
}

/// Playing a stream makes exactly that stream playing; pausing it afterward
/// returns it to paused, and a paused stream's dispatcher turn is inactive
/// again.
pub proof fn lemma_play_then_pause(s0: EventLoop, s1: EventLoop, s2: EventLoop, id: StreamId)
    requires
        spec_play_ok_rel(s0, s1, id),
        spec_pause_ok_rel(s1, s2, id),
    ensures
        s1.spec_playing(id),
        !s2.spec_playing(id),
        !s2.spec_frame_active(id, Direction::Input),
        !s2.spec_frame_active(id, Direction::Output),
        forall|other: StreamId|
            other.0 != id.0 ==> s2.spec_slot(other) == s0.spec_slot(other),
{
}

/// Output mixing: when two playing output streams commit buffers for the
/// same half in the same fill cycle — the half not yet silenced — the first
/// turn silences the half exactly once and writes its converted samples,
/// the second accumulates, and the hardware buffer then holds the wrapped
/// sum of the two conversions on every channel the two streams share.
pub proof fn lemma_output_mixing(
    s0: EventLoop,
    s1: EventLoop,
    s2: EventLoop,
    id1: StreamId,
    id2: StreamId,
    index: int,
    d1: Seq<i16>,
    d2: Seq<i16>,
)
    requires
        0 <= index < 2,
        !s0.spec_silence(index),
        spec_output_frame_rel(s0, s1, id1, index, d1),
        spec_output_frame_rel(s1, s2, id2, index, d2),
    ensures
        s1.spec_silence(index),
        s2.spec_silence(index),
        (s0.spec_slot(id1) matches Some(st1) && s1.spec_slot(id2) matches Some(st2)
            && s0.spec_hardware(Direction::Output) matches Some(hw)
            && s2.spec_hardware(Direction::Output) matches Some(hw2) ==> forall|c: int, i: int|
            0 <= c < st1.channels && c < st2.channels && 0 <= i < hw.buffer_size
                ==> #[trigger] hw_sample(hw2, index, c, i) == hw_wrap(
                hw.encoding,
                output_sample_spec(hw.encoding, d1[i * (st1.channels as int) + c])
                    + output_sample_spec(hw.encoding, d2[i * (st2.channels as int) + c]),
            )),
{
    let st1 = s0.spec_slot(id1)->Some_0;
    let st2 = s1.spec_slot(id2)->Some_0;
    if s0.spec_slot(id1) is Some && s1.spec_slot(id2) is Some && s0.spec_hardware(
        Direction::Output,
    ) is Some {
        let hw = s0.spec_hardware(Direction::Output)->Some_0;
        let hw1 = s1.spec_hardware(Direction::Output)->Some_0;
        let hw2 = s2.spec_hardware(Direction::Output)->Some_0;
        assert forall|c: int, i: int|
            0 <= c < st1.channels && c < st2.channels && 0 <= i < hw.buffer_size
                implies #[trigger] hw_sample(hw2, index, c, i) == hw_wrap(
            hw.encoding,
            output_sample_spec(hw.encoding, d1[i * (st1.channels as int) + c])
                + output_sample_spec(hw.encoding, d2[i * (st2.channels as int) + c]),
        ) by {
            let w1 = output_sample_spec(hw.encoding, d1[i * (st1.channels as int) + c]);
            let w2 = output_sample_spec(hw.encoding, d2[i * (st2.channels as int) + c]);
            assert(hw_sample(hw1, index, c, i) == w1);
            assert(hw_sample(hw2, index, c, i) == hw_wrap(hw.encoding, w1 + w2));
        }
    }
}

/// A channel matrix with one row replaced.
fn set_row<T: Copy>(half: &Vec<Vec<T>>, channel: usize, samples: &Vec<T>) -> (r: Vec<Vec<T>>)
    requires
        channel < half@.len(),
    ensures
        r@.len() == half@.len(),
        (#[trigger] r@[channel as int])@ == samples@,
        forall|c: int| 0 <= c < half@.len() && c != channel ==> (#[trigger] r@[c])@ == half@[c]@,
{
    let n = half.len();
    let mut result: Vec<Vec<T>> = Vec::new();
    for c in 0..n
        invariant
            n == half@.len(),
            channel < n,
            result@.len() == c,
            forall|cc: int|
                0 <= cc < c && cc != channel ==> (#[trigger] result@[cc])@ == half@[cc]@,
            c > channel ==> result@[channel as int]@ == samples@,
    {
        let mut row: Vec<T> = Vec::new();
        let source: &Vec<T> = if c == channel {
            samples
        } else {
            &half[c]
        };
        let m = source.len();
        for i in 0..m
            invariant
                m == source@.len(),
                row@.len() == i,
                forall|ii: int| 0 <= ii < i ==> row@[ii] == source@[ii],
        {
            row.push(source[i]);
        }
        proof {
            assert(row@ =~= source@);
        }
        result.push(row);
    }
    result
}

impl EventLoop {
    /// The driver's side of the input boundary, modeled: the hardware wrote
    /// one captured channel into one half of the 16-bit input stream.  True
    /// exactly when an input stream exists with a 16-bit integer encoding
    /// and the channel, half index and sample count fit it; nothing changes
    /// otherwise.
    pub fn load_input_16(&mut self, index: usize, channel: usize, samples: &Vec<i16>) -> (loaded:
        bool)
        requires
            old(self).wf(),
            index < 2,
        ensures
            final(self).wf(),
            loaded == (old(self).spec_hardware(Direction::Input) matches Some(hw) && {
                &&& hw.encoding matches HardwareEncoding::Int16(_)
                &&& channel < hw.channels
                &&& samples@.len() == hw.buffer_size
            }),
            !loaded ==> *final(self) == *old(self),
            loaded ==> {
                &&& final(self).spec_slots() == old(self).spec_slots()
                &&& final(self).spec_hardware(Direction::Output) == old(self).spec_hardware(
                    Direction::Output,
                )
                &&& final(self).spec_callback_registered() == old(self).spec_callback_registered()
                &&& final(self).spec_silence(0) == old(self).spec_silence(0)
                &&& final(self).spec_silence(1) == old(self).spec_silence(1)
                &&& final(self).spec_hardware_running() == old(self).spec_hardware_running()
                &&& (old(self).spec_hardware(Direction::Input) matches Some(hw) && final(self).spec_hardware(Direction::Input) matches Some(hw2) && {
                    &&& hw2.buffer_size == hw.buffer_size
                    &&& hw2.channels == hw.channels
                    &&& hw2.encoding == hw.encoding
                    &&& forall|i: int|
                        0 <= i < hw.buffer_size ==> #[trigger] hw_sample(
                            hw2,
                            index as int,
                            channel as int,
                            i,
                        ) == samples@[i]
                    &&& forall|c: int, i: int|
                        0 <= c < hw.channels && c != channel && 0 <= i < hw.buffer_size
                            ==> #[trigger] hw_sample(hw2, index as int, c, i) == hw_sample(
                            hw,
                            index as int,
                            c,
                            i,
                        )
                    &&& forall|c: int, i: int|
                        0 <= c < hw.channels && 0 <= i < hw.buffer_size ==> #[trigger] hw_sample(
                            hw2,
                            1 - index as int,
                            c,
                            i,
                        ) == hw_sample(hw, 1 - index as int, c, i)
                })
            },
    {
        let ok: bool;
        match &self.input {
            Some(hw) => {
                match (&hw.buffers, hw.encoding) {
                    (HardwareBuffers::Int16 { .. }, HardwareEncoding::Int16(_)) => {
                        ok = channel < hw.channels as usize && samples.len() == hw.buffer_size;
                    },
                    _ => {
                        ok = false;
                    },
                }
            },
            None => {
                ok = false;
            },
        }
        if !ok {
            return false;
        }
        let hw = match self.input.take() {
            Some(hw) => hw,
            None => {
                proof {
                    assert(false);
                }
                return false;
            },
        };
        let new_buffers = match hw.buffers {
            HardwareBuffers::Int16 { first, second } => {
                if index == 0 {
                    let nf = set_row(&first, channel, samples);
                    HardwareBuffers::Int16 { first: nf, second }
                } else {
                    let ns = set_row(&second, channel, samples);
                    HardwareBuffers::Int16 { first, second: ns }
                }
            },
            HardwareBuffers::Int32 { first, second } => {
                proof {
                    assert(false);
                }
                HardwareBuffers::Int32 { first, second }
            },
            HardwareBuffers::Unmodeled => {
                proof {
                    assert(false);
                }
                HardwareBuffers::Unmodeled
            },
        };
        self.input = Some(
            HardwareStream {
                buffer_size: hw.buffer_size,
                channels: hw.channels,
                encoding: hw.encoding,
                buffers: new_buffers,
            },
        );
        true
    }

    /// The driver's side of the input boundary for a 32-bit input stream;
    /// the mirror of `load_input_16`.
    pub fn load_input_32(&mut self, index: usize, channel: usize, samples: &Vec<i32>) -> (loaded:
        bool)
        requires
            old(self).wf(),
            index < 2,
        ensures
            final(self).wf(),
            loaded == (old(self).spec_hardware(Direction::Input) matches Some(hw) && {
                &&& hw.encoding matches HardwareEncoding::Int32(_)
                &&& channel < hw.channels
                &&& samples@.len() == hw.buffer_size
            }),
            !loaded ==> *final(self) == *old(self),
            loaded ==> {
                &&& final(self).spec_slots() == old(self).spec_slots()
                &&& final(self).spec_hardware(Direction::Output) == old(self).spec_hardware(
                    Direction::Output,
                )
                &&& final(self).spec_callback_registered() == old(self).spec_callback_registered()
                &&& final(self).spec_silence(0) == old(self).spec_silence(0)
                &&& final(self).spec_silence(1) == old(self).spec_silence(1)
                &&& final(self).spec_hardware_running() == old(self).spec_hardware_running()
                &&& (old(self).spec_hardware(Direction::Input) matches Some(hw) && final(self).spec_hardware(Direction::Input) matches Some(hw2) && {
                    &&& hw2.buffer_size == hw.buffer_size
                    &&& hw2.channels == hw.channels
                    &&& hw2.encoding == hw.encoding
                    &&& forall|i: int|
                        0 <= i < hw.buffer_size ==> #[trigger] hw_sample(
                            hw2,
                            index as int,
                            channel as int,
                            i,
                        ) == samples@[i]
                    &&& forall|c: int, i: int|
                        0 <= c < hw.channels && c != channel && 0 <= i < hw.buffer_size
                            ==> #[trigger] hw_sample(hw2, index as int, c, i) == hw_sample(
                            hw,
                            index as int,
                            c,
                            i,
                        )
                    &&& forall|c: int, i: int|
                        0 <= c < hw.channels && 0 <= i < hw.buffer_size ==> #[trigger] hw_sample(
                            hw2,
                            1 - index as int,
                            c,
                            i,
                        ) == hw_sample(hw, 1 - index as int, c, i)
                })
            },
    {
        let ok: bool;
        match &self.input {
            Some(hw) => {
                match (&hw.buffers, hw.encoding) {
                    (HardwareBuffers::Int32 { .. }, HardwareEncoding::Int32(_)) => {
                        ok = channel < hw.channels as usize && samples.len() == hw.buffer_size;
                    },
                    _ => {
                        ok = false;
                    },
                }
            },
            None => {
                ok = false;
            },
        }
        if !ok {
            return false;
        }
        let hw = match self.input.take() {
            Some(hw) => hw,
            None => {
                proof {
                    assert(false);
                }
                return false;
            },
        };
        let new_buffers = match hw.buffers {
            HardwareBuffers::Int32 { first, second } => {
                if index == 0 {
                    let nf = set_row(&first, channel, samples);
                    HardwareBuffers::Int32 { first: nf, second }
                } else {
                    let ns = set_row(&second, channel, samples);
                    HardwareBuffers::Int32 { first, second: ns }
                }
            },
            HardwareBuffers::Int16 { first, second } => {
                proof {
                    assert(false);
                }
                HardwareBuffers::Int16 { first, second }
            },
            HardwareBuffers::Unmodeled => {
                proof {
                    assert(false);
                }
                HardwareBuffers::Unmodeled
            },
        };
        self.input = Some(
            HardwareStream {
                buffer_size: hw.buffer_size,
                channels: hw.channels,
                encoding: hw.encoding,
                buffers: new_buffers,
            },
        );
        true
    }
}

} // verus!
