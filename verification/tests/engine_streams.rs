use asio_stream::{
    BuildStreamError, Device, Direction, Endian, EventLoop, Format, HardwareEncoding,
    PauseStreamError, PlayStreamError, SampleFormat, StreamId,
};

fn device_i16() -> Device {
    Device {
        max_input_channels: Some(2),
        max_output_channels: Some(2),
        sample_rate: 44100,
        supported_sample_rates: vec![44100, 48000],
        data_type: HardwareEncoding::Int16(Endian::Little),
        buffer_size: 4,
        accepts_streams: true,
    }
}

fn format_i16(channels: u16) -> Format {
    Format { channels, sample_rate: 44100, data_type: SampleFormat::I16 }
}

#[test]
fn identities_start_at_one_and_increase() {
    let device = device_i16();
    let mut el = EventLoop::new();
    let id1 = el.build_output_stream(&device, &format_i16(2)).unwrap();
    let id2 = el.build_output_stream(&device, &format_i16(2)).unwrap();
    let id3 = el.build_input_stream(&device, &format_i16(2)).unwrap();
    assert_eq!(id1, StreamId(1));
    assert_eq!(id2, StreamId(2));
    assert_eq!(id3, StreamId(3));
}

#[test]
fn destroyed_identities_are_never_reused() {
    let device = device_i16();
    let mut el = EventLoop::new();
    let _id1 = el.build_output_stream(&device, &format_i16(2)).unwrap();
    let _id2 = el.build_output_stream(&device, &format_i16(2)).unwrap();
    let _id3 = el.build_output_stream(&device, &format_i16(2)).unwrap();
    el.destroy_stream(StreamId(2));
    let id4 = el.build_output_stream(&device, &format_i16(2)).unwrap();
    assert_eq!(id4, StreamId(4));
    assert_eq!(el.stream_count(), 4);
    assert_eq!(el.stream_state(StreamId(2)), None);
}

#[test]
fn new_streams_start_paused_and_play_pause_transitions() {
    let device = device_i16();
    let mut el = EventLoop::new();
    el.run();
    let id = el.build_output_stream(&device, &format_i16(2)).unwrap();
    assert_eq!(el.stream_state(id.clone()), Some(false));
    // A paused stream's dispatcher turn is a no-op: no buffer is requested.
    assert_eq!(el.output_ready(id.clone()), None);
    assert!(!el.hardware_running());

    el.play_stream(id.clone()).unwrap();
    assert_eq!(el.stream_state(id.clone()), Some(true));
    assert_eq!(el.output_ready(id.clone()), Some(8));
    assert!(el.hardware_running());

    el.pause_stream(id.clone()).unwrap();
    assert_eq!(el.stream_state(id.clone()), Some(false));
    assert_eq!(el.output_ready(id.clone()), None);
    assert!(!el.hardware_running());
}

#[test]
fn driver_keeps_running_while_any_stream_plays() {
    let device = device_i16();
    let mut el = EventLoop::new();
    let id1 = el.build_output_stream(&device, &format_i16(2)).unwrap();
    let id2 = el.build_output_stream(&device, &format_i16(2)).unwrap();
    el.play_stream(id1.clone()).unwrap();
    el.play_stream(id2.clone()).unwrap();
    el.pause_stream(id1.clone()).unwrap();
    assert!(el.hardware_running());
    assert!(el.is_any_playing(Direction::Output));
    el.pause_stream(id2.clone()).unwrap();
    assert!(!el.hardware_running());
    assert!(!el.is_any_playing(Direction::Output));
}

#[test]
fn play_and_pause_reject_invalid_identities() {
    let device = device_i16();
    let mut el = EventLoop::new();
    let id = el.build_output_stream(&device, &format_i16(2)).unwrap();
    assert_eq!(el.play_stream(StreamId(0)), Err(PlayStreamError::InvalidStreamId));
    assert_eq!(el.play_stream(StreamId(99)), Err(PlayStreamError::InvalidStreamId));
    assert_eq!(el.pause_stream(StreamId(99)), Err(PauseStreamError::InvalidStreamId));
    el.destroy_stream(id.clone());
    assert_eq!(el.play_stream(id.clone()), Err(PlayStreamError::InvalidStreamId));
    assert_eq!(el.pause_stream(id), Err(PauseStreamError::InvalidStreamId));
    // Destroying an invalid identity is ignored.
    el.destroy_stream(StreamId(42));
}

#[test]
fn too_many_channels_fail_before_any_hardware_exists() {
    let device = device_i16();
    let mut el = EventLoop::new();
    let r = el.build_output_stream(&device, &format_i16(4));
    assert_eq!(r, Err(BuildStreamError::FormatNotSupported));
    assert!(el.hardware(Direction::Output).is_none());
    assert_eq!(el.stream_count(), 0);
    let r = el.build_input_stream(&device, &format_i16(3));
    assert_eq!(r, Err(BuildStreamError::FormatNotSupported));
    assert!(el.hardware(Direction::Input).is_none());
    assert_eq!(el.stream_count(), 0);
}

#[test]
fn unsatisfiable_rate_and_unsigned_format_are_rejected() {
    let device = device_i16();
    let mut el = EventLoop::new();
    let switchable = Format { channels: 2, sample_rate: 48000, data_type: SampleFormat::I16 };
    let impossible = Format { channels: 2, sample_rate: 22050, data_type: SampleFormat::I16 };
    let unsigned = Format { channels: 2, sample_rate: 44100, data_type: SampleFormat::U16 };
    assert!(el.build_output_stream(&device, &switchable).is_ok());
    assert_eq!(
        el.build_output_stream(&device, &impossible),
        Err(BuildStreamError::FormatNotSupported)
    );
    assert_eq!(
        el.build_output_stream(&device, &unsigned),
        Err(BuildStreamError::FormatNotSupported)
    );
}

#[test]
fn device_without_input_format_rejects_input_streams() {
    let mut device = device_i16();
    device.max_input_channels = None;
    let mut el = EventLoop::new();
    assert_eq!(
        el.build_input_stream(&device, &format_i16(1)),
        Err(BuildStreamError::FormatNotSupported)
    );
}

#[test]
fn refusing_driver_reports_device_not_available() {
    let mut device = device_i16();
    device.accepts_streams = false;
    let mut el = EventLoop::new();
    assert_eq!(
        el.build_output_stream(&device, &format_i16(2)),
        Err(BuildStreamError::DeviceNotAvailable)
    );
    assert_eq!(el.stream_count(), 0);
}

#[test]
fn hardware_stream_is_created_once_and_reused() {
    let device = device_i16();
    let mut el = EventLoop::new();
    let _ = el.build_output_stream(&device, &format_i16(2)).unwrap();
    // A later request of the same direction reuses the stream even when the
    // driver would refuse a new one: no driver call is made.
    let mut refusing = device_i16();
    refusing.accepts_streams = false;
    let id2 = el.build_output_stream(&refusing, &format_i16(1)).unwrap();
    assert_eq!(id2, StreamId(2));
    match el.hardware(Direction::Output) {
        Some(hw) => {
            // First writer wins: the hardware keeps its original shape.
            assert_eq!(hw.channels, 2);
            assert_eq!(hw.buffer_size, 4);
        },
        None => panic!("hardware output stream missing"),
    }
}

#[test]
fn hardware_is_torn_down_with_the_last_stream() {
    let device = device_i16();
    let mut el = EventLoop::new();
    let id1 = el.build_output_stream(&device, &format_i16(2)).unwrap();
    let id2 = el.build_input_stream(&device, &format_i16(2)).unwrap();
    el.destroy_stream(id1);
    assert!(el.hardware(Direction::Output).is_some());
    assert!(el.hardware(Direction::Input).is_some());
    el.destroy_stream(id2);
    assert!(el.hardware(Direction::Output).is_none());
    assert!(el.hardware(Direction::Input).is_none());
    // Identities are still not reused after the teardown.
    let id3 = el.build_output_stream(&device, &format_i16(2)).unwrap();
    assert_eq!(id3, StreamId(3));
}

#[test]
fn check_format_accepts_exactly_the_satisfiable_formats() {
    let device = device_i16();
    let el = EventLoop::new();
    assert!(el.check_format(&device, &format_i16(2), 2).is_ok());
    assert!(el.check_format(&device, &format_i16(3), 2).is_err());
    let switchable = Format { channels: 1, sample_rate: 48000, data_type: SampleFormat::I16 };
    assert!(el.check_format(&device, &switchable, 2).is_ok());
    let impossible = Format { channels: 1, sample_rate: 8000, data_type: SampleFormat::I16 };
    assert_eq!(
        el.check_format(&device, &impossible, 2),
        Err(BuildStreamError::FormatNotSupported)
    );
    let unsigned = Format { channels: 1, sample_rate: 44100, data_type: SampleFormat::U16 };
    assert_eq!(
        el.check_format(&device, &unsigned, 2),
        Err(BuildStreamError::FormatNotSupported)
    );
}
