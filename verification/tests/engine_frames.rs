use asio_stream::engine::HardwareBuffers;
use asio_stream::{
    Device, Direction, Endian, EventLoop, Format, HardwareEncoding, SampleFormat,
};

fn device_with(encoding: HardwareEncoding) -> Device {
    Device {
        max_input_channels: Some(2),
        max_output_channels: Some(2),
        sample_rate: 44100,
        supported_sample_rates: vec![44100],
        data_type: encoding,
        buffer_size: 4,
        accepts_streams: true,
    }
}

fn format_i16(channels: u16) -> Format {
    Format { channels, sample_rate: 44100, data_type: SampleFormat::I16 }
}

fn output_half<'a>(el: &'a EventLoop, index: usize) -> &'a Vec<Vec<i16>> {
    match el.hardware(Direction::Output) {
        Some(hw) => match &hw.buffers {
            HardwareBuffers::Int16 { first, second } => {
                if index == 0 {
                    first
                } else {
                    second
                }
            },
            _ => panic!("expected a 16-bit hardware buffer"),
        },
        None => panic!("hardware output stream missing"),
    }
}

fn output_half_32<'a>(el: &'a EventLoop, index: usize) -> &'a Vec<Vec<i32>> {
    match el.hardware(Direction::Output) {
        Some(hw) => match &hw.buffers {
            HardwareBuffers::Int32 { first, second } => {
                if index == 0 {
                    first
                } else {
                    second
                }
            },
            _ => panic!("expected a 32-bit hardware buffer"),
        },
        None => panic!("hardware output stream missing"),
    }
}

#[test]
fn two_output_streams_mix_additively() {
    let device = device_with(HardwareEncoding::Int16(Endian::Little));
    let mut el = EventLoop::new();
    el.run();
    let id1 = el.build_output_stream(&device, &format_i16(2)).unwrap();
    let id2 = el.build_output_stream(&device, &format_i16(2)).unwrap();
    el.play_stream(id1.clone()).unwrap();
    el.play_stream(id2.clone()).unwrap();

    let c1 = vec![100i16; 8];
    let c2 = vec![200i16; 8];
    assert!(el.output_frame(id1.clone(), 0, &c1));
    assert!(el.output_frame(id2.clone(), 0, &c2));

    // Silence was applied exactly once before the first write, then the
    // second stream accumulated: every cell holds the sum.
    let half = output_half(&el, 0);
    for c in 0..2 {
        for i in 0..4 {
            assert_eq!(half[c][i], 300i16);
        }
    }
}

#[test]
fn silence_is_not_applied_twice_in_one_fill_cycle() {
    let device = device_with(HardwareEncoding::Int16(Endian::Little));
    let mut el = EventLoop::new();
    el.run();
    let id = el.build_output_stream(&device, &format_i16(2)).unwrap();
    el.play_stream(id.clone()).unwrap();

    assert!(el.output_frame(id.clone(), 0, &vec![10i16; 8]));
    // A second turn for the same half in the same cycle accumulates
    // instead of silencing again.
    assert!(el.output_frame(id.clone(), 0, &vec![1i16; 8]));
    assert_eq!(output_half(&el, 0)[0][0], 11i16);

    // The other half starts its own cycle: it is silenced once and the
    // first half's flag is re-armed.
    assert!(el.output_frame(id.clone(), 1, &vec![7i16; 8]));
    assert_eq!(output_half(&el, 1)[1][3], 7i16);
    assert!(el.output_frame(id.clone(), 0, &vec![5i16; 8]));
    assert_eq!(output_half(&el, 0)[0][0], 5i16);
}

#[test]
fn output_scales_to_a_32_bit_hardware_stream() {
    let device = device_with(HardwareEncoding::Int32(Endian::Little));
    let mut el = EventLoop::new();
    el.run();
    let id1 = el.build_output_stream(&device, &format_i16(1)).unwrap();
    let id2 = el.build_output_stream(&device, &format_i16(1)).unwrap();
    el.play_stream(id1.clone()).unwrap();
    el.play_stream(id2.clone()).unwrap();
    assert!(el.output_frame(id1, 0, &vec![1i16; 4]));
    assert!(el.output_frame(id2, 0, &vec![2i16; 4]));
    let half = output_half_32(&el, 0);
    for i in 0..4 {
        assert_eq!(half[0][i], 65538 + 131076);
    }
}

#[test]
fn output_applies_the_hardware_byte_order() {
    let device = device_with(HardwareEncoding::Int16(Endian::Big));
    let mut el = EventLoop::new();
    el.run();
    let id = el.build_output_stream(&device, &format_i16(1)).unwrap();
    el.play_stream(id.clone()).unwrap();
    assert!(el.output_frame(id, 0, &vec![0x0102i16; 4]));
    assert_eq!(output_half(&el, 0)[0][0], 0x0201i16);
}

#[test]
fn inactive_output_turns_are_silent_no_ops() {
    let device = device_with(HardwareEncoding::Int16(Endian::Little));
    let mut el = EventLoop::new();
    let id = el.build_output_stream(&device, &format_i16(2)).unwrap();
    // No callback registered yet.
    assert!(!el.output_frame(id.clone(), 0, &vec![1i16; 8]));
    el.run();
    // Still paused.
    assert!(!el.output_frame(id.clone(), 0, &vec![1i16; 8]));
    el.play_stream(id.clone()).unwrap();
    // Wrong buffer length.
    assert!(!el.output_frame(id.clone(), 0, &vec![1i16; 7]));
    let half = output_half(&el, 0);
    for c in 0..2 {
        for i in 0..4 {
            assert_eq!(half[c][i], 0i16);
        }
    }
}

#[test]
fn input_frames_interleave_the_captured_channels() {
    let device = device_with(HardwareEncoding::Int16(Endian::Little));
    let mut el = EventLoop::new();
    el.run();
    let id = el.build_input_stream(&device, &format_i16(2)).unwrap();
    assert!(el.load_input_16(0, 0, &vec![10, 20, 30, 40]));
    assert!(el.load_input_16(0, 1, &vec![50, 60, 70, 80]));
    // A paused stream's turn hands the callback nothing.
    assert_eq!(el.input_frame(id.clone(), 0), None);
    el.play_stream(id.clone()).unwrap();
    let buf = el.input_frame(id.clone(), 0).unwrap();
    assert_eq!(buf, vec![10, 50, 20, 60, 30, 70, 40, 80]);
    // The other half is untouched and still silent.
    assert_eq!(el.input_frame(id, 1).unwrap(), vec![0i16; 8]);
}

#[test]
fn input_frames_scale_a_32_bit_hardware_stream_down() {
    let device = device_with(HardwareEncoding::Int32(Endian::Little));
    let mut el = EventLoop::new();
    el.run();
    let id = el.build_input_stream(&device, &format_i16(1)).unwrap();
    assert!(el.load_input_32(0, 0, &vec![65539, 131078, -65539, 0]));
    el.play_stream(id.clone()).unwrap();
    assert_eq!(el.input_frame(id, 0).unwrap(), vec![1i16, 2, -1, 0]);
}

#[test]
fn input_frames_normalize_the_hardware_byte_order() {
    let device = device_with(HardwareEncoding::Int16(Endian::Big));
    let mut el = EventLoop::new();
    el.run();
    let id = el.build_input_stream(&device, &format_i16(1)).unwrap();
    assert!(el.load_input_16(0, 0, &vec![0x0201i16; 4]));
    el.play_stream(id.clone()).unwrap();
    assert_eq!(el.input_frame(id, 0).unwrap(), vec![0x0102i16; 4]);
}

#[test]
fn float_hardware_encodings_skip_the_modeled_dispatcher() {
    let device = device_with(HardwareEncoding::Float32(Endian::Little));
    let mut el = EventLoop::new();
    el.run();
    let id = el.build_output_stream(&device, &format_i16(2)).unwrap();
    el.play_stream(id.clone()).unwrap();
    // The stream exists and plays, but its turns do no modeled work.
    assert_eq!(el.output_ready(id.clone()), None);
    assert!(!el.output_frame(id, 0, &vec![1i16; 8]));
}

#[test]
fn loading_input_fails_on_a_mismatched_width_or_range() {
    let device = device_with(HardwareEncoding::Int16(Endian::Little));
    let mut el = EventLoop::new();
    // No input stream yet.
    assert!(!el.load_input_16(0, 0, &vec![0i16; 4]));
    let _ = el.build_input_stream(&device, &format_i16(2)).unwrap();
    // Wrong sample width for the encoding.
    assert!(!el.load_input_32(0, 0, &vec![0i32; 4]));
    // Channel out of range, wrong sample count.
    assert!(!el.load_input_16(0, 2, &vec![0i16; 4]));
    assert!(!el.load_input_16(0, 0, &vec![0i16; 3]));
    assert!(el.load_input_16(0, 0, &vec![0i16; 4]));
}

#[test]
fn turns_of_the_wrong_direction_are_skipped() {
    let device = device_with(HardwareEncoding::Int16(Endian::Little));
    let mut el = EventLoop::new();
    el.run();
    let out_id = el.build_output_stream(&device, &format_i16(2)).unwrap();
    let in_id = el.build_input_stream(&device, &format_i16(2)).unwrap();
    el.play_stream(out_id.clone()).unwrap();
    el.play_stream(in_id.clone()).unwrap();
    assert_eq!(el.input_frame(out_id.clone(), 0), None);
    assert_eq!(el.output_ready(in_id.clone()), None);
    assert!(el.input_frame(in_id, 0).is_some());
    assert_eq!(el.output_ready(out_id), Some(8));
}
