use asio_stream::sample::{convert_i16_to_i32, convert_i32_to_i16, mix_i16, mix_i32};

#[test]
fn scale_up_known_values() {
    assert_eq!(convert_i16_to_i32(0), 0);
    assert_eq!(convert_i16_to_i32(1), 65538);
    assert_eq!(convert_i16_to_i32(-1), -65538);
    assert_eq!(convert_i16_to_i32(i16::MAX), i32::MAX);
    assert_eq!(convert_i16_to_i32(-i16::MAX), -i32::MAX);
}

#[test]
fn scale_up_minimum_wraps_like_a_cast() {
    // i16::MIN scales to one step past i32::MIN and the narrowing cast
    // wraps, as the scaling formula specifies.
    assert_eq!(convert_i16_to_i32(i16::MIN), 2147418111);
    let wide: i64 = (i16::MIN as i64) * (i32::MAX as i64) / (i16::MAX as i64);
    assert_eq!(convert_i16_to_i32(i16::MIN), wide as i32);
}

#[test]
fn scale_down_known_values() {
    assert_eq!(convert_i32_to_i16(0), 0);
    assert_eq!(convert_i32_to_i16(i32::MAX), i16::MAX);
    assert_eq!(convert_i32_to_i16(i32::MIN), -i16::MAX);
    // One logical step is i32::MAX / i16::MAX, a little over 65538, and
    // the conversion truncates toward zero.
    assert_eq!(convert_i32_to_i16(65538), 0);
    assert_eq!(convert_i32_to_i16(65539), 1);
    assert_eq!(convert_i32_to_i16(-65539), -1);
    assert_eq!(convert_i32_to_i16(131078), 2);
    assert_eq!(convert_i32_to_i16(100000), 1);
}

#[test]
fn scale_round_trip_within_one_lsb() {
    let values: [i16; 9] = [0, 1, -1, 2, 1000, -1000, 12345, i16::MAX, -i16::MAX];
    for &v in values.iter() {
        let back = convert_i32_to_i16(convert_i16_to_i32(v));
        let diff = (back as i32 - v as i32).abs();
        assert!(diff <= 1, "round trip of {} gave {}", v, back);
        // Truncation moves toward zero, never away.
        assert!((back as i32).abs() <= (v as i32).abs());
    }
}

#[test]
fn scale_round_trip_exact_at_extremes() {
    assert_eq!(convert_i32_to_i16(convert_i16_to_i32(0)), 0);
    assert_eq!(convert_i32_to_i16(convert_i16_to_i32(i16::MAX)), i16::MAX);
    assert_eq!(convert_i32_to_i16(convert_i16_to_i32(-i16::MAX)), -i16::MAX);
}

#[test]
fn mixing_wraps_at_the_sample_width() {
    assert_eq!(mix_i16(100, 200), 300);
    assert_eq!(mix_i16(i16::MAX, 1), i16::MIN);
    assert_eq!(mix_i16(i16::MIN, -1), i16::MAX);
    assert_eq!(mix_i16(-300, 100), -200);
    assert_eq!(mix_i32(100_000, 200_000), 300_000);
    assert_eq!(mix_i32(i32::MAX, 1), i32::MIN);
    assert_eq!(mix_i32(i32::MIN, -1), i32::MAX);
}
