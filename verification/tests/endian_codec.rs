use asio_stream::endian::{convert_endian_from, convert_endian_to};
use asio_stream::Endian;

#[test]
fn swap_i16_known_values() {
    assert_eq!(convert_endian_to(0x1234i16, Endian::Big), 0x3412i16);
    assert_eq!(convert_endian_to(0x3412i16, Endian::Big), 0x1234i16);
    assert_eq!(convert_endian_to(0i16, Endian::Big), 0i16);
    assert_eq!(convert_endian_to(-2i16, Endian::Big), -257i16);
    assert_eq!(convert_endian_to(0x1234i16, Endian::Little), 0x1234i16);
}

#[test]
fn swap_i32_known_values() {
    assert_eq!(convert_endian_to(0x12345678i32, Endian::Big), 0x78563412i32);
    assert_eq!(convert_endian_to(0x78563412i32, Endian::Big), 0x12345678i32);
    assert_eq!(convert_endian_to(0i32, Endian::Big), 0i32);
    assert_eq!(convert_endian_to(-2i32, Endian::Big), -16777217i32);
    assert_eq!(convert_endian_to(0x12345678i32, Endian::Little), 0x12345678i32);
}

#[test]
fn endian_round_trip_i16() {
    let values: [i16; 7] = [0, 1, -1, i16::MIN, i16::MAX, 0x1234, -0x1234];
    for &v in values.iter() {
        for e in [Endian::Little, Endian::Big] {
            assert_eq!(convert_endian_from(convert_endian_to(v, e), e), v);
        }
    }
}

#[test]
fn endian_round_trip_i32() {
    let values: [i32; 7] = [0, 1, -1, i32::MIN, i32::MAX, 0x12345678, -0x12345678];
    for &v in values.iter() {
        for e in [Endian::Little, Endian::Big] {
            assert_eq!(convert_endian_from(convert_endian_to(v, e), e), v);
        }
    }
}

#[test]
fn to_and_from_agree_per_order() {
    // Converting to and from the same byte order is the same byte
    // permutation, so the two directions agree call for call.
    for v in [0x0102i16, -9i16, 21054i16] {
        for e in [Endian::Little, Endian::Big] {
            assert_eq!(convert_endian_to(v, e), convert_endian_from(v, e));
        }
    }
}
