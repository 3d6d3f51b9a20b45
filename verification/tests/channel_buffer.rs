use asio_stream::channel::{deinterleave, interleave};

#[test]
fn interleave_two_channels() {
    let channels: Vec<Vec<i16>> = vec![vec![1, 2, 3], vec![4, 5, 6]];
    let mut out: Vec<i16> = Vec::new();
    interleave(&channels, &mut out);
    assert_eq!(out, vec![1, 4, 2, 5, 3, 6]);
}

#[test]
fn interleave_one_channel_is_identity() {
    let channels: Vec<Vec<i16>> = vec![vec![7, 8, 9]];
    let mut out: Vec<i16> = Vec::new();
    interleave(&channels, &mut out);
    assert_eq!(out, vec![7, 8, 9]);
}

#[test]
fn interleave_no_channels_is_empty() {
    let channels: Vec<Vec<i16>> = Vec::new();
    let mut out: Vec<i16> = vec![1, 2, 3];
    interleave(&channels, &mut out);
    assert_eq!(out, Vec::<i16>::new());
}

#[test]
fn deinterleave_two_channels() {
    let buf: Vec<i16> = vec![1, 4, 2, 5, 3, 6];
    let mut channels: Vec<Vec<i16>> = vec![Vec::new(), Vec::new()];
    deinterleave(&buf, &mut channels);
    assert_eq!(channels, vec![vec![1, 2, 3], vec![4, 5, 6]]);
}

#[test]
fn deinterleave_drops_a_partial_frame() {
    let buf: Vec<i16> = vec![1, 2, 3, 4, 5];
    let mut channels: Vec<Vec<i16>> = vec![Vec::new(), Vec::new()];
    deinterleave(&buf, &mut channels);
    assert_eq!(channels, vec![vec![1, 3], vec![2, 4]]);
}

#[test]
fn interleave_after_deinterleave_restores_the_buffer() {
    let buf: Vec<i16> = vec![10, -20, 30, -40, 50, -60, 70, -80];
    for n in 1..=4usize {
        if buf.len() % n != 0 {
            continue;
        }
        let mut channels: Vec<Vec<i16>> = Vec::new();
        for _ in 0..n {
            channels.push(Vec::new());
        }
        deinterleave(&buf, &mut channels);
        let mut out: Vec<i16> = Vec::new();
        interleave(&channels, &mut out);
        assert_eq!(out, buf);
    }
}

#[test]
fn deinterleave_after_interleave_restores_the_channels() {
    let channels: Vec<Vec<i16>> = vec![vec![1, 2], vec![3, 4], vec![5, 6]];
    let mut out: Vec<i16> = Vec::new();
    interleave(&channels, &mut out);
    let mut back: Vec<Vec<i16>> = vec![Vec::new(), Vec::new(), Vec::new()];
    deinterleave(&out, &mut back);
    assert_eq!(back, channels);
}
