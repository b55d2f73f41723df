use telemetry_link::frame::{
    combine_bytes, decode_frame, encode_frame, sample_at, split_value, DecodedSample, END_MARKER,
    FRAME_LEN, START_MARKER_A, START_MARKER_B,
};

fn frame_of(channels: [i16; 6], counter: u8) -> Vec<u8> {
    encode_frame(&channels, counter).to_vec()
}

#[test]
fn frame_constants() {
    assert_eq!(FRAME_LEN, 16);
    assert_eq!(START_MARKER_A, 0xC7);
    assert_eq!(START_MARKER_B, 0x7C);
    assert_eq!(END_MARKER, 0x01);
}

#[test]
fn combine_small_values() {
    assert_eq!(combine_bytes(0x00, 0x00), 0);
    assert_eq!(combine_bytes(0x00, 0x01), 1);
    assert_eq!(combine_bytes(0x00, 0xff), 255);
    assert_eq!(combine_bytes(0x01, 0x00), 256);
    assert_eq!(combine_bytes(0x12, 0x34), 0x1234);
    assert_eq!(combine_bytes(0x7f, 0xff), i16::MAX);
}

#[test]
fn combine_high_byte_with_top_bit_set() {
    assert_eq!(combine_bytes(0x80, 0x00), i16::MIN);
    assert_eq!(combine_bytes(0x80, 0x01), -32767);
    assert_eq!(combine_bytes(0xff, 0xff), -1);
    assert_eq!(combine_bytes(0xff, 0x00), -256);
    assert_eq!(combine_bytes(0xfe, 0xd4), -300);
    for high in 0x80u8..=0xff {
        for low in [0x00u8, 0x01, 0x7f, 0x80, 0xff] {
            let expected = i16::from_be_bytes([high, low]);
            assert!(expected < 0);
            assert_eq!(combine_bytes(high, low), expected);
            assert_eq!(
                combine_bytes(high, low) as i32,
                (high as i32) * 256 + (low as i32) - 65536
            );
        }
    }
}

#[test]
fn combine_agrees_with_big_endian_everywhere() {
    for high in 0u8..=255 {
        for low in 0u8..=255 {
            assert_eq!(combine_bytes(high, low), i16::from_be_bytes([high, low]));
        }
    }
}

#[test]
fn split_is_big_endian() {
    assert_eq!(split_value(0), (0x00, 0x00));
    assert_eq!(split_value(1), (0x00, 0x01));
    assert_eq!(split_value(-1), (0xff, 0xff));
    assert_eq!(split_value(-2), (0xff, 0xfe));
    assert_eq!(split_value(0x1234), (0x12, 0x34));
    assert_eq!(split_value(i16::MIN), (0x80, 0x00));
    assert_eq!(split_value(i16::MAX), (0x7f, 0xff));
}

#[test]
fn split_then_combine_is_identity() {
    for value in [i16::MIN, -32767, -300, -256, -255, -1, 0, 1, 255, 256, 300, 32766, i16::MAX] {
        let (high, low) = split_value(value);
        assert_eq!(combine_bytes(high, low), value);
    }
}

#[test]
fn encode_lays_out_the_frame() {
    let frame = encode_frame(&[1, -1, 0x1234, -300, i16::MAX, i16::MIN], 0xAB);
    assert_eq!(
        frame,
        [
            0xC7, 0x7C, 0xAB, 0x00, 0x01, 0xff, 0xff, 0x12, 0x34, 0xfe, 0xd4, 0x7f, 0xff, 0x80,
            0x00, 0x01
        ]
    );
}

#[test]
fn decode_reads_channels_then_counter() {
    let bytes = [
        0xC7, 0x7C, 0x05, 0x00, 0x0A, 0x00, 0x14, 0x00, 0x1E, 0x00, 0x28, 0x00, 0x32, 0x00, 0x3C,
        0x01,
    ];
    let sample = decode_frame(&bytes).unwrap();
    assert_eq!(sample.values, [10, 20, 30, 40, 50, 60, 5]);
    assert_eq!(sample.to_vec(), vec![10, 20, 30, 40, 50, 60, 5]);
    assert_eq!(sample.counter(), 5);
    assert_eq!(sample.channel(0), Some(10));
    assert_eq!(sample.channel(5), Some(60));
    assert_eq!(sample.channel(6), None);
}

#[test]
fn decode_inverts_encode() {
    let cases: [([i16; 6], u8); 4] = [
        ([0, 0, 0, 0, 0, 0], 0),
        ([1, 2, 3, 4, 5, 6], 7),
        ([i16::MIN, i16::MAX, -1, 1, -12345, 12345], 255),
        ([-32768, -32768, -32768, -32768, -32768, -32768], 128),
    ];
    for (channels, counter) in cases {
        let sample = decode_frame(&frame_of(channels, counter)).unwrap();
        let mut expected = channels.to_vec();
        expected.push(counter as i16);
        assert_eq!(sample.to_vec(), expected);
    }
}

#[test]
fn counter_is_never_sign_extended() {
    for counter in 0u8..=255 {
        let sample = decode_frame(&frame_of([0; 6], counter)).unwrap();
        assert_eq!(sample.counter(), counter as i16);
        assert!(sample.counter() >= 0 && sample.counter() <= 255);
    }
}

#[test]
fn decode_rejects_wrong_markers() {
    let good = frame_of([1, 2, 3, 4, 5, 6], 9);
    assert!(decode_frame(&good).is_some());
    for (offset, value) in [(0usize, 0xC6u8), (1, 0x7D), (15, 0x00), (15, 0x02)] {
        let mut bad = good.clone();
        bad[offset] = value;
        assert_eq!(decode_frame(&bad), None);
    }
}

#[test]
fn decode_rejects_wrong_lengths() {
    let good = frame_of([1, 2, 3, 4, 5, 6], 9);
    assert_eq!(decode_frame(&good[..15]), None);
    assert_eq!(decode_frame(&[]), None);
    let mut long = good.clone();
    long.push(0x01);
    assert_eq!(decode_frame(&long), None);
}

#[test]
fn decode_accepts_damaged_payload_with_sound_markers() {
    let mut frame = frame_of([100, 200, 300, 400, 500, 600], 1);
    frame[3] = 0xff;
    let sample = decode_frame(&frame).unwrap();
    assert_eq!(sample.values, [-156, 200, 300, 400, 500, 600, 1]);
}

#[test]
fn sample_at_reads_at_an_offset_whatever_the_markers() {
    let mut bytes = vec![0xAA, 0xBB, 0xCC];
    bytes.extend_from_slice(&frame_of([7, 8, 9, 10, 11, 12], 13));
    assert_eq!(sample_at(&bytes, 3).values, [7, 8, 9, 10, 11, 12, 13]);
    let zeros = [0u8; 16];
    assert_eq!(sample_at(&zeros, 0), DecodedSample { values: [0; 7] });
}
