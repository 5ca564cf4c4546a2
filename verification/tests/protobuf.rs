use djicap::protobuf::{encode_media_msg, encode_varint, len_field, varint_field};

#[test]
fn varint_small_values_take_one_byte() {
    assert_eq!(encode_varint(0), vec![0x00]);
    assert_eq!(encode_varint(1), vec![0x01]);
    assert_eq!(encode_varint(127), vec![0x7f]);
}

#[test]
fn varint_continuation_bits() {
    assert_eq!(encode_varint(128), vec![0x80, 0x01]);
    assert_eq!(encode_varint(300), vec![0xac, 0x02]);
    assert_eq!(encode_varint(500_000_000), vec![0x80, 0xca, 0xb5, 0xee, 0x01]);
}

#[test]
fn varint_of_u64_max_takes_ten_bytes() {
    let v = encode_varint(u64::MAX);
    assert_eq!(v.len(), 10);
    assert_eq!(v, vec![0xff, 0xff, 0xff, 0xff, 0xff, 0xff, 0xff, 0xff, 0xff, 0x01]);
}

#[test]
fn varint_field_key_and_value() {
    // Field 1, varint 150: the example of the protobuf encoding guide.
    assert_eq!(varint_field(1, 150), vec![0x08, 0x96, 0x01]);
    assert_eq!(varint_field(2, 0), vec![0x10, 0x00]);
}

#[test]
fn len_field_key_length_payload() {
    // Field 2, string "testing": the example of the protobuf encoding guide.
    let mut expected = vec![0x12, 0x07];
    expected.extend_from_slice(b"testing");
    assert_eq!(len_field(2, b"testing"), expected);
    assert_eq!(len_field(4, b""), vec![0x22, 0x00]);
}

#[test]
fn media_message_layout() {
    let msg = encode_media_msg(1_500_000_000, "camera", &[1, 2, 3], "h264");
    let expected: Vec<u8> = vec![
        10, 8, 8, 1, 16, 128, 202, 181, 238, 1, // timestamp: 1 s, 500000000 ns
        18, 6, 99, 97, 109, 101, 114, 97, // frame_id "camera"
        26, 3, 1, 2, 3, // data
        34, 4, 104, 50, 54, 52, // format "h264"
    ];
    assert_eq!(msg, expected);
}

#[test]
fn media_message_at_epoch() {
    let msg = encode_media_msg(0, "", &[], "");
    assert_eq!(msg, vec![10, 4, 8, 0, 16, 0, 18, 0, 26, 0, 34, 0]);
}
