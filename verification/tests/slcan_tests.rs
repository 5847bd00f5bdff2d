//! slcan codec: line parsing, encoding, the round trip and the bitrate
//! table.

use candor_io::frame::{Frame, Protocol};
use candor_io::slcan::{encode_slcan_frame, find_bitrate_command, format_version, parse_slcan_frame};

fn can_frame(frame_id: u32, dlc: u8, bytes: Vec<u8>, is_extended: bool, is_rtr: bool) -> Frame {
    Frame {
        protocol: Protocol::Can,
        timestamp_us: 0,
        frame_id,
        bus: 0,
        dlc,
        bytes,
        is_extended,
        is_fd: false,
        is_rtr,
        source_address: None,
        incomplete: None,
        direction: None,
    }
}

#[test]
fn test_parse_standard_frame() {
    let frame = parse_slcan_frame("t1234AABBCCDD", 0).unwrap();
    assert_eq!(frame.frame_id, 0x123);
    assert_eq!(frame.dlc, 4);
    assert_eq!(frame.bytes, vec![0xAA, 0xBB, 0xCC, 0xDD]);
    assert!(!frame.is_extended);
    assert!(!frame.is_fd);
}

#[test]
fn slcan_test_parse_extended_frame() {
    let frame = parse_slcan_frame("T123456782AABB", 0).unwrap();
    assert_eq!(frame.frame_id, 0x12345678);
    assert_eq!(frame.dlc, 2);
    assert_eq!(frame.bytes, vec![0xAA, 0xBB]);
    assert!(frame.is_extended);
}

#[test]
fn test_parse_standard_frame_zero_dlc() {
    let frame = parse_slcan_frame("t1230", 0).unwrap();
    assert_eq!(frame.frame_id, 0x123);
    assert_eq!(frame.dlc, 0);
    assert!(frame.bytes.is_empty());
}

#[test]
fn test_parse_standard_frame_max_dlc() {
    let frame = parse_slcan_frame("t1238AABBCCDD11223344", 0).unwrap();
    assert_eq!(frame.frame_id, 0x123);
    assert_eq!(frame.dlc, 8);
    assert_eq!(frame.bytes.len(), 8);
}

#[test]
fn test_parse_rtr_frame() {
    let frame = parse_slcan_frame("r1234", 0).unwrap();
    assert_eq!(frame.frame_id, 0x123);
    assert_eq!(frame.dlc, 4);
    assert!(frame.bytes.is_empty()); // RTR has no data
}

#[test]
fn test_parse_extended_rtr() {
    let frame = parse_slcan_frame("R123456780", 0).unwrap();
    assert_eq!(frame.frame_id, 0x12345678);
    assert_eq!(frame.dlc, 0);
    assert!(frame.is_extended);
}

#[test]
fn test_parse_invalid_prefix() {
    assert!(parse_slcan_frame("x1234AABB", 0).is_none());
    assert!(parse_slcan_frame("z", 0).is_none());
    assert!(parse_slcan_frame("", 0).is_none());
}

#[test]
fn test_parse_invalid_dlc() {
    // DLC > 8 is invalid for classic CAN
    assert!(parse_slcan_frame("t123FAABBCCDD", 0).is_none());
}

#[test]
fn test_parse_truncated_frame() {
    // Not enough data bytes for DLC
    assert!(parse_slcan_frame("t1234AA", 0).is_none());
}

#[test]
fn slcan_test_encode_standard_frame() {
    let frame = can_frame(0x123, 3, vec![0x01, 0x02, 0x03], false, false);
    assert_eq!(encode_slcan_frame(&frame), "t1233010203\r");
}

#[test]
fn slcan_test_encode_extended_frame() {
    let frame = can_frame(0x12345678, 2, vec![0xAA, 0xBB], true, false);
    assert_eq!(encode_slcan_frame(&frame), "T123456782AABB\r");
}

#[test]
fn test_encode_decode_roundtrip() {
    let original = can_frame(0x7FF, 4, vec![0xDE, 0xAD, 0xBE, 0xEF], false, false);

    let encoded = encode_slcan_frame(&original);
    // Remove trailing carriage return for parsing
    let decoded = parse_slcan_frame(&encoded[..encoded.len() - 1], 0).unwrap();

    assert_eq!(decoded.frame_id, original.frame_id);
    assert_eq!(decoded.dlc, original.dlc);
    assert_eq!(decoded.bytes, original.bytes);
    assert_eq!(decoded.is_extended, original.is_extended);
}

#[test]
fn test_bitrate_mapping() {
    assert_eq!(find_bitrate_command(500_000).unwrap(), "S6");
    assert_eq!(find_bitrate_command(125_000).unwrap(), "S4");
    assert_eq!(find_bitrate_command(1_000_000).unwrap(), "S8");
    assert_eq!(find_bitrate_command(10_000).unwrap(), "S0");
    assert!(find_bitrate_command(123_456).is_err());
}

#[test]
fn test_encode_rtr_frames_round_trip() {
    let original = can_frame(0x123, 4, vec![], false, true);
    let encoded = encode_slcan_frame(&original);
    assert_eq!(encoded, "r1234\r");
    let decoded = parse_slcan_frame(&encoded[..encoded.len() - 1], 0).unwrap();
    assert_eq!(decoded.frame_id, 0x123);
    assert_eq!(decoded.dlc, 4);
    assert!(decoded.is_rtr);
    assert!(!decoded.is_extended);

    let original = can_frame(0x12345678, 0, vec![], true, true);
    let encoded = encode_slcan_frame(&original);
    assert_eq!(encoded, "R123456780\r");
    let decoded = parse_slcan_frame(&encoded[..encoded.len() - 1], 0).unwrap();
    assert!(decoded.is_rtr && decoded.is_extended);
}

#[test]
fn test_parse_standard_id_out_of_range() {
    // A standard identifier above 11 bits is rejected.
    assert!(parse_slcan_frame("t8001AA", 0).is_none());
}

#[test]
fn test_format_version_strings() {
    assert_eq!(format_version("1013"), "1.0.13");
    assert_eq!(format_version("2105"), "2.1.05");
    assert_eq!(format_version("v13"), "v13");
    assert_eq!(format_version("13"), "13");
}
