//! GVRET codec: encoding, parsing with resynchronization, validation, and
//! the probe response scanner.

use candor_io::frame::CanTransmitFrame;
use candor_io::gvret::{
    encode_gvret_frame, parse_gvret_frames, parse_numbuses_response, sanitize_bus_count,
    validate_gvret_frame,
};

fn tx(frame_id: u32, data: Vec<u8>, bus: u8, is_extended: bool, is_fd: bool) -> CanTransmitFrame {
    CanTransmitFrame { frame_id, data, bus, is_extended, is_fd, is_brs: false, is_rtr: false }
}

#[test]
fn test_encode_standard_frame() {
    let frame = tx(0x123, vec![0x11, 0x22, 0x33, 0x44], 0, false, false);
    let encoded = encode_gvret_frame(&frame);

    assert_eq!(encoded[0], 0xF1); // Sync
    assert_eq!(encoded[1], 0x00); // Command
    // Frame ID (little-endian): 0x123 = [0x23, 0x01, 0x00, 0x00]
    assert_eq!(encoded[2], 0x23);
    assert_eq!(encoded[3], 0x01);
    assert_eq!(encoded[4], 0x00);
    assert_eq!(encoded[5], 0x00);
    assert_eq!(encoded[6], 0x00); // Bus
    assert_eq!(encoded[7], 0x04); // Length
    assert_eq!(&encoded[8..], &[0x11, 0x22, 0x33, 0x44]);
}

#[test]
fn test_encode_extended_frame() {
    let frame = tx(0x12345678, vec![0xAA, 0xBB], 1, true, false);
    let encoded = encode_gvret_frame(&frame);

    assert_eq!(encoded[0], 0xF1);
    assert_eq!(encoded[1], 0x00);
    // Frame ID with extended flag: 0x12345678 | 0x80000000 = 0x92345678 LE
    assert_eq!(encoded[2], 0x78);
    assert_eq!(encoded[3], 0x56);
    assert_eq!(encoded[4], 0x34);
    assert_eq!(encoded[5], 0x92);
    assert_eq!(encoded[6], 0x01); // Bus
    assert_eq!(encoded[7], 0x02); // Length
    assert_eq!(&encoded[8..], &[0xAA, 0xBB]);
}

#[test]
fn test_encode_empty_frame() {
    let frame = tx(0x7FF, vec![], 0, false, false);
    let encoded = encode_gvret_frame(&frame);

    assert_eq!(encoded.len(), 8); // Header only, no data
    assert_eq!(encoded[0], 0xF1);
    assert_eq!(encoded[1], 0x00);
    assert_eq!(encoded[6], 0x00); // Bus
    assert_eq!(encoded[7], 0x00); // Length = 0
}

#[test]
fn test_parse_single_frame() {
    let mut buffer = vec![
        0xF1, 0x00, // Sync + command
        0x00, 0x00, 0x00, 0x00, // Timestamp
        0x23, 0x01, 0x00, 0x00, // ID 0x123 LE
        0x04, // Bus 0, DLC 4
        0xAA, 0xBB, 0xCC, 0xDD, // Data
    ];

    let frames = parse_gvret_frames(&mut buffer, 0);

    assert_eq!(frames.len(), 1);
    let frame = &frames[0];
    assert_eq!(frame.frame_id, 0x123);
    assert_eq!(frame.dlc, 4);
    assert_eq!(frame.bytes, vec![0xAA, 0xBB, 0xCC, 0xDD]);
    assert!(!frame.is_extended);
    assert!(buffer.is_empty()); // Buffer should be consumed
}

#[test]
fn test_parse_extended_frame() {
    let mut buffer = vec![
        0xF1, 0x00, // Sync + command
        0x00, 0x00, 0x00, 0x00, // Timestamp
        0x78, 0x56, 0x34, 0x92, // ID 0x12345678 | 0x80000000 LE
        0x02, // Bus 0, DLC 2
        0x11, 0x22, // Data
    ];

    let frames = parse_gvret_frames(&mut buffer, 0);

    assert_eq!(frames.len(), 1);
    let frame = &frames[0];
    assert_eq!(frame.frame_id, 0x12345678);
    assert!(frame.is_extended);
    assert_eq!(frame.bytes, vec![0x11, 0x22]);
}

#[test]
fn test_parse_skips_control_frames() {
    let mut buffer = vec![
        0xF1, 0x09, 0xDE, 0xAD, // Keepalive (4 bytes)
        0xF1, 0x00, // Data frame start
        0x00, 0x00, 0x00, 0x00, // Timestamp
        0x7F, 0x00, 0x00, 0x00, // ID 0x7F
        0x01, // Bus 0, DLC 1
        0xFF, // Data
    ];

    let frames = parse_gvret_frames(&mut buffer, 0);

    assert_eq!(frames.len(), 1);
    let frame = &frames[0];
    assert_eq!(frame.frame_id, 0x7F);
}

#[test]
fn test_parse_incomplete_frame() {
    let mut buffer = vec![
        0xF1, 0x00, // Sync + command
        0x00, 0x00, // Only 2 timestamp bytes
    ];

    let frames = parse_gvret_frames(&mut buffer, 0);

    assert!(frames.is_empty());
    assert_eq!(buffer.len(), 4); // Buffer should be preserved
}

#[test]
fn test_validate_classic_can_too_long() {
    let frame = tx(0x123, vec![0; 9], 0, false, false);
    let result = validate_gvret_frame(&frame);
    assert!(result.is_err());
}

#[test]
fn test_validate_canfd_too_long() {
    let frame = tx(0x123, vec![0; 65], 0, false, true);
    let result = validate_gvret_frame(&frame);
    assert!(result.is_err());
}

#[test]
fn test_validate_invalid_bus() {
    let frame = tx(0x123, vec![0x11], 5, false, false);
    let result = validate_gvret_frame(&frame);
    assert!(result.is_err());
}

#[test]
fn test_validate_valid_frame() {
    let frame = tx(0x123, vec![0x11, 0x22, 0x33, 0x44], 2, false, false);
    let result = validate_gvret_frame(&frame);
    assert!(result.is_ok());
}

#[test]
fn test_parse_resync_over_noise() {
    // Noise without a sync byte between two valid records drops nothing.
    let mut buffer = vec![
        0x12, 0x34, 0x56, // noise
        0xF1, 0x00, 0x00, 0x00, 0x00, 0x00, 0x23, 0x01, 0x00, 0x00, 0x01, 0xAA,
        0x99, 0x88, // more noise
        0xF1, 0x00, 0x00, 0x00, 0x00, 0x00, 0x7F, 0x00, 0x00, 0x00, 0x01, 0xBB,
    ];
    let frames = parse_gvret_frames(&mut buffer, 0);
    assert_eq!(frames.len(), 2);
    assert_eq!(frames[0].frame_id, 0x123);
    assert_eq!(frames[0].bytes, vec![0xAA]);
    assert_eq!(frames[1].frame_id, 0x7F);
    assert_eq!(frames[1].bytes, vec![0xBB]);
}

#[test]
fn test_parse_fd_length_code() {
    // DLC nibble 9 encodes a 12-byte CAN FD payload.
    let mut buffer = vec![
        0xF1, 0x00, 0x00, 0x00, 0x00, 0x00, 0x23, 0x01, 0x00, 0x00, 0x09,
        0, 1, 2, 3, 4, 5, 6, 7, 8, 9, 10, 11,
    ];
    let frames = parse_gvret_frames(&mut buffer, 0);
    assert_eq!(frames.len(), 1);
    assert_eq!(frames[0].dlc, 12);
    assert!(frames[0].is_fd);
}

#[test]
fn test_parse_bus_nibble() {
    // Bus 2 in the upper nibble of the packed bus/dlc byte.
    let mut buffer = vec![
        0xF1, 0x00, 0x00, 0x00, 0x00, 0x00, 0x23, 0x01, 0x00, 0x00, 0x21, 0xEE,
    ];
    let frames = parse_gvret_frames(&mut buffer, 42);
    assert_eq!(frames.len(), 1);
    assert_eq!(frames[0].bus, 2);
    assert_eq!(frames[0].timestamp_us, 42);
}

#[test]
fn test_numbuses_probe_response() {
    let buf = vec![0x00, 0xF1, 0x0C, 0x03, 0xF1, 0x0C, 0x04];
    assert_eq!(parse_numbuses_response(&buf), Some(3));
    assert_eq!(sanitize_bus_count(Some(3)), 3);
    assert_eq!(sanitize_bus_count(Some(0)), 5);
    assert_eq!(sanitize_bus_count(Some(9)), 5);
    assert_eq!(sanitize_bus_count(None), 5);
    let empty = vec![0xF1, 0x0C];
    assert_eq!(parse_numbuses_response(&empty), None);
}

#[test]
fn test_gvret_transmit_encode_matches_wire() {
    // The documented extended-frame transmit record, byte for byte.
    let frame = tx(0x12345678, vec![0xAA, 0xBB], 1, true, false);
    assert_eq!(
        encode_gvret_frame(&frame),
        vec![0xF1, 0x00, 0x78, 0x56, 0x34, 0x92, 0x01, 0x02, 0xAA, 0xBB]
    );
}
