//! The GVRET codec as used by the serial transport: the shared parser and
//! encoder behave identically over both transports.

use candor_io::frame::CanTransmitFrame;
use candor_io::gvret::{encode_gvret_frame, parse_gvret_frames};

fn tx(frame_id: u32, data: Vec<u8>, bus: u8, is_extended: bool) -> CanTransmitFrame {
    CanTransmitFrame {
        frame_id,
        data,
        bus,
        is_extended,
        is_fd: false,
        is_brs: false,
        is_rtr: false,
    }
}

#[test]
fn gvret_usb_test_encode_standard_frame() {
    let frame = tx(0x123, vec![0x11, 0x22, 0x33, 0x44], 0, false);
    let encoded = encode_gvret_frame(&frame);

    assert_eq!(encoded[0], 0xF1);
    assert_eq!(encoded[1], 0x00);
    assert_eq!(encoded[2], 0x23);
    assert_eq!(encoded[3], 0x01);
    assert_eq!(encoded[4], 0x00);
    assert_eq!(encoded[5], 0x00);
    assert_eq!(encoded[6], 0x00);
    assert_eq!(encoded[7], 0x04);
    assert_eq!(&encoded[8..], &[0x11, 0x22, 0x33, 0x44]);
}

#[test]
fn gvret_usb_test_encode_extended_frame() {
    let frame = tx(0x12345678, vec![0xAA, 0xBB], 1, true);
    let encoded = encode_gvret_frame(&frame);

    assert_eq!(encoded[0], 0xF1);
    assert_eq!(encoded[1], 0x00);
    assert_eq!(encoded[2], 0x78);
    assert_eq!(encoded[3], 0x56);
    assert_eq!(encoded[4], 0x34);
    assert_eq!(encoded[5], 0x92);
    assert_eq!(encoded[6], 0x01);
    assert_eq!(encoded[7], 0x02);
    assert_eq!(&encoded[8..], &[0xAA, 0xBB]);
}

#[test]
fn gvret_usb_test_encode_empty_frame() {
    let frame = tx(0x7FF, vec![], 0, false);
    let encoded = encode_gvret_frame(&frame);

    assert_eq!(encoded.len(), 8);
    assert_eq!(encoded[0], 0xF1);
    assert_eq!(encoded[1], 0x00);
    assert_eq!(encoded[6], 0x00);
    assert_eq!(encoded[7], 0x00);
}

#[test]
fn gvret_usb_test_parse_single_frame() {
    let mut buffer = vec![
        0xF1, 0x00, 0x00, 0x00, 0x00, 0x00, 0x23, 0x01, 0x00, 0x00, 0x04, 0xAA, 0xBB, 0xCC,
        0xDD,
    ];

    let frames = parse_gvret_frames(&mut buffer, 0);

    assert_eq!(frames.len(), 1);
    let frame = &frames[0];
    assert_eq!(frame.frame_id, 0x123);
    assert_eq!(frame.dlc, 4);
    assert_eq!(frame.bytes, vec![0xAA, 0xBB, 0xCC, 0xDD]);
    assert!(!frame.is_extended);
    assert!(buffer.is_empty());
}

#[test]
fn gvret_usb_test_parse_extended_frame() {
    let mut buffer = vec![
        0xF1, 0x00, 0x00, 0x00, 0x00, 0x00, 0x78, 0x56, 0x34, 0x92, 0x02, 0x11, 0x22,
    ];

    let frames = parse_gvret_frames(&mut buffer, 0);

    assert_eq!(frames.len(), 1);
    let frame = &frames[0];
    assert_eq!(frame.frame_id, 0x12345678);
    assert!(frame.is_extended);
    assert_eq!(frame.bytes, vec![0x11, 0x22]);
}

#[test]
fn gvret_usb_test_parse_skips_control_frames() {
    let mut buffer = vec![
        0xF1, 0x09, 0xDE, 0xAD, 0xF1, 0x00, 0x00, 0x00, 0x00, 0x00, 0x7F, 0x00, 0x00, 0x00,
        0x01, 0xFF,
    ];

    let frames = parse_gvret_frames(&mut buffer, 0);

    assert_eq!(frames.len(), 1);
    let frame = &frames[0];
    assert_eq!(frame.frame_id, 0x7F);
}

#[test]
fn gvret_usb_test_parse_incomplete_frame() {
    let mut buffer = vec![0xF1, 0x00, 0x00, 0x00];

    let frames = parse_gvret_frames(&mut buffer, 0);

    assert!(frames.is_empty());
    assert_eq!(buffer.len(), 4);
}
