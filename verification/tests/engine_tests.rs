//! Stream engines: GVRET buffering with limits and overrides, slcan line
//! assembly, the serial engine, and the gs_usb and SocketCAN records.

use candor_io::engine::{GvretEngine, SerialEngine, SlcanEngine, SlcanLineAssembler};
use candor_io::frame::CanTransmitFrame;
use candor_io::framer::{FramingEncoding, FrameIdConfig};
use candor_io::gs_usb::{
    encode_gs_usb_frame, gs_usb_bittiming_record, gs_usb_host_format_record, gs_usb_mode_record,
    parse_gs_usb_host_frame,
};
use candor_io::engine::apply_framing;
use candor_io::frame::TimestampedByte;
use candor_io::socketcan_dev::{convert_socketcan_frame, decode_socketcan_record, encode_socketcan_frame};

#[test]
fn test_gvret_engine_buffers_partial_records() {
    let mut engine = GvretEngine::new(None, None);
    // A record split across two reads parses once it completes.
    let first = engine.on_bytes(&[0xF1, 0x00, 0x00, 0x00, 0x00, 0x00, 0x23], 1);
    assert!(first.is_empty());
    let second = engine.on_bytes(&[0x01, 0x00, 0x00, 0x01, 0xAA], 2);
    assert_eq!(second.len(), 1);
    assert_eq!(second[0].frame_id, 0x123);
    assert_eq!(second[0].bytes, vec![0xAA]);
    assert_eq!(second[0].timestamp_us, 2);
}

#[test]
fn test_gvret_engine_override_and_limit() {
    let mut engine = GvretEngine::new(Some(3), Some(1));
    let record = [
        0xF1, 0x00, 0x00, 0x00, 0x00, 0x00, 0x23, 0x01, 0x00, 0x00, 0x01, 0xAA,
    ];
    let mut wire = Vec::new();
    wire.extend_from_slice(&record);
    wire.extend_from_slice(&record);
    let frames = engine.on_bytes(&wire, 0);
    // Limit 1: only the first record is delivered, on the forced bus.
    assert_eq!(frames.len(), 1);
    assert_eq!(frames[0].bus, 3);
    assert!(engine.reached_limit());
    assert!(engine.on_bytes(&record, 0).is_empty());
}

#[test]
fn test_slcan_line_assembly() {
    let mut assembler = SlcanLineAssembler::new();
    let lines = assembler.feed(b"t1231AA\rt45");
    assert_eq!(lines.len(), 1);
    assert_eq!(lines[0], b"t1231AA".to_vec());
    // The bell discards the pending line; new input starts fresh.
    let lines = assembler.feed(&[0x07]);
    assert!(lines.is_empty());
    let lines = assembler.feed(b"t4562BBCC\r");
    assert_eq!(lines.len(), 1);
    assert_eq!(lines[0], b"t4562BBCC".to_vec());
}

#[test]
fn test_slcan_engine_parses_lines() {
    let mut engine = SlcanEngine::new(Some(2), None);
    let frames = engine.on_bytes(b"t1231AA\rnoise\rT123456780\r", 5);
    assert_eq!(frames.len(), 2);
    assert_eq!(frames[0].frame_id, 0x123);
    assert_eq!(frames[0].bus, 2);
    assert_eq!(frames[0].timestamp_us, 5);
    assert_eq!(frames[1].frame_id, 0x12345678);
    assert!(frames[1].is_extended);
    assert_eq!(engine.total_frames, 2);
}

#[test]
fn test_serial_engine_raw_and_framed() {
    // Raw mode: bytes pass through with timestamps, no frames.
    let mut engine = SerialEngine::new(None, None, None, 0, true);
    let (raw, frames) = engine.on_bytes(&[0x41, 0x42], 9, false);
    assert_eq!(raw.len(), 2);
    assert_eq!(raw[0].byte, 0x41);
    assert_eq!(raw[0].timestamp_us, 9);
    assert!(frames.is_empty());

    // Paused: everything is discarded.
    let (raw, frames) = engine.on_bytes(&[0x43], 9, true);
    assert!(raw.is_empty() && frames.is_empty());

    // SLIP framing with identifier extraction from the first byte.
    let id_cfg = FrameIdConfig { start_byte: 0, num_bytes: 1, big_endian: true };
    let mut engine = SerialEngine::new(Some(FramingEncoding::Slip), Some(id_cfg), None, 2, false);
    let (raw, frames) = engine.on_bytes(&[0xC0, 0x11, 0x22, 0x33, 0xC0, 0x44, 0xC0], 7, false);
    assert!(raw.is_empty()); // raw emission off
    // The second frame (one byte) falls under the minimum length.
    assert_eq!(frames.len(), 1);
    assert_eq!(frames[0].bytes, vec![0x11, 0x22, 0x33]);
    assert_eq!(frames[0].frame_id, 0x11);
    assert_eq!(frames[0].dlc, 3);

    // Trailing bytes flush as an incomplete frame.
    let (_, frames) = engine.on_bytes(&[0x55, 0x66], 8, false);
    assert!(frames.is_empty());
    let flushed = engine.flush(8).unwrap();
    assert_eq!(flushed.bytes, vec![0x55, 0x66]);
    assert_eq!(flushed.incomplete, Some(true));
}

#[test]
fn test_gs_usb_records() {
    let frame = CanTransmitFrame {
        frame_id: 0x123,
        data: vec![0xAA, 0xBB],
        bus: 0,
        is_extended: false,
        is_fd: false,
        is_brs: false,
        is_rtr: false,
    };
    let record = encode_gs_usb_frame(&frame, 0);
    assert_eq!(record.len(), 20);
    assert_eq!(&record[0..4], &[0x00, 0x00, 0x00, 0x00]); // echo id 0
    assert_eq!(&record[4..8], &[0x23, 0x01, 0x00, 0x00]); // identifier LE
    assert_eq!(record[8], 2); // dlc
    assert_eq!(&record[12..14], &[0xAA, 0xBB]);

    // A received frame parses back; the RX echo id marks received traffic.
    let mut rx = record.clone();
    rx[0] = 0xFF;
    rx[1] = 0xFF;
    rx[2] = 0xFF;
    rx[3] = 0xFF;
    let parsed = parse_gs_usb_host_frame(&rx, 4).unwrap();
    assert_eq!(parsed.frame_id, 0x123);
    assert_eq!(parsed.bytes, vec![0xAA, 0xBB]);
    assert_eq!(parsed.timestamp_us, 4);

    // The original record is a transmit echo and is dropped.
    assert!(parse_gs_usb_host_frame(&record, 4).is_none());

    assert_eq!(gs_usb_host_format_record(), vec![0xEF, 0xBE, 0x00, 0x00]);
    let timing = gs_usb_bittiming_record(500_000).unwrap();
    assert_eq!(timing.len(), 20);
    assert_eq!(&timing[16..20], &[6, 0, 0, 0]); // prescaler 6 at 500 kbit/s
    assert!(gs_usb_bittiming_record(300_000).is_err());

    let mode = gs_usb_mode_record(true, true);
    assert_eq!(mode, vec![1, 0, 0, 0, 1, 0, 0, 0]);
    let stop = gs_usb_mode_record(false, false);
    assert_eq!(stop, vec![0, 0, 0, 0, 0, 0, 0, 0]);
}

#[test]
fn test_socketcan_records() {
    let frame = CanTransmitFrame {
        frame_id: 0x123,
        data: vec![0xDE, 0xAD],
        bus: 0,
        is_extended: false,
        is_fd: false,
        is_brs: false,
        is_rtr: false,
    };
    let record = encode_socketcan_frame(&frame);
    assert_eq!(record.len(), 16);
    assert_eq!(&record[0..4], &[0x23, 0x01, 0x00, 0x00]);
    assert_eq!(record[4], 2);
    assert_eq!(&record[8..10], &[0xDE, 0xAD]);

    // An extended remote frame sets both flag bits.
    let frame = CanTransmitFrame {
        frame_id: 0x12345678,
        data: vec![],
        bus: 0,
        is_extended: true,
        is_fd: false,
        is_brs: false,
        is_rtr: true,
    };
    let record = encode_socketcan_frame(&frame);
    assert_eq!(&record[0..4], &[0x78, 0x56, 0x34, 0xD2]);

    // Conversion of a received kernel frame derives the flags.
    let data = vec![0x11, 0x22, 0x33, 0x44, 0x55, 0x66, 0x77, 0x88];
    let f = convert_socketcan_frame(0x8000_0123, 3, &data, 6, Some(4));
    assert_eq!(f.frame_id, 0x123);
    assert!(f.is_extended);
    assert!(!f.is_rtr);
    assert_eq!(f.bus, 4);
    assert_eq!(f.bytes, vec![0x11, 0x22, 0x33]);
    assert_eq!(f.timestamp_us, 6);

    let rtr = convert_socketcan_frame(0x4000_0123, 2, &data, 6, None);
    assert!(rtr.is_rtr);
    assert!(rtr.bytes.is_empty());
    assert_eq!(rtr.dlc, 2);
}

#[test]
fn test_apply_framing_to_captured_bytes() {
    // "AB<LF>C<LF>" captured with per-byte timestamps.
    let bytes: Vec<TimestampedByte> = [0x41u8, 0x42, 0x0A, 0x43, 0x0A]
        .iter()
        .enumerate()
        .map(|(i, b)| TimestampedByte { byte: *b, timestamp_us: 1000 + i as u64 })
        .collect();
    let frames = apply_framing(
        &bytes,
        FramingEncoding::Delimiter { delimiter: vec![0x0A], max_length: 64, include_delimiter: false },
        1,
        None,
        None,
    );
    assert_eq!(frames.len(), 2);
    assert_eq!(frames[0].bytes, vec![0x41, 0x42]);
    assert_eq!(frames[0].timestamp_us, 1000); // first byte of the frame
    assert_eq!(frames[1].bytes, vec![0x43]);
    assert_eq!(frames[1].timestamp_us, 1003); // first byte after the delimiter
    assert_eq!(frames[0].frame_id, 0); // running index fallback
    assert_eq!(frames[1].frame_id, 1);
}

#[test]
fn test_socketcan_record_decode_round_trip() {
    // Encoding then decoding hands the kernel exactly the frame's fields.
    let frame = CanTransmitFrame {
        frame_id: 0x12345678,
        data: vec![0xAB, 0xCD, 0xEF],
        bus: 0,
        is_extended: true,
        is_fd: false,
        is_brs: false,
        is_rtr: false,
    };
    let record = encode_socketcan_frame(&frame);
    let (raw_id, extended, payload) = decode_socketcan_record(&record);
    assert_eq!(raw_id, 0x12345678);
    assert!(extended);
    assert_eq!(payload, vec![0xAB, 0xCD, 0xEF]);

    let frame = CanTransmitFrame { frame_id: 0x123, is_extended: false, ..frame };
    let record = encode_socketcan_frame(&frame);
    let (raw_id, extended, payload) = decode_socketcan_record(&record);
    assert_eq!(raw_id, 0x123);
    assert!(!extended);
    assert_eq!(payload, vec![0xAB, 0xCD, 0xEF]);
}
