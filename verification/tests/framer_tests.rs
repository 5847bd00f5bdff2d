//! Serial framing: SLIP escaping, Modbus CRC delimitation, delimiter
//! framing, feed determinism, the identifier extractor and the hex
//! delimiter parser.

use candor_io::framer::{
    crc16, extract_frame_id, parse_hex_delimiter, slip_encode, FrameIdConfig, FramingEncoding,
    SerialFramer,
};

#[test]
fn test_slip_escaping_single_frame() {
    // C0 (escaped), DB (escaped), plain A5, then the frame boundary.
    let mut framer = SerialFramer::new(FramingEncoding::Slip);
    let chunks = framer.feed(&[0xC0, 0xDB, 0xDC, 0xDB, 0xDD, 0xA5, 0xC0]);
    assert_eq!(chunks.len(), 1);
    assert_eq!(chunks[0].bytes, vec![0xC0, 0xDB, 0xA5]);
    assert!(!chunks[0].incomplete);
    assert_eq!(chunks[0].crc_valid, None);
}

#[test]
fn test_slip_round_trip() {
    let payload = vec![0xC0, 0xDB, 0xA5, 0x00, 0xDC, 0xDD];
    let wire = slip_encode(&payload);
    let mut framer = SerialFramer::new(FramingEncoding::Slip);
    let chunks = framer.feed(&wire);
    assert_eq!(chunks.len(), 1);
    assert_eq!(chunks[0].bytes, payload);
    assert!(!chunks[0].incomplete);
}

#[test]
fn test_slip_bad_escape_resynchronizes() {
    // An invalid escape partner flushes the accumulation as incomplete.
    let mut framer = SerialFramer::new(FramingEncoding::Slip);
    let chunks = framer.feed(&[0x11, 0xDB, 0x22, 0x33, 0xC0]);
    assert_eq!(chunks.len(), 2);
    assert_eq!(chunks[0].bytes, vec![0x11]);
    assert!(chunks[0].incomplete);
    assert_eq!(chunks[1].bytes, vec![0x22, 0x33]);
    assert!(!chunks[1].incomplete);
}

#[test]
fn test_feed_determinism_byte_at_a_time() {
    // Feeding one byte at a time emits exactly the frames of one big feed.
    let wire = vec![
        0xC0, 0x01, 0x02, 0xC0, 0xDB, 0xDC, 0xC0, 0x03, 0xDB, 0xDD, 0x04, 0xC0, 0x05,
    ];
    let mut all_at_once = SerialFramer::new(FramingEncoding::Slip);
    let batch = all_at_once.feed(&wire);

    let mut one_at_a_time = SerialFramer::new(FramingEncoding::Slip);
    let mut collected = Vec::new();
    for b in &wire {
        collected.extend(one_at_a_time.feed(&[*b]));
    }

    assert_eq!(batch.len(), collected.len());
    for (a, b) in batch.iter().zip(collected.iter()) {
        assert_eq!(a.bytes, b.bytes);
        assert_eq!(a.incomplete, b.incomplete);
        assert_eq!(a.crc_valid, b.crc_valid);
    }
    // And the flush behaviour agrees as well.
    let fa = all_at_once.flush();
    let fb = one_at_a_time.flush();
    assert_eq!(fa.is_some(), fb.is_some());
    if let (Some(fa), Some(fb)) = (fa, fb) {
        assert_eq!(fa.bytes, fb.bytes);
    }
}

#[test]
fn test_modbus_crc_known_pair() {
    // The classic read-holding-registers request and its CRC.
    let frame = vec![0x01, 0x03, 0x00, 0x00, 0x00, 0x01];
    let crc = crc16(&frame);
    assert_eq!(crc & 0xFF, 0x84);
    assert_eq!((crc >> 8) & 0xFF, 0x0A);

    // Appended little-endian, the framer accepts the frame.
    let mut framer = SerialFramer::new(FramingEncoding::ModbusRtu {
        device_address: None,
        validate_crc: true,
    });
    let mut wire = frame.clone();
    wire.push(0x84);
    wire.push(0x0A);
    let chunks = framer.feed(&wire);
    assert_eq!(chunks.len(), 1);
    assert_eq!(chunks[0].bytes, wire);
    assert!(!chunks[0].incomplete);
    assert_eq!(chunks[0].crc_valid, Some(true));
}

#[test]
fn test_modbus_crc_bit_flips_rejected() {
    let mut wire = vec![0x01, 0x03, 0x00, 0x00, 0x00, 0x01, 0x84, 0x0A];
    // Flip one bit in every position in turn: no prefix ever matches its
    // CRC, so the flush reports an invalid frame.
    for byte in 0..wire.len() {
        for bit in 0..8 {
            wire[byte] ^= 1 << bit;
            let mut framer = SerialFramer::new(FramingEncoding::ModbusRtu {
                device_address: None,
                validate_crc: true,
            });
            let chunks = framer.feed(&wire);
            assert!(chunks.is_empty());
            let flushed = framer.flush().unwrap();
            assert_eq!(flushed.crc_valid, Some(false));
            assert!(flushed.incomplete);
            wire[byte] ^= 1 << bit;
        }
    }
}

#[test]
fn test_modbus_device_address_filter() {
    let mut wire = vec![0x01, 0x03, 0x00, 0x00, 0x00, 0x01, 0x84, 0x0A];
    let mut framer = SerialFramer::new(FramingEncoding::ModbusRtu {
        device_address: Some(0x02),
        validate_crc: true,
    });
    // Addressed to device 1; a filter for device 2 drops it.
    assert!(framer.feed(&wire).is_empty());
    assert!(framer.flush().is_none());

    let mut framer = SerialFramer::new(FramingEncoding::ModbusRtu {
        device_address: Some(0x01),
        validate_crc: true,
    });
    let chunks = framer.feed(&mut wire);
    assert_eq!(chunks.len(), 1);
}

#[test]
fn test_delimiter_framing() {
    let mut framer = SerialFramer::new(FramingEncoding::Delimiter {
        delimiter: vec![0x0D, 0x0A],
        max_length: 8,
        include_delimiter: false,
    });
    let chunks = framer.feed(&[0x41, 0x42, 0x0D, 0x0A, 0x43, 0x0D, 0x0A]);
    assert_eq!(chunks.len(), 2);
    assert_eq!(chunks[0].bytes, vec![0x41, 0x42]);
    assert_eq!(chunks[1].bytes, vec![0x43]);

    // The forced split marks the chunk incomplete.
    let mut framer = SerialFramer::new(FramingEncoding::Delimiter {
        delimiter: vec![0x0A],
        max_length: 4,
        include_delimiter: false,
    });
    let chunks = framer.feed(&[1, 2, 3, 4, 5, 0x0A]);
    assert_eq!(chunks.len(), 2);
    assert_eq!(chunks[0].bytes, vec![1, 2, 3, 4]);
    assert!(chunks[0].incomplete);
    assert_eq!(chunks[1].bytes, vec![5]);
    assert!(!chunks[1].incomplete);
}

#[test]
fn test_delimiter_kept_when_requested() {
    let mut framer = SerialFramer::new(FramingEncoding::Delimiter {
        delimiter: vec![0x0A],
        max_length: 64,
        include_delimiter: true,
    });
    let chunks = framer.feed(&[0x58, 0x0A]);
    assert_eq!(chunks.len(), 1);
    assert_eq!(chunks[0].bytes, vec![0x58, 0x0A]);
}

#[test]
fn test_extract_frame_id_windows() {
    let bytes = vec![0x10, 0x20, 0x30, 0x40];
    let one = FrameIdConfig { start_byte: 1, num_bytes: 1, big_endian: true };
    assert_eq!(extract_frame_id(&bytes, &one), Some(0x20));

    let two_be = FrameIdConfig { start_byte: 1, num_bytes: 2, big_endian: true };
    assert_eq!(extract_frame_id(&bytes, &two_be), Some(0x2030));

    let two_le = FrameIdConfig { start_byte: 1, num_bytes: 2, big_endian: false };
    assert_eq!(extract_frame_id(&bytes, &two_le), Some(0x3020));

    let last = FrameIdConfig { start_byte: -1, num_bytes: 1, big_endian: true };
    assert_eq!(extract_frame_id(&bytes, &last), Some(0x40));

    let out_of_range = FrameIdConfig { start_byte: 3, num_bytes: 2, big_endian: true };
    assert_eq!(extract_frame_id(&bytes, &out_of_range), None);

    let too_negative = FrameIdConfig { start_byte: -5, num_bytes: 1, big_endian: true };
    assert_eq!(extract_frame_id(&bytes, &too_negative), None);

    let bad_width = FrameIdConfig { start_byte: 0, num_bytes: 3, big_endian: true };
    assert_eq!(extract_frame_id(&bytes, &bad_width), None);
}

#[test]
fn test_parse_hex_delimiter_strings() {
    assert_eq!(parse_hex_delimiter("0D0A").unwrap(), vec![0x0D, 0x0A]);
    assert_eq!(parse_hex_delimiter("ff").unwrap(), vec![0xFF]);
    assert!(parse_hex_delimiter("0D0").is_err()); // odd length
    assert!(parse_hex_delimiter("zz").is_err()); // not hex
}

#[test]
fn test_hex_rendering_of_bytes() {
    assert_eq!(candor_io::strutil::to_hex_lower(&vec![0xF1, 0x00, 0xAB]), "f100ab");
    assert_eq!(candor_io::strutil::to_hex_lower(&vec![]), "");
}
