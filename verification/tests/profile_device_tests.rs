//! Profile parsing, device lifecycles, probe helpers, the connection
//! string builder and the payload diff.

use candor_io::devices::{
    filter_probe_response, slcan_setup_commands, stream_ended_payload, BufferReader, SlcanConfig,
    SlcanReader,
};
use candor_io::frame::{CanTransmitFrame, IOState};
use candor_io::profile::{
    find_profile, parity_from_str, parse_profile_for_source, ConnValue, Parity, Profile,
};
use candor_io::query::{build_connection_string, changed_indices};

fn profile(id: &str, kind: &str, connection: Vec<(&str, ConnValue)>) -> Profile {
    Profile {
        id: id.to_string(),
        kind: kind.to_string(),
        name: id.to_string(),
        connection: connection.into_iter().map(|(k, v)| (k.to_string(), v)).collect(),
    }
}

#[test]
fn test_parity_default() {
    assert_eq!(Parity::default(), Parity::Disabled);
}

#[test]
fn test_parity_from_str() {
    assert_eq!(parity_from_str("odd"), Parity::Odd);
    assert_eq!(parity_from_str("even"), Parity::Even);
    assert_eq!(parity_from_str("none"), Parity::Disabled);
    assert_eq!(parity_from_str("weird"), Parity::Disabled);
}

#[test]
fn test_parse_profile_for_source_defaults() {
    let p = profile("sp", "serial", vec![("port", ConnValue::Text("/dev/ttyUSB0".to_string()))]);
    let cfg = parse_profile_for_source(&p, None, None, None, None, None).unwrap();
    assert_eq!(cfg.port, "/dev/ttyUSB0");
    assert_eq!(cfg.baud_rate, 115200);
    assert_eq!(cfg.data_bits, 8);
    assert_eq!(cfg.stop_bits, 1);
    assert_eq!(cfg.parity, Parity::Disabled);
    assert_eq!(cfg.min_frame_length, 0);
    assert!(cfg.emit_raw_bytes); // raw framing implies raw bytes

    // A profile without a port parses to nothing.
    let p = profile("sp", "serial", vec![]);
    assert!(parse_profile_for_source(&p, None, None, None, None, None).is_none());
}

#[test]
fn test_parse_profile_for_source_overrides() {
    let p = profile(
        "sp",
        "serial",
        vec![
            ("port", ConnValue::Text("COM3".to_string())),
            ("baud_rate", ConnValue::Int(9600)),
            ("data_bits", ConnValue::Int(7)),
            ("stop_bits", ConnValue::Int(2)),
            ("parity", ConnValue::Text("even".to_string())),
            ("modbus_validate_crc", ConnValue::Flag(false)),
        ],
    );
    let cfg = parse_profile_for_source(&p, Some("modbus_rtu"), None, None, Some(4), None)
        .unwrap();
    assert_eq!(cfg.baud_rate, 9600);
    assert_eq!(cfg.data_bits, 7);
    assert_eq!(cfg.stop_bits, 2);
    assert_eq!(cfg.parity, Parity::Even);
    assert_eq!(cfg.min_frame_length, 4);
    assert!(!cfg.emit_raw_bytes);
    match cfg.framing_encoding {
        candor_io::framer::FramingEncoding::ModbusRtu { device_address, validate_crc } => {
            assert_eq!(device_address, None);
            assert!(!validate_crc);
        }
        _ => panic!("expected Modbus framing"),
    }
}

#[test]
fn test_find_profile_by_id() {
    let profiles = vec![
        profile("a", "slcan", vec![]),
        profile("b", "gvret_tcp", vec![]),
    ];
    assert_eq!(find_profile(&profiles, "b").unwrap().kind, "gvret_tcp");
    assert!(find_profile(&profiles, "c").is_none());
}

#[test]
fn test_build_connection_string_defaults_and_password() {
    let p = profile("db", "postgres", vec![]);
    assert_eq!(
        build_connection_string(&p, None),
        "host=localhost port=5432 dbname=candor user=postgres sslmode=prefer"
    );

    let p = profile(
        "db",
        "postgres",
        vec![
            ("host", ConnValue::Text("10.0.0.2".to_string())),
            ("port", ConnValue::Int(5433)),
            ("database", ConnValue::Text("traffic".to_string())),
            ("username", ConnValue::Text("reader".to_string())),
            ("sslmode", ConnValue::Text("require".to_string())),
        ],
    );
    assert_eq!(
        build_connection_string(&p, Some("SECRET-REDACTED".to_string())),
        "host=10.0.0.2 port=5433 dbname=traffic user=reader sslmode=require password=SECRET-REDACTED"
    );
}

#[test]
fn test_changed_indices_diff() {
    assert_eq!(
        changed_indices(&vec![1, 2, 3, 4], &vec![1, 9, 3, 7]),
        vec![1, 3]
    );
    // The shorter payload reads as zero-padded.
    assert_eq!(changed_indices(&vec![1, 2], &vec![1, 2, 5]), vec![2]);
    assert_eq!(changed_indices(&vec![], &vec![]), Vec::<usize>::new());
}

#[test]
fn test_slcan_setup_command_sequence() {
    let cmds = slcan_setup_commands(500_000, false).unwrap();
    assert_eq!(cmds, vec!["C\r", "S6\r", "M0\r", "O\r"]);
    let cmds = slcan_setup_commands(125_000, true).unwrap();
    assert_eq!(cmds, vec!["C\r", "S4\r", "M1\r", "O\r"]);
    assert!(slcan_setup_commands(123_456, false).is_err());
}

fn slcan_config(silent: bool) -> SlcanConfig {
    SlcanConfig {
        port: "/dev/ttyACM0".to_string(),
        baud_rate: 115200,
        bitrate: 500_000,
        silent_mode: silent,
        limit: None,
        display_name: None,
        data_bits: 8,
        stop_bits: 1,
        parity: Parity::Disabled,
        bus_override: None,
    }
}

#[test]
fn test_slcan_reader_lifecycle_and_silent_gate() {
    let mut reader = SlcanReader::new("s1".to_string(), slcan_config(false));
    assert_eq!(reader.state, IOState::Stopped);
    assert!(reader.can_transmit());
    assert!(reader.capabilities().can_transmit);

    assert!(reader.start().is_ok());
    assert_eq!(reader.state, IOState::Running);
    assert!(reader.start().is_err()); // already running
    reader.stop();
    assert_eq!(reader.state, IOState::Stopped);

    let frame = CanTransmitFrame {
        frame_id: 0x123,
        data: vec![0xAA],
        bus: 0,
        is_extended: false,
        is_fd: false,
        is_brs: false,
        is_rtr: false,
    };
    assert_eq!(reader.prepare_transmit(&frame).unwrap(), b"t1231AA\r".to_vec());

    let silent = SlcanReader::new("s2".to_string(), slcan_config(true));
    assert!(!silent.can_transmit());
    assert!(!silent.capabilities().can_transmit);
    assert!(silent.prepare_transmit(&frame).is_err());
}

#[test]
fn test_buffer_reader_lifecycle() {
    let mut reader = BufferReader::new("s1".to_string(), 1000);
    let caps = reader.capabilities();
    assert!(caps.can_pause && caps.supports_seek && caps.supports_speed_control);
    assert!(!caps.is_realtime);

    assert!(reader.start(false).is_err()); // empty buffer
    let replay = reader.start(true).unwrap();
    assert_eq!(replay.frame_index, 0);
    assert!(reader.start(true).is_err()); // already running

    assert!(reader.pause().is_ok());
    assert!(reader.pause().is_err());
    assert!(reader.resume().is_ok());
    assert!(reader.resume().is_err());

    assert!(reader.set_speed(-5).is_err());
    assert!(reader.set_speed(2000).is_ok());
    reader.seek(1_000_000);
    assert_eq!(reader.seek_target_us, Some(1_000_000));

    reader.stop();
    assert_eq!(reader.state, IOState::Stopped);
    assert!(reader.control.cancel_flag);
}

#[test]
fn test_stream_ended_payload_from_metadata() {
    let mut store = candor_io::buffer_store::BufferStore::new();
    store.create_buffer(candor_io::buffer_store::BufferType::Frames, "c".to_string());
    let meta = store.finalize_buffer().unwrap();
    let payload = stream_ended_payload("complete".to_string(), Some(&meta));
    assert_eq!(payload.reason, "complete");
    assert!(!payload.buffer_available); // empty buffer
    assert_eq!(payload.count, 0);
    assert_eq!(payload.buffer_type.as_deref(), Some("frames"));

    let payload = stream_ended_payload("error".to_string(), None);
    assert!(!payload.buffer_available);
    assert!(payload.buffer_id.is_none());
}

#[test]
fn test_filter_probe_response() {
    // A version reply with stray unprintable noise.
    let (bell, text) = filter_probe_response(&vec![0x01, b'V', b'1', b'0', b'1', b'3', 0x0D]);
    assert!(!bell);
    assert_eq!(text.as_deref(), Some("V1013\r"));

    // The bell is the device's error response and wins.
    let (bell, text) = filter_probe_response(&vec![b'V', 0x07, b'1']);
    assert!(bell);
    assert!(text.is_none());
}
