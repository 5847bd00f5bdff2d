//! Multi-source capture: bus mapping, transmit routing, batch ordering
//! and combined capabilities.

use candor_io::frame::{CanTransmitFrame, Frame, Protocol};
use candor_io::multi::{
    apply_bus_mapping, build_transmit_routes, combined_capabilities, route_transmit, BusMapping,
    MergeEngine, SourceConfig,
};

fn can_frame(frame_id: u32, bus: u8, timestamp_us: u64) -> Frame {
    Frame {
        protocol: Protocol::Can,
        timestamp_us,
        frame_id,
        bus,
        dlc: 0,
        bytes: vec![],
        is_extended: false,
        is_fd: false,
        is_rtr: false,
        source_address: None,
        incomplete: None,
        direction: None,
    }
}

fn source(profile_id: &str, kind: &str, mappings: Vec<BusMapping>) -> SourceConfig {
    SourceConfig {
        profile_id: profile_id.to_string(),
        profile_kind: kind.to_string(),
        display_name: profile_id.to_string(),
        bus_mappings: mappings,
    }
}

#[test]
fn test_bus_mapping_rewrites_and_drops() {
    let mappings = vec![
        BusMapping { device_bus: 0, output_bus: 5, enabled: true },
        BusMapping { device_bus: 1, output_bus: 6, enabled: false },
    ];

    // Bus 0 is rewritten to 5.
    let mut f = can_frame(0x100, 0, 0);
    assert!(apply_bus_mapping(&mut f, &mappings));
    assert_eq!(f.bus, 5);

    // Bus 1 has only a disabled mapping: dropped.
    let mut f = can_frame(0x100, 1, 0);
    assert!(!apply_bus_mapping(&mut f, &mappings));
    assert_eq!(f.bus, 1);

    // Bus 2 has no mapping at all: dropped.
    let mut f = can_frame(0x100, 2, 0);
    assert!(!apply_bus_mapping(&mut f, &mappings));
}

#[test]
fn test_bus_mapping_first_enabled_match_wins() {
    let mappings = vec![
        BusMapping { device_bus: 0, output_bus: 3, enabled: false },
        BusMapping { device_bus: 0, output_bus: 4, enabled: true },
        BusMapping { device_bus: 0, output_bus: 9, enabled: true },
    ];
    let mut f = can_frame(0x1, 0, 0);
    assert!(apply_bus_mapping(&mut f, &mappings));
    assert_eq!(f.bus, 4);
}

#[test]
fn test_transmit_routing_two_sources() {
    // Two GVRET sources: one maps its bus 0 to output 0, the other maps
    // its bus 0 to output 1.  A transmit on output bus 1 goes through the
    // second source with the device bus rewritten to 0.
    let sources = vec![
        source("a", "gvret_tcp", vec![BusMapping { device_bus: 0, output_bus: 0, enabled: true }]),
        source("b", "gvret_tcp", vec![BusMapping { device_bus: 0, output_bus: 1, enabled: true }]),
    ];
    let routes = build_transmit_routes(&sources);

    let frame = CanTransmitFrame {
        frame_id: 0x123,
        data: vec![0x01],
        bus: 1,
        is_extended: false,
        is_fd: false,
        is_brs: false,
        is_rtr: false,
    };
    let (source_idx, data) = route_transmit(&routes, &frame).unwrap();
    assert_eq!(source_idx, 1);
    // The encoded GVRET record carries device bus 0, not output bus 1.
    assert_eq!(data[6], 0x00);

    // A bus no source maps is a configuration error.
    let unrouted = CanTransmitFrame { bus: 7, ..frame };
    assert!(route_transmit(&routes, &unrouted).is_err());
}

#[test]
fn test_transmit_routing_slcan_encoding() {
    let sources = vec![
        source("s", "slcan", vec![BusMapping { device_bus: 0, output_bus: 2, enabled: true }]),
    ];
    let routes = build_transmit_routes(&sources);
    let frame = CanTransmitFrame {
        frame_id: 0x123,
        data: vec![0xAA],
        bus: 2,
        is_extended: false,
        is_fd: false,
        is_brs: false,
        is_rtr: false,
    };
    let (idx, data) = route_transmit(&routes, &frame).unwrap();
    assert_eq!(idx, 0);
    assert_eq!(data, b"t1231AA\r".to_vec());
}

#[test]
fn test_merge_engine_batches_sorted() {
    let mut engine = MergeEngine::new(2);
    engine.on_frames(vec![can_frame(1, 0, 300), can_frame(2, 0, 100)]);
    engine.on_frames(vec![can_frame(3, 0, 200)]);
    assert_eq!(engine.pending_len(), 3);
    assert!(engine.should_flush(50));
    assert!(!engine.should_flush(0));

    let batch = engine.take_batch();
    assert_eq!(engine.pending_len(), 0);
    let times: Vec<u64> = batch.iter().map(|f| f.timestamp_us).collect();
    assert_eq!(times, vec![100, 200, 300]);

    assert!(!engine.is_done());
    engine.on_source_ended();
    engine.on_source_ended();
    assert!(engine.is_done());
}

#[test]
fn test_combined_capabilities_buses() {
    let sources = vec![
        source("a", "gvret_tcp", vec![
            BusMapping { device_bus: 0, output_bus: 4, enabled: true },
            BusMapping { device_bus: 1, output_bus: 2, enabled: true },
            BusMapping { device_bus: 2, output_bus: 9, enabled: false },
        ]),
        source("b", "slcan", vec![BusMapping { device_bus: 0, output_bus: 0, enabled: true }]),
    ];
    let caps = combined_capabilities(&sources);
    assert_eq!(caps.available_buses, vec![0, 2, 4]);
    assert!(caps.can_transmit);
    assert!(!caps.can_pause);
    assert!(caps.is_realtime);

    let none = combined_capabilities(&vec![]);
    assert!(none.available_buses.is_empty());
    assert!(!none.can_transmit);
}
