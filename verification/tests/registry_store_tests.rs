//! Profile registry exclusivity and the buffer store.

use candor_io::buffer_store::{BufferStore, BufferType};
use candor_io::frame::{Frame, Protocol};
use candor_io::registry::{is_single_handle_kind, ProfileRegistry};

fn frame_at(frame_id: u32, timestamp_us: u64) -> Frame {
    Frame {
        protocol: Protocol::Can,
        timestamp_us,
        frame_id,
        bus: 0,
        dlc: 0,
        bytes: vec![],
        is_extended: false,
        is_fd: false,
        is_rtr: false,
        source_address: None,
        incomplete: None,
        direction: None,
    }
}

#[test]
fn test_single_handle_exclusivity() {
    let mut registry = ProfileRegistry::new();

    // First session takes the slcan profile.
    assert!(registry.can_use_profile("p1", "slcan").is_ok());
    registry.register_usage("p1", "session-a");

    // A second session may not take the same slcan profile.
    assert!(registry.can_use_profile("p1", "slcan").is_err());

    // Non-single-handle kinds always may, even while registered.
    registry.register_usage("p2", "session-b");
    assert!(registry.can_use_profile("p2", "gvret_tcp").is_ok());

    // After the first session stops, the profile is free again.
    registry.unregister_usage("p1");
    assert!(registry.can_use_profile("p1", "slcan").is_ok());
}

#[test]
fn test_registry_tracks_sessions() {
    let mut registry = ProfileRegistry::new();
    registry.register_usage("p1", "session-a");
    registry.register_usage("p1", "session-b"); // replaces
    let usage = registry.get_usage("p1").unwrap();
    assert_eq!(usage.session_id, "session-b");
    assert!(registry.get_usage("p9").is_none());
}

#[test]
fn test_single_handle_kinds() {
    assert!(is_single_handle_kind("slcan"));
    assert!(is_single_handle_kind("serial"));
    assert!(!is_single_handle_kind("gvret_tcp"));
    assert!(!is_single_handle_kind("gs_usb"));
    assert!(!is_single_handle_kind("socketcan"));
    assert!(!is_single_handle_kind("buffer"));
}

#[test]
fn test_buffer_store_create_append_finalize() {
    let mut store = BufferStore::new();
    assert!(!store.has_data());

    let id = store.create_buffer(BufferType::Frames, "capture".to_string());
    assert!(store.get_buffer_type(&id) == Some(BufferType::Frames));
    assert!(!store.has_data());

    // Appends through the active buffer and by id both land.
    assert!(store.append_frames(vec![frame_at(1, 100), frame_at(2, 50)]));
    assert!(store.append_frames_to_buffer(&id, vec![frame_at(3, 200)]));
    assert!(store.has_data());
    assert_eq!(store.get_frames(&id).unwrap().len(), 3);

    let meta = store.finalize_buffer().unwrap();
    assert_eq!(meta.count, 3);
    assert_eq!(meta.start_time_us, Some(50));
    assert_eq!(meta.end_time_us, Some(200));

    // The buffer is sealed: further appends are refused, and nothing is
    // active any more.
    assert!(!store.append_frames_to_buffer(&id, vec![frame_at(4, 300)]));
    assert!(!store.append_frames(vec![frame_at(4, 300)]));
    assert_eq!(store.get_frames(&id).unwrap().len(), 3);
}

#[test]
fn test_buffer_store_refill_and_inactive() {
    let mut store = BufferStore::new();
    let bytes_id = store.create_buffer_inactive(
        BufferType::Bytes,
        "raw".to_string(),
    );
    let frames_id = store.create_buffer(BufferType::Frames, "frames".to_string());
    assert_ne!(bytes_id, frames_id);

    assert!(store.append_raw_bytes_to_buffer(
        &bytes_id,
        vec![candor_io::frame::TimestampedByte { byte: 0x41, timestamp_us: 7 }],
    ));
    assert_eq!(store.get_buffer_bytes(&bytes_id).unwrap().len(), 1);
    // A frames call against a bytes buffer is refused.
    assert!(!store.append_frames_to_buffer(&bytes_id, vec![frame_at(1, 1)]));

    assert!(store.append_frames_to_buffer(&frames_id, vec![frame_at(1, 1), frame_at(2, 2)]));
    assert!(store.clear_and_refill_buffer(&frames_id, vec![frame_at(9, 9)]));
    let frames = store.get_frames(&frames_id).unwrap();
    assert_eq!(frames.len(), 1);
    assert_eq!(frames[0].frame_id, 9);
}

#[test]
fn test_buffer_store_new_active_seals_predecessor() {
    let mut store = BufferStore::new();
    let first = store.create_buffer(BufferType::Frames, "first".to_string());
    assert!(store.append_frames(vec![frame_at(1, 10)]));

    // A new active frames buffer seals the first: appends to it are
    // refused, and the active append target is the new buffer.
    let second = store.create_buffer(BufferType::Frames, "second".to_string());
    assert!(!store.append_frames_to_buffer(&first, vec![frame_at(2, 20)]));
    assert_eq!(store.get_frames(&first).unwrap().len(), 1);
    assert!(store.append_frames(vec![frame_at(3, 30)]));
    assert_eq!(store.get_frames(&second).unwrap().len(), 1);

    // A byte buffer is of the other type and does not seal it.
    let bytes_id = store.create_buffer(BufferType::Bytes, "raw".to_string());
    assert!(store.append_frames(vec![frame_at(4, 40)]));
    assert_eq!(store.get_frames(&second).unwrap().len(), 2);
    assert!(store.append_raw_bytes_to_buffer(
        &bytes_id,
        vec![candor_io::frame::TimestampedByte { byte: 1, timestamp_us: 5 }],
    ));
}
