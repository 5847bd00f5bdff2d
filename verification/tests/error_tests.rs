//! Error model: rendering, accessors, and OS error classification.

use candor_io::error::IoError;

#[test]
fn test_connection_error_display() {
    let err = IoError::connection("gvret_tcp(192.168.1.1:23)", "connection refused");
    assert_eq!(
        err.to_string(),
        "[gvret_tcp(192.168.1.1:23)] connection failed: connection refused"
    );
}

#[test]
fn test_timeout_error_display() {
    let err = IoError::timeout("slcan(/dev/ttyUSB0)", "read");
    assert_eq!(err.to_string(), "[slcan(/dev/ttyUSB0)] read timed out");
}

#[test]
fn test_protocol_error_display() {
    let err = IoError::protocol("gvret_usb", "invalid frame format");
    assert_eq!(err.to_string(), "[gvret_usb] protocol error: invalid frame format");
}

#[test]
fn test_configuration_error_display() {
    let err = IoError::configuration("invalid bitrate 123456");
    assert_eq!(err.to_string(), "configuration error: invalid bitrate 123456");
}

#[test]
fn test_device_not_found_display() {
    let err = IoError::not_found("gs_usb(1:5)");
    assert_eq!(err.to_string(), "[gs_usb(1:5)] device not found");
}

#[test]
fn test_into_string_conversion() {
    let err = IoError::timeout("device", "connect");
    let s: String = err.to_string();
    assert_eq!(s, "[device] connect timed out");
}

#[test]
fn test_device_accessor() {
    let err = IoError::connection("mydevice", "failed");
    assert_eq!(err.device(), Some("mydevice"));

    let err = IoError::configuration("invalid");
    assert_eq!(err.device(), None);
}

#[test]
fn test_from_io_error_timeout() {
    let io_err = std::io::Error::new(std::io::ErrorKind::TimedOut, "timed out");
    let err = IoError::from_io_error("device", "read", io_err);
    assert!(matches!(err, IoError::Timeout { .. }));
}

#[test]
fn test_from_io_error_not_found() {
    let io_err = std::io::Error::new(std::io::ErrorKind::NotFound, "not found");
    let err = IoError::from_io_error("device", "open", io_err);
    assert!(matches!(err, IoError::DeviceNotFound { .. }));
}

#[test]
fn test_from_io_error_connection() {
    let io_err = std::io::Error::new(std::io::ErrorKind::ConnectionRefused, "refused");
    let err = IoError::from_io_error("device", "connect", io_err);
    assert!(matches!(err, IoError::Connection { .. }));
}

#[test]
fn test_transmission_and_busy_display() {
    let err = IoError::transmission("gvret_tcp", "channel full");
    assert_eq!(err.to_string(), "[gvret_tcp] transmission failed: channel full");
    let err = IoError::busy("slcan(/dev/ttyUSB0)");
    assert_eq!(err.to_string(), "[slcan(/dev/ttyUSB0)] device is busy");
    let err = IoError::read("gs_usb", "endpoint stall");
    assert_eq!(err.to_string(), "[gs_usb] read error: endpoint stall");
    let err = IoError::other("dev", "odd state");
    assert_eq!(err.to_string(), "[dev] odd state");
    let err = IoError::other_no_device("odd state");
    assert_eq!(err.to_string(), "odd state");
}

#[test]
fn test_from_io_error_busy_and_other() {
    let io_err = std::io::Error::new(std::io::ErrorKind::PermissionDenied, "denied");
    let err = IoError::from_io_error("device", "open", io_err);
    assert!(matches!(err, IoError::DeviceBusy { .. }));

    let io_err = std::io::Error::new(std::io::ErrorKind::Unsupported, "nope");
    let err = IoError::from_io_error("device", "ioctl", io_err);
    assert!(matches!(err, IoError::Other { .. }));
    assert_eq!(err.to_string(), "[device] ioctl: nope");
}
