//! Structured I/O errors with device context, and the classification of
//! OS-level errors into them.

use vstd::prelude::*;

use vstd::string::StringExecFns;

verus! {

/// Structured I/O error with device context.
#[derive(Debug, Clone, PartialEq, Eq)]
pub enum IoError {
    /// Connection failure (TCP connect, serial open, USB claim).
    Connection {
        /// Device description.
        device: String,
        /// Failure detail.
        details: String,
    },
    /// Operation timed out.
    Timeout {
        /// Device description.
        device: String,
        /// The operation that timed out.
        operation: String,
    },
    /// Protocol-level error (invalid response, parse failure, framing).
    Protocol {
        /// Device description.
        device: String,
        /// Failure detail.
        details: String,
    },
    /// Transmission failure (write error, channel closed).
    Transmission {
        /// Device description.
        device: String,
        /// Failure detail.
        details: String,
    },
    /// Configuration error (invalid bitrate, unsupported option).
    Configuration {
        /// Failure detail.
        details: String,
    },
    /// Device not found (USB enumeration, serial port not present).
    DeviceNotFound {
        /// Device description.
        device: String,
    },
    /// Device busy or locked by another session.
    DeviceBusy {
        /// Device description.
        device: String,
    },
    /// Read error during streaming.
    Read {
        /// Device description.
        device: String,
        /// Failure detail.
        details: String,
    },
    /// Anything that fits no other kind.
    Other {
        /// Device description, when one is known.
        device: Option<String>,
        /// Failure detail.
        details: String,
    },
}

/// The rendered message of an error:
/// `"[<device>] <kind>: <details>"`, or `"configuration error: <details>"`
/// for the device-less kind.
pub open spec fn spec_message(e: IoError) -> Seq<char> {
    match e {
        IoError::Connection { device, details } => "["@ + device@ + "] connection failed: "@
            + details@,
        IoError::Timeout { device, operation } => "["@ + device@ + "] "@ + operation@
            + " timed out"@,
        IoError::Protocol { device, details } => "["@ + device@ + "] protocol error: "@
            + details@,
        IoError::Transmission { device, details } => "["@ + device@
            + "] transmission failed: "@ + details@,
        IoError::Configuration { details } => "configuration error: "@ + details@,
        IoError::DeviceNotFound { device } => "["@ + device@ + "] device not found"@,
        IoError::DeviceBusy { device } => "["@ + device@ + "] device is busy"@,
        IoError::Read { device, details } => "["@ + device@ + "] read error: "@ + details@,
        IoError::Other { device: Some(d), details } => "["@ + d@ + "] "@ + details@,
        IoError::Other { device: None, details } => details@,
    }
}

/// The device an error speaks of, if any.
pub open spec fn spec_device(e: IoError) -> Option<Seq<char>> {
    match e {
        IoError::Connection { device, .. } => Some(device@),
        IoError::Timeout { device, .. } => Some(device@),
        IoError::Protocol { device, .. } => Some(device@),
        IoError::Transmission { device, .. } => Some(device@),
        IoError::Configuration { .. } => None,
        IoError::DeviceNotFound { device } => Some(device@),
        IoError::DeviceBusy { device } => Some(device@),
        IoError::Read { device, .. } => Some(device@),
        IoError::Other { device: Some(d), .. } => Some(d@),
        IoError::Other { device: None, .. } => None,
    }
}

impl IoError {
    /// A connection error.
    pub fn connection(device: &str, details: &str) -> (r: IoError)
        ensures
            r matches IoError::Connection { device: d, details: t } && d@ == device@ && t@
                == details@,
    {
        IoError::Connection { device: device.to_owned(), details: details.to_owned() }
    }

    /// A timeout error.
    pub fn timeout(device: &str, operation: &str) -> (r: IoError)
        ensures
            r matches IoError::Timeout { device: d, operation: o } && d@ == device@ && o@
                == operation@,
    {
        IoError::Timeout { device: device.to_owned(), operation: operation.to_owned() }
    }

    /// A protocol error.
    pub fn protocol(device: &str, details: &str) -> (r: IoError)
        ensures
            r matches IoError::Protocol { device: d, details: t } && d@ == device@ && t@
                == details@,
    {
        IoError::Protocol { device: device.to_owned(), details: details.to_owned() }
    }

    /// A transmission error.
    pub fn transmission(device: &str, details: &str) -> (r: IoError)
        ensures
            r matches IoError::Transmission { device: d, details: t } && d@ == device@ && t@
                == details@,
    {
        IoError::Transmission { device: device.to_owned(), details: details.to_owned() }
    }

    /// A configuration error.
    pub fn configuration(details: &str) -> (r: IoError)
        ensures
            r matches IoError::Configuration { details: t } && t@ == details@,
    {
        IoError::Configuration { details: details.to_owned() }
    }

    /// A device-not-found error.
    pub fn not_found(device: &str) -> (r: IoError)
        ensures
            r matches IoError::DeviceNotFound { device: d } && d@ == device@,
    {
        IoError::DeviceNotFound { device: device.to_owned() }
    }

    /// A device-busy error.
    pub fn busy(device: &str) -> (r: IoError)
        ensures
            r matches IoError::DeviceBusy { device: d } && d@ == device@,
    {
        IoError::DeviceBusy { device: device.to_owned() }
    }

    /// A read error.
    pub fn read(device: &str, details: &str) -> (r: IoError)
        ensures
            r matches IoError::Read { device: d, details: t } && d@ == device@ && t@
                == details@,
    {
        IoError::Read { device: device.to_owned(), details: details.to_owned() }
    }

    /// A generic error with device context.
    pub fn other(device: &str, details: &str) -> (r: IoError)
        ensures
            r matches IoError::Other { device: d, details: t } && d matches Some(dv) && dv@
                == device@ && t@ == details@,
    {
        IoError::Other { device: Some(device.to_owned()), details: details.to_owned() }
    }

    /// A generic error without device context.
    pub fn other_no_device(details: &str) -> (r: IoError)
        ensures
            r matches IoError::Other { device: d, details: t } && d is None && t@ == details@,
    {
        IoError::Other { device: None, details: details.to_owned() }
    }

    /// The device this error speaks of, if any.
    pub fn device(&self) -> (r: Option<&str>)
        ensures
            match (r, spec_device(*self)) {
                (Some(d), Some(s)) => d@ == s,
                (None, None) => true,
                _ => false,
            },
    {
        match self {
            IoError::Connection { device, .. } => Some(device.as_str()),
            IoError::Timeout { device, .. } => Some(device.as_str()),
            IoError::Protocol { device, .. } => Some(device.as_str()),
            IoError::Transmission { device, .. } => Some(device.as_str()),
            IoError::Configuration { .. } => None,
            IoError::DeviceNotFound { device } => Some(device.as_str()),
            IoError::DeviceBusy { device } => Some(device.as_str()),
            IoError::Read { device, .. } => Some(device.as_str()),
            IoError::Other { device: Some(d), .. } => Some(d.as_str()),
            IoError::Other { device: None, .. } => None,
        }
    }

    /// Renders the error as `"[<device>] <kind>: <details>"`, or
    /// `"configuration error: <details>"` for the device-less kind.
    pub fn to_string(&self) -> (r: String)
        ensures
            r@ == spec_message(*self),
    {
        proof {
            reveal_strlit("[");
            reveal_strlit("] connection failed: ");
            reveal_strlit("] ");
            reveal_strlit(" timed out");
            reveal_strlit("] protocol error: ");
            reveal_strlit("] transmission failed: ");
            reveal_strlit("configuration error: ");
            reveal_strlit("] device not found");
            reveal_strlit("] device is busy");
            reveal_strlit("] read error: ");
        }
        let mut s = String::new();
        match self {
            IoError::Connection { device, details } => {
                s.append("[");
                s.append(device.as_str());
                s.append("] connection failed: ");
                s.append(details.as_str());
            },
            IoError::Timeout { device, operation } => {
                s.append("[");
                s.append(device.as_str());
                s.append("] ");
                s.append(operation.as_str());
                s.append(" timed out");
            },
            IoError::Protocol { device, details } => {
                s.append("[");
                s.append(device.as_str());
                s.append("] protocol error: ");
                s.append(details.as_str());
            },
            IoError::Transmission { device, details } => {
                s.append("[");
                s.append(device.as_str());
                s.append("] transmission failed: ");
                s.append(details.as_str());
            },
            IoError::Configuration { details } => {
                s.append("configuration error: ");
                s.append(details.as_str());
            },
            IoError::DeviceNotFound { device } => {
                s.append("[");
                s.append(device.as_str());
                s.append("] device not found");
            },
            IoError::DeviceBusy { device } => {
                s.append("[");
                s.append(device.as_str());
                s.append("] device is busy");
            },
            IoError::Read { device, details } => {
                s.append("[");
                s.append(device.as_str());
                s.append("] read error: ");
                s.append(details.as_str());
            },
            IoError::Other { device: Some(d), details } => {
                s.append("[");
                s.append(d.as_str());
                s.append("] ");
                s.append(details.as_str());
            },
            IoError::Other { device: None, details } => {
                s.append(details.as_str());
            },
        }
        s
    }
}

/// The classes of OS-level I/O failure the core distinguishes.
#[derive(Clone, Copy, Debug, PartialEq, Eq, Structural)]
pub enum OsErrorClass {
    /// The operation timed out.
    TimedOut,
    /// The operation would have blocked.
    WouldBlock,
    /// The resource does not exist.
    NotFound,
    /// Access was denied.
    PermissionDenied,
    /// The address is already taken.
    AddrInUse,
    /// The resource already exists.
    AlreadyExists,
    /// The peer refused the connection.
    ConnectionRefused,
    /// The peer reset the connection.
    ConnectionReset,
    /// The connection was torn down.
    ConnectionAborted,
    /// No connection is established.
    NotConnected,
    /// Any other kind.
    Unclassified,
}

#[verifier::external_type_specification]
#[verifier::external_body]
pub struct ExStdIoError(std::io::Error);

/// Relies on `std::io::Error::kind`: maps each `ErrorKind` this crate
/// distinguishes to its own class, one arm per kind.
#[verifier::external_body]
fn classify_io_error(err: &std::io::Error) -> OsErrorClass {
    match err.kind() {
        std::io::ErrorKind::TimedOut => OsErrorClass::TimedOut,
        std::io::ErrorKind::WouldBlock => OsErrorClass::WouldBlock,
        std::io::ErrorKind::NotFound => OsErrorClass::NotFound,
        std::io::ErrorKind::PermissionDenied => OsErrorClass::PermissionDenied,
        std::io::ErrorKind::AddrInUse => OsErrorClass::AddrInUse,
        std::io::ErrorKind::AlreadyExists => OsErrorClass::AlreadyExists,
        std::io::ErrorKind::ConnectionRefused => OsErrorClass::ConnectionRefused,
        std::io::ErrorKind::ConnectionReset => OsErrorClass::ConnectionReset,
        std::io::ErrorKind::ConnectionAborted => OsErrorClass::ConnectionAborted,
        std::io::ErrorKind::NotConnected => OsErrorClass::NotConnected,
        _ => OsErrorClass::Unclassified,
    }
}

/// Relies on the `Display` rendering of `std::io::Error` for the failure
/// detail text.
#[verifier::external_body]
fn io_error_message(err: &std::io::Error) -> String {
    err.to_string()
}

/// The error kind an OS error class maps to, per the classification table:
/// timeouts become `Timeout`, `NotFound` becomes `DeviceNotFound`,
/// permission and address conflicts become `DeviceBusy`, connection
/// failures become `Connection`, and the rest become `Other`.
pub fn from_os_class(device: &str, operation: &str, class: OsErrorClass, message: String) -> (r:
    IoError)
    ensures
        spec_device(r) == Some(device@),
        match class {
            OsErrorClass::TimedOut | OsErrorClass::WouldBlock => r matches IoError::Timeout {
                device: d,
                operation: o,
            } && d@ == device@ && o@ == operation@,
            OsErrorClass::NotFound => r matches IoError::DeviceNotFound { device: d } && d@
                == device@,
            OsErrorClass::PermissionDenied | OsErrorClass::AddrInUse
                | OsErrorClass::AlreadyExists => r matches IoError::DeviceBusy { device: d }
                && d@ == device@,
            OsErrorClass::ConnectionRefused | OsErrorClass::ConnectionReset
                | OsErrorClass::ConnectionAborted | OsErrorClass::NotConnected => r matches
                IoError::Connection { device: d, details: t } && d@ == device@ && t@
                == message@,
            OsErrorClass::Unclassified => r matches IoError::Other { device: d, details: t }
                && d matches Some(dv) && dv@ == device@ && t@ == operation@ + ": "@ + message@,
        },
{
    match class {
        OsErrorClass::TimedOut | OsErrorClass::WouldBlock => IoError::timeout(
            device,
            operation,
        ),
        OsErrorClass::NotFound => IoError::not_found(device),
        OsErrorClass::PermissionDenied | OsErrorClass::AddrInUse
            | OsErrorClass::AlreadyExists => IoError::busy(device),
        OsErrorClass::ConnectionRefused | OsErrorClass::ConnectionReset
            | OsErrorClass::ConnectionAborted | OsErrorClass::NotConnected => {
            IoError::Connection { device: device.to_owned(), details: message }
        },
        OsErrorClass::Unclassified => {
            proof {
                reveal_strlit(": ");
            }
            let mut details = operation.to_owned();
            details.append(": ");
            details.append(message.as_str());
            IoError::Other { device: Some(device.to_owned()), details }
        },
    }
}

impl IoError {
    /// Builds an error from an OS-level I/O error, attaching the device
    /// and operation context.  The classification itself is done by the
    /// verified [`from_os_class`]; only reading the kind and message off
    /// the OS error is trusted.
    pub fn from_io_error(device: &str, operation: &str, err: std::io::Error) -> (r: IoError)
        ensures
            spec_device(r) == Some(device@),
    {
        let class = classify_io_error(&err);
        let message = io_error_message(&err);
        from_os_class(device, operation, class, message)
    }
}

} // verus!
