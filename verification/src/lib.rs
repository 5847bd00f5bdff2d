//! Verified I/O core of a CAN-bus instrumentation workbench.
//!
//! The crate normalizes traffic from heterogeneous CAN and serial adapters
//! into one frame model, provides the protocol codecs (GVRET, slcan, gs_usb,
//! SocketCAN, SLIP / Modbus-RTU / delimiter framing), an in-memory buffer
//! store, timeline replay planning, and the multi-source merge and transmit
//! routing rules.  Everything here is ordinary executable Rust whose
//! behaviour is stated in `requires`/`ensures` contracts checked by Verus;
//! the thin I/O shells (sockets, serial ports, event sinks) live outside the
//! library and only hand plain values in and out.

pub mod buffer_store;
pub mod devices;
pub mod engine;
pub mod error;
pub mod frame;
pub mod framer;
pub mod gs_usb;
pub mod gvret;
pub mod multi;
pub mod profile;
pub mod query;
pub mod registry;
pub mod replay;
pub mod slcan;
pub mod socketcan_dev;
pub mod strutil;
pub mod timeline;
