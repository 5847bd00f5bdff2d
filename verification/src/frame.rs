//! The universal in-core record types: frames, timestamped bytes,
//! capabilities, device lifecycle states and transmit results.

use vstd::prelude::*;

verus! {

/// Protocol tag carried by every frame.
#[derive(Clone, Copy, Debug, PartialEq, Eq, Structural)]
pub enum Protocol {
    /// A CAN bus frame.
    Can,
    /// A raw or framed serial record.
    Serial,
}

/// Direction marker; only frames the core itself transmitted carry one.
#[derive(Clone, Copy, Debug, PartialEq, Eq, Structural)]
pub enum Direction {
    /// The frame was sent by the core (a transmit echo).
    Tx,
}

/// A single on-bus or on-wire message as normalized by the core.
#[derive(Clone, Debug)]
pub struct Frame {
    /// Protocol family this frame belongs to.
    pub protocol: Protocol,
    /// Host microseconds since the UNIX epoch.
    pub timestamp_us: u64,
    /// 32-bit identifier; lower 11 or 29 bits for CAN.
    pub frame_id: u32,
    /// Logical bus number (post-mapping for multi-source capture).
    pub bus: u8,
    /// Payload length in bytes.
    pub dlc: u8,
    /// Payload.
    pub bytes: Vec<u8>,
    /// Extended (29-bit) identifier flag.
    pub is_extended: bool,
    /// CAN FD frame flag.
    pub is_fd: bool,
    /// Remote transmission request flag.
    pub is_rtr: bool,
    /// Source address extracted by configuration, if any.
    pub source_address: Option<u16>,
    /// Set when the framer could not complete the frame before a flush.
    pub incomplete: Option<bool>,
    /// Set to `Tx` for frames the core transmitted.
    pub direction: Option<Direction>,
}

impl Frame {
    /// Well-formedness of a CAN frame: the payload length matches `dlc`,
    /// classic frames carry at most 8 bytes, FD frames at most 64, remote
    /// frames carry no payload (their `dlc` is the requested length), and
    /// the identifier fits in 11 or 29 bits.
    pub open spec fn can_wf(self) -> bool {
        &&& self.protocol == Protocol::Can
        &&& (!self.is_rtr ==> self.bytes@.len() == self.dlc as int)
        &&& (self.is_rtr ==> self.bytes@.len() == 0)
        &&& (self.is_fd ==> self.dlc <= 64)
        &&& (!self.is_fd ==> self.dlc <= 8)
        &&& (!self.is_extended ==> self.frame_id <= 0x7FF)
        &&& (self.is_extended ==> self.frame_id <= 0x1FFF_FFFF)
    }

    /// Well-formedness of a serial frame: `dlc` mirrors the payload length,
    /// saturated at 255 for oversized delimiter frames.
    pub open spec fn serial_wf(self) -> bool {
        &&& self.protocol == Protocol::Serial
        &&& self.dlc as int == if self.bytes@.len() <= 255 {
            self.bytes@.len() as int
        } else {
            255
        }
    }
}

/// A single captured byte with its own timestamp, for raw serial captures
/// where per-byte timing matters.
#[derive(Clone, Copy, Debug, PartialEq, Eq, Structural)]
pub struct TimestampedByte {
    /// The byte itself.
    pub byte: u8,
    /// Host microseconds since the UNIX epoch at the moment of the read.
    pub timestamp_us: u64,
}

/// An outbound CAN frame as handed to `transmit_frame`.
#[derive(Clone, Debug)]
pub struct CanTransmitFrame {
    /// 32-bit identifier; lower 11 or 29 bits depending on `is_extended`.
    pub frame_id: u32,
    /// Payload to send.
    pub data: Vec<u8>,
    /// Logical bus to send on.
    pub bus: u8,
    /// Extended (29-bit) identifier flag.
    pub is_extended: bool,
    /// CAN FD frame flag.
    pub is_fd: bool,
    /// Bit-rate switch flag (CAN FD).
    pub is_brs: bool,
    /// Remote transmission request flag.
    pub is_rtr: bool,
}

/// Static capability record exposed by every device.
#[derive(Clone, Debug)]
pub struct IOCapabilities {
    /// The device can pause without losing data.
    pub can_pause: bool,
    /// The device accepts a time-range filter.
    pub supports_time_range: bool,
    /// The device delivers live traffic.
    pub is_realtime: bool,
    /// The device accepts a playback speed.
    pub supports_speed_control: bool,
    /// The device accepts a seek target.
    pub supports_seek: bool,
    /// The device can transmit CAN frames.
    pub can_transmit: bool,
    /// The device can transmit raw serial bytes.
    pub can_transmit_serial: bool,
    /// The device understands CAN FD frames.
    pub supports_canfd: bool,
    /// The device understands extended identifiers.
    pub supports_extended_id: bool,
    /// The device understands remote frames.
    pub supports_rtr: bool,
    /// Logical buses the device can reach.
    pub available_buses: Vec<u8>,
}

/// Lifecycle state of a session's device.
#[derive(Clone, Copy, Debug, PartialEq, Eq, Structural)]
pub enum IOState {
    /// Not running.
    Stopped,
    /// Transitioning towards `Running`.
    Starting,
    /// Delivering data.
    Running,
    /// Replay suspended.
    Paused,
    /// Finished naturally.
    Completed,
}

/// Outcome of a transmit request.
#[derive(Clone, Debug)]
pub struct TransmitResult {
    /// Whether the frame left the device.
    pub success: bool,
    /// Failure detail when `success` is false.
    pub message: Option<String>,
    /// Host microseconds at which the outcome was recorded.
    pub timestamp_us: u64,
}

impl TransmitResult {
    /// A successful transmission recorded at `timestamp_us`.
    pub fn success_at(timestamp_us: u64) -> (r: TransmitResult)
        ensures
            r.success,
            r.message is None,
            r.timestamp_us == timestamp_us,
    {
        TransmitResult { success: true, message: None, timestamp_us }
    }

    /// A failed transmission with the given detail.
    pub fn error(message: String) -> (r: TransmitResult)
        ensures
            !r.success,
            r.message == Some(message),
            r.timestamp_us == 0,
    {
        TransmitResult { success: false, message: Some(message), timestamp_us: 0 }
    }
}

/// Builds the transmit echo that is buffered and emitted after a successful
/// transmission, so that replay reproduces transmitted frames in order.
pub fn tx_echo_frame(frame: &CanTransmitFrame, timestamp_us: u64) -> (r: Frame)
    requires
        frame.data@.len() <= 64,
        frame.is_rtr ==> frame.data@.len() == 0,
        frame.data@.len() > 8 ==> frame.is_fd,
        !frame.is_extended ==> frame.frame_id <= 0x7FF,
        frame.is_extended ==> frame.frame_id <= 0x1FFF_FFFF,
    ensures
        r.can_wf(),
        r.protocol == Protocol::Can,
        r.timestamp_us == timestamp_us,
        r.frame_id == frame.frame_id,
        r.bus == frame.bus,
        r.dlc as int == frame.data@.len(),
        r.bytes@ == frame.data@,
        r.is_extended == frame.is_extended,
        r.is_fd == frame.is_fd,
        r.is_rtr == frame.is_rtr,
        r.direction == Some(Direction::Tx),
{
    Frame {
        protocol: Protocol::Can,
        timestamp_us,
        frame_id: frame.frame_id,
        bus: frame.bus,
        dlc: frame.data.len() as u8,
        bytes: frame.data.clone(),
        is_extended: frame.is_extended,
        is_fd: frame.is_fd,
        is_rtr: frame.is_rtr,
        source_address: None,
        incomplete: None,
        direction: Some(Direction::Tx),
    }
}

impl Frame {
    /// Field-for-field agreement between two frames (payload compared by
    /// contents).
    pub open spec fn same(self, other: Frame) -> bool {
        &&& self.protocol == other.protocol
        &&& self.timestamp_us == other.timestamp_us
        &&& self.frame_id == other.frame_id
        &&& self.bus == other.bus
        &&& self.dlc == other.dlc
        &&& self.bytes@ == other.bytes@
        &&& self.is_extended == other.is_extended
        &&& self.is_fd == other.is_fd
        &&& self.is_rtr == other.is_rtr
        &&& self.source_address == other.source_address
        &&& self.incomplete == other.incomplete
        &&& self.direction == other.direction
    }

    /// A field-for-field copy.
    pub fn duplicate(&self) -> (r: Frame)
        ensures
            r.same(*self),
    {
        let mut bytes: Vec<u8> = Vec::new();
        let mut i: usize = 0;
        while i < self.bytes.len()
            invariant
                i <= self.bytes@.len(),
                bytes@ =~= self.bytes@.take(i as int),
            decreases self.bytes@.len() - i,
        {
            bytes.push(self.bytes[i]);
            i = i + 1;
            proof {
                assert(bytes@ =~= self.bytes@.take(i as int));
            }
        }
        proof {
            assert(self.bytes@.take(self.bytes@.len() as int) =~= self.bytes@);
        }
        Frame {
            protocol: self.protocol,
            timestamp_us: self.timestamp_us,
            frame_id: self.frame_id,
            bus: self.bus,
            dlc: self.dlc,
            bytes,
            is_extended: self.is_extended,
            is_fd: self.is_fd,
            is_rtr: self.is_rtr,
            source_address: self.source_address,
            incomplete: self.incomplete,
            direction: self.direction,
        }
    }
}

} // verus!
