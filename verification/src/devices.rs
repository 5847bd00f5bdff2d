//! Device configurations, probe records, and the lifecycle state machines
//! of the session-facing readers.  The background I/O itself runs outside
//! the library; these types hold every decision the lifecycle makes.

use vstd::prelude::*;

use crate::error::IoError;
use crate::frame::{CanTransmitFrame, IOCapabilities, IOState};
use crate::replay::ReplayState;
use crate::slcan::spec_bitrate_cmd;
use crate::timeline::TimelineControl;
use vstd::string::StringExecFns;

verus! {

/// slcan device configuration.
#[derive(Clone, Debug)]
pub struct SlcanConfig {
    /// Serial port path.
    pub port: String,
    /// Serial baud rate.
    pub baud_rate: u32,
    /// CAN bus bitrate in bits per second.
    pub bitrate: u32,
    /// Silent mode: listen without acknowledging; transmit is disabled.
    pub silent_mode: bool,
    /// Maximum frames to read, when set.
    pub limit: Option<u64>,
    /// Display name used for buffer naming.
    pub display_name: Option<String>,
    /// Data bits (5..=8).
    pub data_bits: u8,
    /// Stop bits (1 or 2).
    pub stop_bits: u8,
    /// Parity setting.
    pub parity: crate::profile::Parity,
    /// Forced bus number for every frame, when set.
    pub bus_override: Option<u8>,
}

/// GVRET-over-serial device configuration.
#[derive(Clone, Debug)]
pub struct GvretUsbConfig {
    /// Serial port path.
    pub port: String,
    /// Serial baud rate.
    pub baud_rate: u32,
    /// Maximum frames to read, when set.
    pub limit: Option<u64>,
    /// Display name used for buffer naming.
    pub display_name: Option<String>,
    /// Forced bus number for every frame, when set.
    pub bus_override: Option<u8>,
}

/// SocketCAN device configuration.
#[derive(Clone, Debug)]
pub struct SocketCanConfig {
    /// Kernel CAN interface name.
    pub interface: String,
    /// Maximum frames to read, when set.
    pub limit: Option<u64>,
    /// Display name used for buffer naming.
    pub display_name: Option<String>,
    /// Forced bus number for every frame, when set.
    pub bus_override: Option<u8>,
}

/// Generic serial reader configuration.
#[derive(Debug)]
pub struct SerialConfig {
    /// Serial port path.
    pub port: String,
    /// Serial baud rate.
    pub baud_rate: u32,
    /// Data bits (5..=8).
    pub data_bits: u8,
    /// Stop bits (1 or 2).
    pub stop_bits: u8,
    /// Parity setting.
    pub parity: crate::profile::Parity,
    /// Framing configuration; absent for a raw byte stream.
    pub framing: Option<SerialFramingConfig>,
    /// Maximum bytes to read, when set.
    pub limit: Option<u64>,
    /// Display name used for buffer naming.
    pub display_name: Option<String>,
}

/// Framing configuration of the generic serial reader.
#[derive(Debug)]
pub struct SerialFramingConfig {
    /// How the byte stream is cut into frames.
    pub encoding: crate::framer::FramingEncoding,
    /// Frame identifier extraction, if configured.
    pub frame_id_config: Option<crate::framer::FrameIdConfig>,
    /// Source address extraction, if configured.
    pub source_address_config: Option<crate::framer::FrameIdConfig>,
    /// Frames shorter than this are discarded.
    pub min_frame_length: Option<usize>,
    /// Whether raw bytes are emitted besides frames.
    pub emit_raw_bytes: bool,
}

/// Payload of a raw serial byte emission.
#[derive(Clone, Debug)]
pub struct SerialRawBytesPayload {
    /// The bytes, each with its own timestamp.
    pub bytes: Vec<crate::frame::TimestampedByte>,
    /// The port they were read from.
    pub port: String,
}

/// One enumerated serial port.
#[derive(Clone, Debug)]
pub struct SerialPortInfo {
    /// Port path.
    pub port_name: String,
    /// Port kind as reported by the OS.
    pub port_type: String,
    /// USB manufacturer string, when known.
    pub manufacturer: Option<String>,
    /// USB product string, when known.
    pub product: Option<String>,
    /// USB serial number, when known.
    pub serial_number: Option<String>,
    /// USB vendor identifier, when known.
    pub vid: Option<u16>,
    /// USB product identifier, when known.
    pub pid: Option<u16>,
}

/// Offline framing request: how to cut an already captured byte buffer.
#[derive(Clone, Debug)]
pub struct BackendFramingConfig {
    /// Framing mode name: `raw`, `slip` or `modbus_rtu`.
    pub mode: String,
    /// Delimiter for raw mode, as a hexadecimal string.
    pub delimiter: Option<String>,
    /// Forced split length for raw mode.
    pub max_length: Option<usize>,
    /// Whether Modbus frames carry a CRC verdict.
    pub validate_crc: Option<bool>,
    /// Frames shorter than this are discarded.
    pub min_length: Option<usize>,
    /// Frame identifier extraction, if configured.
    pub frame_id_config: Option<crate::framer::FrameIdConfig>,
    /// Source address extraction, if configured.
    pub source_address_config: Option<crate::framer::FrameIdConfig>,
}

/// Result of an offline framing request.
#[derive(Clone, Debug)]
pub struct FramingResult {
    /// Frames extracted.
    pub frame_count: usize,
    /// Buffer the frames were stored in.
    pub buffer_id: String,
}

/// What a session's end-of-stream report carries.
#[derive(Clone, Debug)]
pub struct StreamEndedPayload {
    /// Why the stream ended: `stopped`, `complete`, `error` or
    /// `disconnected`.
    pub reason: String,
    /// Whether a buffer with data is available.
    pub buffer_available: bool,
    /// The finalized buffer's id, when one exists.
    pub buffer_id: Option<String>,
    /// The finalized buffer's type name, when one exists.
    pub buffer_type: Option<String>,
    /// Records captured.
    pub count: usize,
    /// First and last record timestamps, when any records exist.
    pub time_range: Option<(u64, u64)>,
}

/// Builds the end-of-stream report from a finalized buffer's metadata.
pub fn stream_ended_payload(
    reason: String,
    metadata: Option<&crate::buffer_store::BufferMetadata>,
) -> (r: StreamEndedPayload)
    ensures
        r.reason@ == reason@,
        match metadata {
            Some(m) => {
                &&& r.count == m.count
                &&& r.buffer_available == (m.count > 0)
                &&& r.buffer_id matches Some(id) && id@ == m.id@
                &&& (r.buffer_type matches Some(t) && t@ == (
                match m.buffer_type {
                    crate::buffer_store::BufferType::Frames => "frames"@,
                    crate::buffer_store::BufferType::Bytes => "bytes"@,
                }))
                &&& r.time_range == (match (m.start_time_us, m.end_time_us) {
                    (Some(s), Some(e)) => Some((s, e)),
                    _ => None::<(u64, u64)>,
                })
            },
            None => !r.buffer_available && r.count == 0 && r.buffer_id is None
                && r.buffer_type is None && r.time_range is None,
        },
{
    proof {
        reveal_strlit("frames");
        reveal_strlit("bytes");
    }
    match metadata {
        Some(m) => {
            let type_str: String = match m.buffer_type {
                crate::buffer_store::BufferType::Frames => String::from_str("frames"),
                crate::buffer_store::BufferType::Bytes => String::from_str("bytes"),
            };
            let time_range: Option<(u64, u64)> = match (m.start_time_us, m.end_time_us) {
                (Some(s), Some(e)) => Some((s, e)),
                _ => None,
            };
            StreamEndedPayload {
                reason,
                buffer_available: m.count > 0,
                buffer_id: Some(crate::buffer_store::duplicate_string(&m.id)),
                buffer_type: Some(type_str),
                count: m.count,
                time_range,
            }
        },
        None => StreamEndedPayload {
            reason,
            buffer_available: false,
            buffer_id: None,
            buffer_type: None,
            count: 0,
            time_range: None,
        },
    }
}

/// Device information probed from a GVRET adapter.
#[derive(Clone, Copy, Debug, PartialEq, Eq, Structural)]
pub struct GvretDeviceInfo {
    /// How many buses the adapter reports (sanitized to 1..=5).
    pub bus_count: u8,
}

/// Result of probing an slcan device.
#[derive(Clone, Debug)]
pub struct SlcanProbeResult {
    /// Whether the device responded at all.
    pub success: bool,
    /// Firmware version, when reported.
    pub version: Option<String>,
    /// Hardware version, when reported.
    pub hardware_version: Option<String>,
    /// Serial number, when reported.
    pub serial_number: Option<String>,
    /// Failure detail, when the probe failed.
    pub error: Option<String>,
}

/// Whether a probe-response byte is kept: printable ASCII, carriage
/// return or line feed.
pub open spec fn probe_keepable(x: u8) -> bool {
    (0x20 <= x < 0x80) || x == 0x0D || x == 0x0A
}

/// The keepable bytes of a probe response, in order.
pub open spec fn probe_kept(b: Seq<u8>) -> Seq<u8>
    decreases b.len(),
{
    if b.len() == 0 {
        Seq::empty()
    } else {
        let rest = probe_kept(b.drop_last());
        if probe_keepable(b.last()) {
            rest.push(b.last())
        } else {
            rest
        }
    }
}

/// Interprets a probe reply: a bell byte anywhere is the device's error
/// response and discards the text; otherwise the printable characters
/// (with line ends) form the response text.
pub fn filter_probe_response(data: &Vec<u8>) -> (r: (bool, Option<String>))
    ensures
        r.0 == (exists|i: int| 0 <= i < data@.len() && (#[trigger] data@[i]) == 0x07),
        r.0 ==> r.1 is None,
        !r.0 ==> (r.1 matches Some(s) && s@ == vstd::utf8::decode_utf8(probe_kept(data@))),
{
    let mut kept: Vec<u8> = Vec::new();
    let mut i: usize = 0;
    proof {
        assert(data@.take(0) =~= Seq::<u8>::empty());
        assert(kept@ =~= probe_kept(data@.take(0)));
    }
    while i < data.len()
        invariant
            i <= data@.len(),
            kept@ == probe_kept(data@.take(i as int)),
            forall|j: int| 0 <= j < kept@.len() ==> (#[trigger] kept@[j]) < 0x80,
            forall|j: int| 0 <= j < i ==> (#[trigger] data@[j]) != 0x07,
        decreases data@.len() - i,
    {
        let b = data[i];
        if b == 0x07 {
            return (true, None);
        }
        proof {
            assert(data@.take(i as int + 1).drop_last() =~= data@.take(i as int));
            assert(data@.take(i as int + 1).last() == data@[i as int]);
        }
        if (0x20 <= b && b < 0x80) || b == 0x0D || b == 0x0A {
            kept.push(b);
        }
        i = i + 1;
    }
    proof {
        assert(data@.take(data@.len() as int) =~= data@);
        crate::engine::lemma_ascii_valid_utf8(kept@);
    }
    match crate::engine::string_from_utf8(kept) {
        Some(s) => (false, Some(s)),
        None => (false, None),  // unreachable: the kept bytes are ASCII
    }
}

/// The slcan setup command sequence: close any open channel, set the
/// bitrate, select normal or silent mode, and open the channel.  Each
/// command already carries its carriage return.
pub fn slcan_setup_commands(bitrate: u32, silent_mode: bool) -> (r: Result<Vec<String>, String>)
    ensures
        match r {
            Ok(cmds) => {
                &&& spec_bitrate_cmd(bitrate) matches Some(bc)
                &&& cmds@.len() == 4
                &&& cmds@[0]@ == "C\r"@
                &&& cmds@[1]@ == bc + "\r"@
                &&& cmds@[2]@ == (if silent_mode {
                    "M1\r"@
                } else {
                    "M0\r"@
                })
                &&& cmds@[3]@ == "O\r"@
            },
            Err(_) => spec_bitrate_cmd(bitrate) is None,
        },
{
    proof {
        reveal_strlit("C\r");
        reveal_strlit("\r");
        reveal_strlit("M1\r");
        reveal_strlit("M0\r");
        reveal_strlit("O\r");
    }
    let bc = match crate::slcan::find_bitrate_command(bitrate) {
        Ok(c) => c,
        Err(e) => {
            return Err(e);
        },
    };
    let mut cmds: Vec<String> = Vec::new();
    cmds.push(String::from_str("C\r"));
    let mut sc = bc.to_owned();
    sc.append("\r");
    cmds.push(sc);
    cmds.push(
        if silent_mode {
            String::from_str("M1\r")
        } else {
            String::from_str("M0\r")
        },
    );
    cmds.push(String::from_str("O\r"));
    proof {
        assert(cmds@.len() == 4);
    }
    Ok(cmds)
}

/// The slcan reader: session identity, configuration and lifecycle state.
/// The serial I/O itself runs outside the library.
pub struct SlcanReader {
    /// Session this reader belongs to.
    pub session_id: String,
    /// Device configuration.
    pub config: SlcanConfig,
    /// Lifecycle state.
    pub state: IOState,
}

impl SlcanReader {
    /// A stopped reader for a session.
    pub fn new(session_id: String, config: SlcanConfig) -> (r: SlcanReader)
        ensures
            r.state == IOState::Stopped,
            r.session_id == session_id,
            r.config == config,
    {
        SlcanReader { session_id, config, state: IOState::Stopped }
    }

    /// Whether this reader may transmit: silent mode disables transmit.
    pub fn can_transmit(&self) -> (r: bool)
        ensures
            r == !self.config.silent_mode,
    {
        !self.config.silent_mode
    }

    /// The reader's capability record.
    pub fn capabilities(&self) -> (r: IOCapabilities)
        ensures
            r.can_transmit == !self.config.silent_mode,
            !r.can_pause,
            r.is_realtime,
    {
        crate::slcan::slcan_capabilities(self.config.silent_mode)
    }

    /// Starts the reader: only a reader that is not running may start.
    pub fn start(&mut self) -> (r: Result<(), IoError>)
        ensures
            old(self).state == IOState::Running ==> r is Err && final(self).state == old(self).state,
            old(self).state != IOState::Running ==> r is Ok && final(self).state
                == IOState::Running,
            final(self).config == old(self).config,
            final(self).session_id == old(self).session_id,
    {
        if self.state == IOState::Running {
            proof {
                reveal_strlit("reader is already running");
            }
            return Err(IoError::other_no_device("reader is already running"));
        }
        self.state = IOState::Starting;
        self.state = IOState::Running;
        Ok(())
    }

    /// Stops the reader.
    pub fn stop(&mut self)
        ensures
            final(self).state == IOState::Stopped,
            final(self).config == old(self).config,
            final(self).session_id == old(self).session_id,
    {
        self.state = IOState::Stopped;
    }

    /// Live streams take no time-range filter.
    pub fn set_time_range(&self) -> (r: Result<(), IoError>)
        ensures
            r is Err,
            r matches Err(e) ==> e is Configuration,
    {
        proof {
            reveal_strlit("a live stream takes no time range");
        }
        Err(IoError::configuration("a live stream takes no time range"))
    }

    /// Plans a transmission: silent mode is a configuration error;
    /// otherwise the frame is encoded as an slcan command line.
    pub fn prepare_transmit(&self, frame: &CanTransmitFrame) -> (r: Result<Vec<u8>, IoError>)
        ensures
            r is Ok <==> !self.config.silent_mode,
            r matches Err(e) ==> e is Configuration,
            r matches Ok(data) ==> data@ == vstd::utf8::encode_utf8(
                crate::slcan::spec_slcan_cmd(
                    frame.frame_id,
                    if frame.data@.len() <= 8 {
                        frame.data@.len() as u8
                    } else {
                        8
                    },
                    (if frame.data@.len() <= 8 {
                        frame.data@
                    } else {
                        frame.data@.take(8)
                    }),
                    frame.is_extended,
                    frame.is_rtr && frame.data@.len() == 0,
                ),
            ),
    {
        if self.config.silent_mode {
            proof {
                reveal_strlit("cannot transmit in silent mode");
            }
            return Err(IoError::configuration("cannot transmit in silent mode"));
        }
        Ok(crate::slcan::encode_slcan_transmit_frame(frame))
    }
}

/// The buffer replay reader: session identity, shared control flags and
/// lifecycle state; the replay loop itself is driven through
/// [`crate::replay::replay_step`].
pub struct BufferReader {
    /// Session this reader belongs to.
    pub session_id: String,
    /// Lifecycle state.
    pub state: IOState,
    /// Shared cancel/pause/speed control.
    pub control: TimelineControl,
    /// Pending seek target handed to the replay loop.
    pub seek_target_us: Option<u64>,
}

impl BufferReader {
    /// A stopped reader with the given initial speed (thousandths of real
    /// time; zero disables pacing).
    pub fn new(session_id: String, speed_milli: i64) -> (r: BufferReader)
        ensures
            r.state == IOState::Stopped,
            r.session_id == session_id,
            r.control.pacing_enabled == (speed_milli > 0),
            !r.control.cancel_flag,
            !r.control.pause_flag,
    {
        BufferReader {
            session_id,
            state: IOState::Stopped,
            control: TimelineControl::new(speed_milli),
            seek_target_us: None,
        }
    }

    /// The reader's capability record: pausable, seekable,
    /// speed-controlled replay.
    pub fn capabilities(&self) -> (r: IOCapabilities)
        ensures
            r.can_pause && r.supports_seek && r.supports_speed_control && !r.is_realtime
                && !r.can_transmit,
    {
        IOCapabilities {
            can_pause: true,
            supports_time_range: false,
            is_realtime: false,
            supports_speed_control: true,
            supports_seek: true,
            can_transmit: false,
            can_transmit_serial: false,
            supports_canfd: false,
            supports_extended_id: true,
            supports_rtr: false,
            available_buses: Vec::new(),
        }
    }

    /// Starts replay: a reader that is running or paused may not start,
    /// and an empty buffer is rejected.  A completed reader restarts.
    pub fn start(&mut self, has_data: bool) -> (r: Result<ReplayState, IoError>)
        ensures
            final(self).session_id == old(self).session_id,
            (old(self).state == IOState::Running || old(self).state == IOState::Paused)
                ==> r is Err,
            !has_data ==> r is Err,
            r is Ok ==> final(self).state == IOState::Running
                && !final(self).control.cancel_flag && !final(self).control.pause_flag,
            r matches Ok(rs) ==> rs.frame_index == 0 && !rs.completed,
    {
        if self.state == IOState::Running || self.state == IOState::Paused {
            proof {
                reveal_strlit("reader is already running");
            }
            return Err(IoError::other_no_device("reader is already running"));
        }
        if !has_data {
            proof {
                reveal_strlit("no data in buffer");
            }
            return Err(IoError::other_no_device("no data in buffer"));
        }
        self.control.reset();
        self.seek_target_us = None;
        self.state = IOState::Running;
        let mut control = self.control;
        if control.pacing_enabled && control.speed_milli <= 0 {
            control.speed_milli = 1000;
            self.control = control;
        }
        Ok(ReplayState::new(self.control, 0, 0))
    }

    /// Stops replay by raising the cancel flag.
    pub fn stop(&mut self)
        ensures
            final(self).state == IOState::Stopped,
            final(self).control.cancel_flag,
            final(self).session_id == old(self).session_id,
    {
        self.control.cancel();
        self.state = IOState::Stopped;
    }

    /// Pauses replay; only a running reader can pause.
    pub fn pause(&mut self) -> (r: Result<(), IoError>)
        ensures
            old(self).state == IOState::Running ==> r is Ok && final(self).state
                == IOState::Paused && final(self).control.pause_flag,
            old(self).state != IOState::Running ==> r is Err && *final(self) == *old(self),
    {
        if self.state != IOState::Running {
            proof {
                reveal_strlit("reader is not running");
            }
            return Err(IoError::other_no_device("reader is not running"));
        }
        self.control.pause();
        self.state = IOState::Paused;
        Ok(())
    }

    /// Resumes replay; only a paused reader can resume.
    pub fn resume(&mut self) -> (r: Result<(), IoError>)
        ensures
            old(self).state == IOState::Paused ==> r is Ok && final(self).state
                == IOState::Running && !final(self).control.pause_flag,
            old(self).state != IOState::Paused ==> r is Err && *final(self) == *old(self),
    {
        if self.state != IOState::Paused {
            proof {
                reveal_strlit("reader is not paused");
            }
            return Err(IoError::other_no_device("reader is not paused"));
        }
        self.control.resume();
        self.state = IOState::Running;
        Ok(())
    }

    /// Sets the playback speed (thousandths of real time).
    pub fn set_speed(&mut self, speed_milli: i64) -> (r: Result<(), IoError>)
        ensures
            speed_milli < 0 ==> r is Err,
            speed_milli > 0 ==> r is Ok && final(self).control.pacing_enabled
                && final(self).control.speed_milli == speed_milli,
            speed_milli == 0 ==> r is Ok && !final(self).control.pacing_enabled,
            final(self).state == old(self).state,
            final(self).session_id == old(self).session_id,
    {
        self.control.set_speed(speed_milli)
    }

    /// Buffer replay takes no time-range filter.
    pub fn set_time_range(&self) -> (r: Result<(), IoError>)
        ensures
            r is Err,
            r matches Err(e) ==> e is Configuration,
    {
        proof {
            reveal_strlit("buffer replay takes no time range");
        }
        Err(IoError::configuration("buffer replay takes no time range"))
    }

    /// Requests a seek to this playback time.
    pub fn seek(&mut self, timestamp_us: u64)
        ensures
            final(self).seek_target_us == Some(timestamp_us),
            final(self).state == old(self).state,
            final(self).control == old(self).control,
    {
        self.seek_target_us = Some(timestamp_us);
    }
}

} // verus!
