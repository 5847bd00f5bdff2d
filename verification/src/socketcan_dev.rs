//! SocketCAN support: the 16-byte `can_frame` wire layout, conversion of
//! received frames into the core model, and a thin verified wrapper around
//! the kernel raw CAN socket.

use vstd::prelude::*;

use crate::error::IoError;
use crate::frame::{CanTransmitFrame, Frame, IOCapabilities, Protocol};
use vstd::string::StringExecFns;

verus! {

/// Extended-identifier flag bit in a SocketCAN identifier word.
pub const CAN_EFF_FLAG: u32 = 0x8000_0000;

/// Remote-frame flag bit in a SocketCAN identifier word.
pub const CAN_RTR_FLAG: u32 = 0x4000_0000;

/// Mask of the 29-bit extended identifier.
pub const CAN_EFF_MASK: u32 = 0x1FFF_FFFF;

/// Mask of the 11-bit standard identifier.
pub const CAN_SFF_MASK: u32 = 0x0000_07FF;

/// The fields the core reads off a received `can_frame`: flags decoded
/// from the identifier word and the payload clamped to the classic limit.
pub open spec fn spec_socketcan_fields(can_id: u32, can_dlc: u8) -> (bool, bool, u32, int) {
    let ext = can_id & CAN_EFF_FLAG != 0;
    let rtr = can_id & CAN_RTR_FLAG != 0;
    let id = if ext {
        can_id & CAN_EFF_MASK
    } else {
        can_id & CAN_SFF_MASK
    };
    let n: int = if can_dlc <= 8 {
        can_dlc as int
    } else {
        8
    };
    (ext, rtr, id, n)
}

/// Converts a received kernel CAN frame (identifier word with flag bits,
/// length, and the fixed 8-byte data field) into a core frame.
pub fn convert_socketcan_frame(
    can_id: u32,
    can_dlc: u8,
    data: &Vec<u8>,
    timestamp_us: u64,
    bus_override: Option<u8>,
) -> (r: Frame)
    requires
        data@.len() >= 8,
    ensures
        r.can_wf(),
        ({
            let (ext, rtr, id, n) = spec_socketcan_fields(can_id, can_dlc);
            &&& r.protocol == Protocol::Can
            &&& r.timestamp_us == timestamp_us
            &&& r.frame_id == id
            &&& r.bus == (match bus_override {
                Some(b) => b,
                None => 0,
            })
            &&& r.dlc as int == n
            &&& r.bytes@ == (if rtr {
                Seq::<u8>::empty()
            } else {
                data@.take(n)
            })
            &&& r.is_extended == ext
            &&& r.is_rtr == rtr
            &&& !r.is_fd
        }),
{
    let ext = can_id & CAN_EFF_FLAG != 0;
    let rtr = can_id & CAN_RTR_FLAG != 0;
    let id: u32 = if ext {
        can_id & CAN_EFF_MASK
    } else {
        can_id & CAN_SFF_MASK
    };
    assert(can_id & CAN_EFF_MASK <= CAN_EFF_MASK && can_id & CAN_SFF_MASK <= CAN_SFF_MASK)
        by (bit_vector);
    let n: usize = if can_dlc <= 8 {
        can_dlc as usize
    } else {
        8
    };
    let mut bytes: Vec<u8> = Vec::new();
    if !rtr {
        let mut k: usize = 0;
        while k < n
            invariant
                k <= n,
                n <= 8 <= data@.len(),
                bytes@ =~= data@.take(n as int).take(k as int),
            decreases n - k,
        {
            bytes.push(data[k]);
            k = k + 1;
            proof {
                assert(bytes@ =~= data@.take(n as int).take(k as int));
            }
        }
        proof {
            assert(data@.take(n as int).take(n as int) =~= data@.take(n as int));
        }
    }
    let bus: u8 = match bus_override {
        Some(b) => b,
        None => 0,
    };
    Frame {
        protocol: Protocol::Can,
        timestamp_us,
        frame_id: id,
        bus,
        dlc: n as u8,
        bytes,
        is_extended: ext,
        is_fd: false,
        is_rtr: rtr,
        source_address: None,
        incomplete: None,
        direction: None,
    }
}

/// The 16-byte `can_frame` record for an outbound frame: little-endian
/// identifier word with flag bits, one length byte, three pad bytes, and
/// the 8-byte data field (payload clamped to 8, zero padded).
pub open spec fn spec_socketcan_record(frame: CanTransmitFrame) -> Seq<u8> {
    let can_id = socketcan_wire_id(frame);
    let n: int = if frame.data@.len() <= 8 {
        frame.data@.len() as int
    } else {
        8
    };
    crate::gvret::spec_u32_le_bytes(can_id) + seq![n as u8, 0u8, 0u8, 0u8] + Seq::new(
        8,
        |i: int|
            if i < n {
                frame.data@[i]
            } else {
                0u8
            },
    )
}

/// The identifier word put on the wire: the frame identifier with the
/// extended and remote flag bits folded in.
pub open spec fn socketcan_wire_id(frame: CanTransmitFrame) -> u32 {
    (frame.frame_id as int + (if frame.is_extended {
        CAN_EFF_FLAG as int
    } else {
        0
    }) + (if frame.is_rtr {
        CAN_RTR_FLAG as int
    } else {
        0
    })) as u32
}

/// Encodes an outbound frame into the 16-byte `can_frame` layout.
pub fn encode_socketcan_frame(frame: &CanTransmitFrame) -> (r: Vec<u8>)
    requires
        frame.frame_id <= 0x1FFF_FFFF,
    ensures
        r@ == spec_socketcan_record(*frame),
        r@.len() == 16,
{
    let base: u32 = frame.frame_id;
    assert(base <= 0x1FFF_FFFF ==> {
        &&& (base | 0x8000_0000u32) == base + 0x8000_0000
        &&& (base | 0x4000_0000u32) == base + 0x4000_0000
        &&& ((base | 0x8000_0000u32) | 0x4000_0000) == base + 0x8000_0000 + 0x4000_0000
    }) by (bit_vector);
    let mut can_id: u32 = base;
    if frame.is_extended {
        can_id = can_id | CAN_EFF_FLAG;
    }
    if frame.is_rtr {
        can_id = can_id | CAN_RTR_FLAG;
    }
    assert(can_id == socketcan_wire_id(*frame));
    let mut buf: Vec<u8> = Vec::new();
    buf.push((can_id & 0xFF) as u8);
    buf.push(((can_id >> 8) & 0xFF) as u8);
    buf.push(((can_id >> 16) & 0xFF) as u8);
    buf.push(((can_id >> 24) & 0xFF) as u8);
    let n: usize = if frame.data.len() <= 8 {
        frame.data.len()
    } else {
        8
    };
    buf.push(n as u8);
    buf.push(0);
    buf.push(0);
    buf.push(0);
    let mut k: usize = 0;
    while k < 8
        invariant
            k <= 8,
            n == if frame.data@.len() <= 8 {
                frame.data@.len() as int
            } else {
                8
            },
            buf@.len() == 8 + k,
            buf@.subrange(0, 8) == buf@.subrange(0, 8),
            forall|j: int|
                8 <= j < 8 + k ==> #[trigger] buf@[j] == (if j - 8 < n {
                    frame.data@[j - 8]
                } else {
                    0u8
                }),
            buf@.subrange(0, 8) =~= spec_socketcan_record(*frame).subrange(0, 8),
        decreases 8 - k,
    {
        if k < n {
            buf.push(frame.data[k]);
        } else {
            buf.push(0);
        }
        k = k + 1;
        proof {
            assert(buf@.subrange(0, 8) =~= spec_socketcan_record(*frame).subrange(0, 8));
            assert(buf@[7 + k] == (if k - 1 < n {
                frame.data@[k - 1]
            } else {
                0u8
            }));
        }
    }
    proof {
        let sp = spec_socketcan_record(*frame);
        assert(sp.len() == 16);
        assert forall|i: int| 0 <= i < 16 implies buf@[i] == sp[i] by {
            if i < 8 {
                assert(buf@[i] == buf@.subrange(0, 8)[i]);
                assert(sp[i] == sp.subrange(0, 8)[i]);
            } else {
                assert(sp[i] == (if i - 8 < n {
                    frame.data@[i - 8]
                } else {
                    0u8
                }));
            }
        }
        assert(buf@ =~= sp);
    }
    buf
}

/// The capability record of a SocketCAN device.
pub fn socketcan_capabilities() -> (r: IOCapabilities)
    ensures
        !r.can_pause,
        r.is_realtime,
        r.can_transmit,
        !r.supports_canfd,
        r.supports_extended_id,
        r.supports_rtr,
        !r.supports_seek,
        !r.supports_speed_control,
        !r.supports_time_range,
        !r.can_transmit_serial,
        r.available_buses@ =~= seq![0u8],
{
    let mut buses: Vec<u8> = Vec::new();
    buses.push(0);
    proof {
        assert(buses@ =~= seq![0u8]);
    }
    IOCapabilities {
        can_pause: false,
        supports_time_range: false,
        is_realtime: true,
        supports_speed_control: false,
        supports_seek: false,
        can_transmit: true,
        can_transmit_serial: false,
        supports_canfd: false,
        supports_extended_id: true,
        supports_rtr: true,
        available_buses: buses,
    }
}

#[verifier::external_type_specification]
#[verifier::external_body]
pub struct ExCanSocket(socketcan::CanSocket);

/// Relies on `socketcan::CanSocket::open` (the `Socket` trait): opens the
/// named kernel CAN interface.
#[verifier::external_body]
fn socket_open(interface: &str) -> Result<socketcan::CanSocket, String> {
    match <socketcan::CanSocket as socketcan::Socket>::open(interface) {
        Ok(s) => Ok(s),
        Err(e) => Err(e.to_string()),
    }
}

/// Relies on `socketcan::Socket::set_read_timeout`: bounds how long a read
/// blocks, so the read loop can observe cancellation.
#[verifier::external_body]
fn socket_set_read_timeout(socket: &socketcan::CanSocket, millis: u64) -> Result<(), String> {
    match <socketcan::CanSocket as socketcan::Socket>::set_read_timeout(
        socket,
        std::time::Duration::from_millis(millis),
    ) {
        Ok(()) => Ok(()),
        Err(e) => Err(e.to_string()),
    }
}

/// Relies on `socketcan::CanSocket::read_raw_frame`: one kernel
/// `can_frame` per call; a timeout is reported as `Ok(None)`, the frame's
/// identifier word, length and fixed 8-byte data field are handed through
/// unchanged.
#[verifier::external_body]
fn socket_read_raw(socket: &socketcan::CanSocket) -> (r: Result<Option<(u32, u8, Vec<u8>)>, String>)
    ensures
        (r matches Ok(Some((id, dlc, data))) ==> data@.len() == 8),
{
    match socket.read_raw_frame() {
        Ok(f) => Ok(Some((f.can_id, f.can_dlc, f.data.to_vec()))),
        Err(e) if e.kind() == std::io::ErrorKind::WouldBlock => Ok(None),
        Err(e) if e.kind() == std::io::ErrorKind::TimedOut => Ok(None),
        Err(e) => Err(e.to_string()),
    }
}

/// Relies on `socketcan::Socket::write_frame` with a data frame built
/// through `CanDataFrame::new` from the given standard or extended
/// identifier and payload.
#[verifier::external_body]
fn socket_write(
    socket: &socketcan::CanSocket,
    raw_id: u32,
    extended: bool,
    data: &[u8],
) -> Result<(), String> {
    let id: Option<socketcan::Id> = if extended {
        socketcan::ExtendedId::new(raw_id).map(socketcan::Id::Extended)
    } else {
        socketcan::StandardId::new(raw_id as u16).map(socketcan::Id::Standard)
    };
    let frame = id.and_then(|i| <socketcan::CanDataFrame as socketcan::EmbeddedFrame>::new(i, data));
    match frame {
        Some(f) => <socketcan::CanSocket as socketcan::Socket>::write_frame(socket, &f)
            .map_err(|e| e.to_string()),
        None => Err("invalid CAN frame".to_string()),
    }
}

/// A raw kernel CAN socket for one interface, used both to read and to
/// write frames.
pub struct SocketCanReader {
    socket: socketcan::CanSocket,
}

impl SocketCanReader {
    /// Opens the named interface with a 100 ms read timeout so the read
    /// loop can observe cancellation.
    pub fn new(interface: &str) -> Result<SocketCanReader, String> {
        let socket = socket_open(interface)?;
        socket_set_read_timeout(&socket, 100)?;
        Ok(SocketCanReader { socket })
    }

    /// Reads one frame; a read timeout yields `Ok(None)`.  Every returned
    /// frame is well formed.
    pub fn read_frame_timeout(&self, timestamp_us: u64, bus_override: Option<u8>) -> (r: Result<
        Option<Frame>,
        String,
    >)
        ensures
            (r matches Ok(Some(f)) ==> f.can_wf() && f.timestamp_us == timestamp_us),
    {
        match socket_read_raw(&self.socket) {
            Ok(Some((can_id, can_dlc, data))) => Ok(
                Some(convert_socketcan_frame(can_id, can_dlc, &data, timestamp_us, bus_override)),
            ),
            Ok(None) => Ok(None),
            Err(e) => Err(e),
        }
    }

    /// Writes a frame given in the 16-byte `can_frame` layout, as the
    /// transmit router encodes it.  A record shorter than 16 bytes is the
    /// library's own configuration error, if and only if; everything else
    /// is decoded by [`decode_socketcan_record`] and handed to the kernel
    /// socket, whose failures come back as transmission errors.
    pub fn write_frame(&self, data: &Vec<u8>) -> (r: Result<(), IoError>)
        ensures
            (r matches Err(e) && e is Configuration) <==> data@.len() < 16,
            (data@.len() >= 16 && r is Err) ==> (r matches Err(e) && e is Transmission),
    {
        proof {
            reveal_strlit("frame record shorter than 16 bytes");
            reveal_strlit("socketcan");
        }
        if data.len() < 16 {
            return Err(IoError::configuration("frame record shorter than 16 bytes"));
        }
        let (raw_id, extended, payload) = decode_socketcan_record(data);
        match socket_write(&self.socket, raw_id, extended, payload.as_slice()) {
            Ok(()) => Ok(()),
            Err(details) => Err(
                IoError::Transmission { device: String::from_str("socketcan"), details },
            ),
        }
    }
}

/// Decodes a 16-byte `can_frame` record into what the kernel socket is
/// handed: the masked identifier, the extended flag (bit 31 of the
/// little-endian identifier word), and the payload delimited by the length
/// byte clamped to the classic limit.
pub fn decode_socketcan_record(data: &Vec<u8>) -> (r: (u32, bool, Vec<u8>))
    requires
        data@.len() >= 16,
    ensures
        ({
            let w = crate::gvret::spec_le32(data@[0], data@[1], data@[2], data@[3]);
            let n: int = if data@[4] <= 8 {
                data@[4] as int
            } else {
                8
            };
            &&& r.1 == (w & CAN_EFF_FLAG != 0)
            &&& r.0 == (if r.1 {
                w & CAN_EFF_MASK
            } else {
                w & CAN_SFF_MASK
            })
            &&& r.2@ == data@.subrange(8, 8 + n)
        }),
{
    let can_id: u32 = (data[0] as u32) | ((data[1] as u32) << 8) | ((data[2] as u32) << 16) | ((
    data[3] as u32) << 24);
    let extended = can_id & CAN_EFF_FLAG != 0;
    assert(can_id & CAN_EFF_MASK <= CAN_EFF_MASK && can_id & CAN_SFF_MASK <= CAN_SFF_MASK)
        by (bit_vector);
    let raw_id: u32 = if extended {
        can_id & CAN_EFF_MASK
    } else {
        can_id & CAN_SFF_MASK
    };
    let dlc: usize = if data[4] <= 8 {
        data[4] as usize
    } else {
        8
    };
    let mut payload: Vec<u8> = Vec::new();
    let mut k: usize = 0;
    while k < dlc
        invariant
            k <= dlc <= 8,
            data@.len() >= 16,
            dlc as int == if data@[4] <= 8 {
                data@[4] as int
            } else {
                8
            },
            payload@.len() == k,
            forall|j: int| 0 <= j < k ==> payload@[j] == data@[8 + j],
        decreases dlc - k,
    {
        payload.push(data[8 + k]);
        k = k + 1;
    }
    proof {
        assert(payload@ =~= data@.subrange(8, 8 + dlc as int));
    }
    (raw_id, extended, payload)
}

} // verus!
