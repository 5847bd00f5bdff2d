//! gs_usb (candleLight-class USB CAN adapter) protocol records: the
//! 20-byte host frame, the control-transfer payloads, and the built-in
//! bit-timing table.

use vstd::prelude::*;

use crate::frame::{CanTransmitFrame, Frame, IOCapabilities, Protocol};
use crate::gvret::spec_u32_le_bytes;

verus! {

/// Vendor identifier of gs_usb adapters.
pub const GS_USB_VID: u16 = 0x1D50;

/// Product identifiers enumerated as gs_usb adapters.
pub fn gs_usb_pids() -> (r: Vec<u16>)
    ensures
        r@ =~= seq![0x606Fu16, 0x6070u16, 0x6071u16],
{
    let mut v: Vec<u16> = Vec::new();
    v.push(0x606F);
    v.push(0x6070);
    v.push(0x6071);
    proof {
        assert(v@ =~= seq![0x606Fu16, 0x6070u16, 0x6071u16]);
    }
    v
}

/// Extended-identifier flag bit in a gs_usb identifier word.
pub const GS_CAN_EFF_FLAG: u32 = 0x8000_0000;

/// Remote-frame flag bit in a gs_usb identifier word.
pub const GS_CAN_RTR_FLAG: u32 = 0x4000_0000;

/// The echo identifier marking a received (not echoed) frame.
pub const GS_RX_ECHO_ID: u32 = 0xFFFF_FFFF;

/// The 20-byte little-endian host frame: echo id, identifier word, dlc,
/// channel, flags, reserved, and the fixed 8-byte data field (payload
/// clamped to 8, zero padded).
pub open spec fn spec_gs_usb_record(frame: CanTransmitFrame, echo_id: u32) -> Seq<u8> {
    let can_id = gs_usb_wire_id(frame);
    let n: int = if frame.data@.len() <= 8 {
        frame.data@.len() as int
    } else {
        8
    };
    spec_u32_le_bytes(echo_id) + spec_u32_le_bytes(can_id) + seq![n as u8, 0u8, 0u8, 0u8]
        + Seq::new(
        8,
        |i: int|
            if i < n {
                frame.data@[i]
            } else {
                0u8
            },
    )
}

/// The identifier word put on the wire: the frame identifier with the
/// extended and remote flag bits folded in.
pub open spec fn gs_usb_wire_id(frame: CanTransmitFrame) -> u32 {
    (frame.frame_id as int + (if frame.is_extended {
        GS_CAN_EFF_FLAG as int
    } else {
        0
    }) + (if frame.is_rtr {
        GS_CAN_RTR_FLAG as int
    } else {
        0
    })) as u32
}

/// Encodes an outbound frame as a 20-byte gs_usb host frame for the bulk
/// OUT endpoint.
pub fn encode_gs_usb_frame(frame: &CanTransmitFrame, echo_id: u32) -> (r: Vec<u8>)
    requires
        frame.frame_id <= 0x1FFF_FFFF,
    ensures
        r@ == spec_gs_usb_record(*frame, echo_id),
        r@.len() == 20,
{
    let base: u32 = frame.frame_id;
    assert(base <= 0x1FFF_FFFF ==> {
        &&& (base | 0x8000_0000u32) == base + 0x8000_0000
        &&& (base | 0x4000_0000u32) == base + 0x4000_0000
        &&& ((base | 0x8000_0000u32) | 0x4000_0000) == base + 0x8000_0000 + 0x4000_0000
    }) by (bit_vector);
    let mut can_id: u32 = base;
    if frame.is_extended {
        can_id = can_id | GS_CAN_EFF_FLAG;
    }
    if frame.is_rtr {
        can_id = can_id | GS_CAN_RTR_FLAG;
    }
    assert(can_id == gs_usb_wire_id(*frame));
    let mut buf: Vec<u8> = Vec::new();
    buf.push((echo_id & 0xFF) as u8);
    buf.push(((echo_id >> 8) & 0xFF) as u8);
    buf.push(((echo_id >> 16) & 0xFF) as u8);
    buf.push(((echo_id >> 24) & 0xFF) as u8);
    buf.push((can_id & 0xFF) as u8);
    buf.push(((can_id >> 8) & 0xFF) as u8);
    buf.push(((can_id >> 16) & 0xFF) as u8);
    buf.push(((can_id >> 24) & 0xFF) as u8);
    let n: usize = if frame.data.len() <= 8 {
        frame.data.len()
    } else {
        8
    };
    buf.push(n as u8);
    buf.push(0);
    buf.push(0);
    buf.push(0);
    let mut k: usize = 0;
    while k < 8
        invariant
            k <= 8,
            n == if frame.data@.len() <= 8 {
                frame.data@.len() as int
            } else {
                8
            },
            buf@.len() == 12 + k,
            forall|j: int|
                12 <= j < 12 + k ==> #[trigger] buf@[j] == (if j - 12 < n {
                    frame.data@[j - 12]
                } else {
                    0u8
                }),
            buf@.subrange(0, 12) =~= spec_gs_usb_record(*frame, echo_id).subrange(0, 12),
        decreases 8 - k,
    {
        if k < n {
            buf.push(frame.data[k]);
        } else {
            buf.push(0);
        }
        k = k + 1;
        proof {
            assert(buf@.subrange(0, 12) =~= spec_gs_usb_record(*frame, echo_id).subrange(
                0,
                12,
            ));
            assert(buf@[11 + k] == (if k - 1 < n {
                frame.data@[k - 1]
            } else {
                0u8
            }));
        }
    }
    proof {
        let sp = spec_gs_usb_record(*frame, echo_id);
        assert(sp.len() == 20);
        assert forall|i: int| 0 <= i < 20 implies buf@[i] == sp[i] by {
            if i < 12 {
                assert(buf@[i] == buf@.subrange(0, 12)[i]);
                assert(sp[i] == sp.subrange(0, 12)[i]);
            } else {
                assert(sp[i] == (if i - 12 < n {
                    frame.data@[i - 12]
                } else {
                    0u8
                }));
            }
        }
        assert(buf@ =~= sp);
    }
    buf
}

/// What a received bulk-IN buffer parses to, when it is a complete host
/// frame carrying received (not echoed) traffic.
pub open spec fn spec_gs_usb_parse(b: Seq<u8>) -> Option<(u32, u8, bool, bool, Seq<u8>)> {
    if b.len() < 20 {
        None
    } else {
        let echo = crate::gvret::spec_le32(b[0], b[1], b[2], b[3]);
        if echo != GS_RX_ECHO_ID {
            None  // A transmit echo: the transmit path emits its own.
        } else {
            let wire = crate::gvret::spec_le32(b[4], b[5], b[6], b[7]);
            let ext = wire & GS_CAN_EFF_FLAG != 0;
            let rtr = wire & GS_CAN_RTR_FLAG != 0;
            let id = if ext {
                wire & 0x1FFF_FFFF
            } else {
                wire & 0x7FF
            };
            let n: int = if b[8] <= 8 {
                b[8] as int
            } else {
                8
            };
            Some((id, b[9], ext, rtr, if rtr {
                Seq::empty()
            } else {
                b.subrange(12, 12 + n)
            }))
        }
    }
}

/// Parses a bulk-IN completion into a received frame.  Short buffers and
/// transmit echoes yield nothing; every returned frame is well formed.
pub fn parse_gs_usb_host_frame(data: &Vec<u8>, timestamp_us: u64) -> (r: Option<Frame>)
    ensures
        r is Some <==> spec_gs_usb_parse(data@) is Some,
        match (r, spec_gs_usb_parse(data@)) {
            (Some(f), Some((id, channel, ext, rtr, payload))) => {
                &&& f.can_wf()
                &&& f.protocol == Protocol::Can
                &&& f.timestamp_us == timestamp_us
                &&& f.frame_id == id
                &&& f.bus == channel
                &&& f.bytes@ == payload
                &&& f.is_extended == ext
                &&& f.is_rtr == rtr
                &&& !f.is_fd
            },
            (None, None) => true,
            _ => false,
        },
{
    if data.len() < 20 {
        return None;
    }
    let echo: u32 = (data[0] as u32) | ((data[1] as u32) << 8) | ((data[2] as u32) << 16) | ((
    data[3] as u32) << 24);
    if echo != GS_RX_ECHO_ID {
        return None;
    }
    let wire: u32 = (data[4] as u32) | ((data[5] as u32) << 8) | ((data[6] as u32) << 16) | ((
    data[7] as u32) << 24);
    let ext = wire & GS_CAN_EFF_FLAG != 0;
    let rtr = wire & GS_CAN_RTR_FLAG != 0;
    assert(wire & 0x1FFF_FFFF <= 0x1FFF_FFFF && wire & 0x7FF <= 0x7FF) by (bit_vector);
    let id: u32 = if ext {
        wire & 0x1FFF_FFFF
    } else {
        wire & 0x7FF
    };
    let n: usize = if data[8] <= 8 {
        data[8] as usize
    } else {
        8
    };
    let mut bytes: Vec<u8> = Vec::new();
    if !rtr {
        let mut k: usize = 0;
        while k < n
            invariant
                k <= n <= 8,
                data@.len() >= 20,
                bytes@.len() == k,
                forall|j: int| 0 <= j < k ==> bytes@[j] == data@[12 + j],
            decreases n - k,
        {
            bytes.push(data[12 + k]);
            k = k + 1;
        }
        proof {
            assert(bytes@ =~= data@.subrange(12, 12 + n as int));
        }
    }
    Some(
        Frame {
            protocol: Protocol::Can,
            timestamp_us,
            frame_id: id,
            bus: data[9],
            dlc: n as u8,
            bytes,
            is_extended: ext,
            is_fd: false,
            is_rtr: rtr,
            source_address: None,
            incomplete: None,
            direction: None,
        },
    )
}

/// The 4-byte little-endian host-format negotiation payload
/// (`0x0000BEEF`, the candleLight byte-order magic).
pub fn gs_usb_host_format_record() -> (r: Vec<u8>)
    ensures
        r@ =~= seq![0xEFu8, 0xBEu8, 0x00u8, 0x00u8],
{
    let mut v: Vec<u8> = Vec::new();
    v.push(0xEF);
    v.push(0xBE);
    v.push(0x00);
    v.push(0x00);
    proof {
        assert(v@ =~= seq![0xEFu8, 0xBEu8, 0x00u8, 0x00u8]);
    }
    v
}

/// The bit-rate prescaler of the built-in 48 MHz timing table, if the
/// bitrate is supported: 16 time quanta per bit.
pub open spec fn spec_gs_usb_brp(bitrate: u32) -> Option<u32> {
    if bitrate == 125_000 {
        Some(24u32)
    } else if bitrate == 250_000 {
        Some(12u32)
    } else if bitrate == 500_000 {
        Some(6u32)
    } else if bitrate == 1_000_000 {
        Some(3u32)
    } else {
        None
    }
}

/// The 20-byte bit-timing control payload for a supported bitrate:
/// `prop_seg = 1`, `phase_seg1 = 12`, `phase_seg2 = 2`, `sjw = 1` and the
/// table prescaler, each as a little-endian 32-bit word.  Unsupported
/// bitrates are a configuration error.
pub fn gs_usb_bittiming_record(bitrate: u32) -> (r: Result<Vec<u8>, crate::error::IoError>)
    ensures
        match r {
            Ok(v) => spec_gs_usb_brp(bitrate) matches Some(brp) && v@ =~= spec_u32_le_bytes(1)
                + spec_u32_le_bytes(12) + spec_u32_le_bytes(2) + spec_u32_le_bytes(1)
                + spec_u32_le_bytes(brp),
            Err(e) => spec_gs_usb_brp(bitrate) is None && e is Configuration,
        },
{
    let brp: u32 = if bitrate == 125_000 {
        24
    } else if bitrate == 250_000 {
        12
    } else if bitrate == 500_000 {
        6
    } else if bitrate == 1_000_000 {
        3
    } else {
        proof {
            reveal_strlit("unsupported gs_usb bitrate");
        }
        return Err(crate::error::IoError::configuration("unsupported gs_usb bitrate"));
    };
    let mut v: Vec<u8> = Vec::new();
    push_u32_le(&mut v, 1);
    push_u32_le(&mut v, 12);
    push_u32_le(&mut v, 2);
    push_u32_le(&mut v, 1);
    push_u32_le(&mut v, brp);
    proof {
        assert(v@ =~= spec_u32_le_bytes(1) + spec_u32_le_bytes(12) + spec_u32_le_bytes(2)
            + spec_u32_le_bytes(1) + spec_u32_le_bytes(brp));
    }
    Ok(v)
}

/// Appends the four little-endian bytes of a 32-bit word.
pub fn push_u32_le(v: &mut Vec<u8>, x: u32)
    ensures
        final(v)@ == old(v)@ + spec_u32_le_bytes(x),
{
    v.push((x & 0xFF) as u8);
    v.push(((x >> 8) & 0xFF) as u8);
    v.push(((x >> 16) & 0xFF) as u8);
    v.push(((x >> 24) & 0xFF) as u8);
    proof {
        assert(v@ =~= old(v)@ + spec_u32_le_bytes(x));
    }
}

/// Listen-only mode flag of the 8-byte mode record.
pub const GS_CAN_MODE_LISTEN_ONLY: u32 = 1;

/// The 8-byte mode control payload: mode word (1 starts, 0 stops) and the
/// flag word (listen-only when requested), little-endian.
pub fn gs_usb_mode_record(start: bool, listen_only: bool) -> (r: Vec<u8>)
    ensures
        r@ =~= spec_u32_le_bytes(
            if start {
                1u32
            } else {
                0u32
            },
        ) + spec_u32_le_bytes(
            if start && listen_only {
                GS_CAN_MODE_LISTEN_ONLY
            } else {
                0u32
            },
        ),
{
    let mut v: Vec<u8> = Vec::new();
    push_u32_le(
        &mut v,
        if start {
            1
        } else {
            0
        },
    );
    push_u32_le(
        &mut v,
        if start && listen_only {
            GS_CAN_MODE_LISTEN_ONLY
        } else {
            0
        },
    );
    proof {
        assert(v@ =~= spec_u32_le_bytes(
            if start {
                1u32
            } else {
                0u32
            },
        ) + spec_u32_le_bytes(
            if start && listen_only {
                GS_CAN_MODE_LISTEN_ONLY
            } else {
                0u32
            },
        ));
    }
    v
}

/// The capability record of a gs_usb device; transmit is available only
/// outside listen-only mode.
pub fn gs_usb_capabilities(listen_only: bool, channel: u8) -> (r: IOCapabilities)
    ensures
        !r.can_pause,
        r.is_realtime,
        r.can_transmit == !listen_only,
        !r.supports_canfd,
        r.supports_extended_id,
        r.supports_rtr,
        !r.supports_seek,
        !r.supports_speed_control,
        !r.supports_time_range,
        !r.can_transmit_serial,
        r.available_buses@ =~= seq![channel],
{
    let mut buses: Vec<u8> = Vec::new();
    buses.push(channel);
    proof {
        assert(buses@ =~= seq![channel]);
    }
    IOCapabilities {
        can_pause: false,
        supports_time_range: false,
        is_realtime: true,
        supports_speed_control: false,
        supports_seek: false,
        can_transmit: !listen_only,
        can_transmit_serial: false,
        supports_canfd: false,
        supports_extended_id: true,
        supports_rtr: true,
        available_buses: buses,
    }
}

} // verus!
