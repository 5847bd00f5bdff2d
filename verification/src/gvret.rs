//! GVRET binary protocol codec, shared by the TCP and the serial transport.
//!
//! Receive records: sync `0xF1`, opcode, and for the frame opcode `0x00` a
//! host-ignored 4-byte timestamp, a 4-byte little-endian identifier whose
//! bit 31 marks an extended frame, one byte packing `(bus << 4) | dlc`, and
//! the payload.  Control replies are skipped with fixed lengths; anything
//! else resynchronizes on the next sync byte.
//!
//! Transmit records: sync, command `0x00`, 4-byte little-endian identifier
//! (bit 31 set for extended), bus byte, length byte, payload.

use vstd::prelude::*;

use crate::frame::{CanTransmitFrame, Frame, IOCapabilities, Protocol, TransmitResult};
use crate::strutil::append_u64;
use vstd::string::StringExecFns;

verus! {

/// GVRET sync byte.
pub const GVRET_SYNC: u8 = 0xF1;

/// GVRET opcode for a CAN frame record.
pub const GVRET_CMD_FRAME: u8 = 0x00;

/// Payload length for each DLC nibble (CAN FD length codes).
pub open spec fn spec_dlc_len(nib: u8) -> u8 {
    if nib <= 8 {
        nib
    } else if nib == 9 {
        12
    } else if nib == 10 {
        16
    } else if nib == 11 {
        20
    } else if nib == 12 {
        24
    } else if nib == 13 {
        32
    } else if nib == 14 {
        48
    } else {
        64
    }
}

/// Payload length for a DLC nibble.
pub fn dlc_len(nib: u8) -> (r: u8)
    requires
        nib < 16,
    ensures
        r == spec_dlc_len(nib),
{
    match nib {
        0 => 0,
        1 => 1,
        2 => 2,
        3 => 3,
        4 => 4,
        5 => 5,
        6 => 6,
        7 => 7,
        8 => 8,
        9 => 12,
        10 => 16,
        11 => 20,
        12 => 24,
        13 => 32,
        14 => 48,
        _ => 64,
    }
}

/// Total record length (header included) of a control reply, or 0 for
/// opcodes that are not skipped control replies.
pub open spec fn ctrl_len(op: u8) -> int {
    if op == 0x01 {
        6  // TIMEBASE
    } else if op == 0x09 {
        4  // KEEPALIVE
    } else if op == 0x06 {
        12  // CANPARAMS
    } else if op == 0x07 {
        7  // DEVINFO
    } else if op == 0x0C {
        3  // NUMBUSES
    } else {
        0
    }
}

/// A 32-bit value from four little-endian bytes.
pub open spec fn spec_le32(b0: u8, b1: u8, b2: u8, b3: u8) -> u32 {
    (b0 as u32) | ((b1 as u32) << 8) | ((b2 as u32) << 16) | ((b3 as u32) << 24)
}

/// The four little-endian bytes of a 32-bit value.
pub open spec fn spec_u32_le_bytes(v: u32) -> Seq<u8> {
    seq![
        (v & 0xFF) as u8,
        ((v >> 8) & 0xFF) as u8,
        ((v >> 16) & 0xFF) as u8,
        ((v >> 24) & 0xFF) as u8,
    ]
}

/// Index of the first sync byte of `b`, or `b.len()` if there is none.
pub open spec fn find_sync(b: Seq<u8>) -> int
    decreases b.len(),
{
    if b.len() == 0 {
        0
    } else if b[0] == GVRET_SYNC {
        0
    } else {
        1 + find_sync(b.skip(1))
    }
}

/// `find_sync` points at the first sync byte, and everything before it is
/// not a sync byte.
pub proof fn lemma_find_sync(b: Seq<u8>)
    ensures
        0 <= find_sync(b) <= b.len(),
        forall|i: int| 0 <= i < find_sync(b) ==> b[i] != GVRET_SYNC,
        find_sync(b) < b.len() ==> b[find_sync(b)] == GVRET_SYNC,
    decreases b.len(),
{
    if b.len() == 0 {
    } else if b[0] == GVRET_SYNC {
    } else {
        lemma_find_sync(b.skip(1));
        assert forall|i: int| 0 <= i < find_sync(b) implies b[i] != GVRET_SYNC by {
            if i > 0 {
                assert(b.skip(1)[i - 1] == b[i]);
            }
        }
        if find_sync(b) < b.len() {
            assert(b.skip(1)[find_sync(b) - 1] == b[find_sync(b)]);
        }
    }
}

/// `find_sync` is the unique position with those two properties.
pub proof fn lemma_find_sync_is(b: Seq<u8>, k: int)
    requires
        0 <= k <= b.len(),
        forall|i: int| 0 <= i < k ==> b[i] != GVRET_SYNC,
        k < b.len() ==> b[k] == GVRET_SYNC,
    ensures
        find_sync(b) == k,
    decreases b.len(),
{
    if b.len() == 0 {
    } else if b[0] == GVRET_SYNC {
    } else {
        assert(k >= 1);
        lemma_find_sync_is(b.skip(1), k - 1);
    }
}

/// A CAN frame as read off the GVRET wire.
#[verifier::ext_equal]
pub ghost struct GvretFrame {
    /// Masked arbitration identifier.
    pub frame_id: u32,
    /// Bus nibble.
    pub bus: u8,
    /// Payload bytes.
    pub payload: Seq<u8>,
    /// Bit 31 of the wire identifier.
    pub is_extended: bool,
    /// Whether the payload length exceeds 8 (CAN FD).
    pub is_fd: bool,
}

/// Result of scanning a receive buffer: the frames found, and the bytes
/// that remain buffered for the next read.
#[verifier::ext_equal]
pub ghost struct GvretScan {
    /// Frames in wire order.
    pub frames: Seq<GvretFrame>,
    /// Unconsumed suffix.
    pub rest: Seq<u8>,
}

/// The frame encoded at the start of `s`, which must begin with a complete
/// frame record (`F1 00`, 4 timestamp bytes, 4 identifier bytes, bus/dlc
/// byte, payload).
pub open spec fn gvret_frame_at(s: Seq<u8>) -> GvretFrame {
    let can_id = spec_le32(s[6], s[7], s[8], s[9]);
    let is_ext = can_id & 0x8000_0000 != 0;
    let arb = if is_ext {
        can_id & 0x1FFF_FFFF
    } else {
        can_id & 0x7FF
    };
    let plen = spec_dlc_len(s[10] & 0x0F) as int;
    GvretFrame {
        frame_id: arb,
        bus: (s[10] >> 4) & 0x0F,
        payload: s.subrange(11, 11 + plen),
        is_extended: is_ext,
        is_fd: plen > 8,
    }
}

/// The GVRET receive scanner: skips to the next sync byte, consumes control
/// replies and complete frame records, resynchronizes over unknown opcodes,
/// and clears a syncless buffer that has grown past 1024 bytes.
pub open spec fn gvret_scan(b: Seq<u8>) -> GvretScan
    decreases b.len(),
    via gvret_scan_decreases
{
    let p = find_sync(b);
    if p >= b.len() {
        GvretScan {
            frames: Seq::empty(),
            rest: if b.len() > 1024 {
                Seq::empty()
            } else {
                b
            },
        }
    } else {
        let s = b.skip(p);
        if s.len() < 2 {
            GvretScan { frames: Seq::empty(), rest: s }
        } else {
            let op = s[1];
            if ctrl_len(op) != 0 {
                if s.len() < ctrl_len(op) {
                    GvretScan { frames: Seq::empty(), rest: s }
                } else {
                    gvret_scan(s.skip(ctrl_len(op)))
                }
            } else if op != GVRET_CMD_FRAME {
                gvret_scan(s.skip(1))
            } else {
                if s.len() < 11 {
                    GvretScan { frames: Seq::empty(), rest: s }
                } else {
                    let plen = spec_dlc_len(s[10] & 0x0F) as int;
                    if s.len() < 11 + plen {
                        GvretScan { frames: Seq::empty(), rest: s }
                    } else {
                        let tail = gvret_scan(s.skip(11 + plen));
                        GvretScan {
                            frames: seq![gvret_frame_at(s)] + tail.frames,
                            rest: tail.rest,
                        }
                    }
                }
            }
        }
    }
}

#[via_fn]
proof fn gvret_scan_decreases(b: Seq<u8>) {
    lemma_find_sync(b);
}

/// How an exec [`Frame`] corresponds to a scanned wire frame: every field
/// the wire determines is copied, the timestamp is the host time handed to
/// the parser, and the bookkeeping fields are clear.
pub open spec fn frame_matches(f: Frame, g: GvretFrame, timestamp_us: u64) -> bool {
    &&& f.protocol == Protocol::Can
    &&& f.timestamp_us == timestamp_us
    &&& f.frame_id == g.frame_id
    &&& f.bus == g.bus
    &&& f.dlc as int == g.payload.len()
    &&& f.bytes@ == g.payload
    &&& f.is_extended == g.is_extended
    &&& f.is_fd == g.is_fd
    &&& f.is_rtr == false
    &&& f.source_address is None
    &&& f.incomplete is None
    &&& f.direction is None
}

/// Skipping the garbage before the first sync byte does not change the
/// scan result.
pub proof fn lemma_gvret_scan_skip_garbage(b: Seq<u8>)
    requires
        find_sync(b) < b.len(),
    ensures
        gvret_scan(b) == gvret_scan(b.skip(find_sync(b))),
{
    let p = find_sync(b);
    let s = b.skip(p);
    lemma_find_sync(b);
    assert(s[0] == b[p]);
    lemma_find_sync_is(s, 0);
    assert(s.skip(0) =~= s);
    assert(gvret_scan(b) == gvret_scan(s));
}

/// Parses every complete GVRET record out of `buffer`, leaving the
/// unconsumed suffix in place.  `timestamp_us` is the host time stamped on
/// each parsed frame (the wire timestamp is ignored).
pub fn parse_gvret_frames(buffer: &mut Vec<u8>, timestamp_us: u64) -> (out: Vec<Frame>)
    ensures
        final(buffer)@ == gvret_scan(old(buffer)@).rest,
        out@.len() == gvret_scan(old(buffer)@).frames.len(),
        forall|i: int|
            0 <= i < out@.len() ==> frame_matches(
                out@[i],
                gvret_scan(old(buffer)@).frames[i],
                timestamp_us,
            ),
        forall|i: int| 0 <= i < out@.len() ==> (#[trigger] out@[i]).can_wf(),
{
    let ghost orig = buffer@;
    let mut out: Vec<Frame> = Vec::new();
    let ghost mut done: Seq<GvretFrame> = Seq::empty();
    let mut pos: usize = 0;
    proof {
        assert(orig.skip(0) =~= orig);
        assert(done + gvret_scan(orig).frames =~= gvret_scan(orig).frames);
    }
    loop
        invariant
            buffer@ == orig,
            pos <= orig.len(),
            gvret_scan(orig).frames =~= done + gvret_scan(orig.skip(pos as int)).frames,
            gvret_scan(orig).rest =~= gvret_scan(orig.skip(pos as int)).rest,
            out@.len() == done.len(),
            forall|i: int|
                0 <= i < out@.len() ==> frame_matches(out@[i], done[i], timestamp_us),
            forall|i: int| 0 <= i < out@.len() ==> (#[trigger] out@[i]).can_wf(),
        ensures
            buffer@ == orig,
            pos <= orig.len(),
            gvret_scan(orig).frames =~= done,
            gvret_scan(orig).rest =~= orig.skip(pos as int),
            out@.len() == done.len(),
            forall|i: int|
                0 <= i < out@.len() ==> frame_matches(out@[i], done[i], timestamp_us),
            forall|i: int| 0 <= i < out@.len() ==> (#[trigger] out@[i]).can_wf(),
        decreases orig.len() - pos,
    {
        let ghost cur = orig.skip(pos as int);
        // Scan forward to the next sync byte.
        let mut p: usize = pos;
        while p < buffer.len() && buffer[p] != GVRET_SYNC
            invariant
                buffer@ == orig,
                pos <= p <= orig.len(),
                forall|i: int| pos <= i < p ==> orig[i] != GVRET_SYNC,
            decreases orig.len() - p,
        {
            p = p + 1;
        }
        proof {
            assert forall|i: int| 0 <= i < p - pos implies cur[i] != GVRET_SYNC by {
                assert(cur[i] == orig[pos + i]);
            }
            if (p as int) < orig.len() {
                assert(cur[p - pos] == orig[p as int]);
            }
            lemma_find_sync_is(cur, p - pos as int);
        }
        if p >= buffer.len() {
            // No sync byte: bounded recovery.
            proof {
                assert(gvret_scan(cur).frames =~= Seq::<GvretFrame>::empty());
                assert(done + gvret_scan(cur).frames =~= done);
            }
            if buffer.len() - pos > 1024 {
                pos = buffer.len();
                proof {
                    assert(orig.skip(orig.len() as int) =~= Seq::<u8>::empty());
                    assert(gvret_scan(cur).rest =~= Seq::<u8>::empty());
                }
            } else {
                proof {
                    assert(gvret_scan(cur).rest =~= cur);
                }
            }
            break;
        }
        // Drop the garbage before the sync byte.
        proof {
            lemma_gvret_scan_skip_garbage(cur);
            assert(cur.skip(p - pos as int) =~= orig.skip(p as int));
        }
        pos = p;
        let ghost s = orig.skip(pos as int);
        proof {
            assert(s[0] == orig[p as int]);
            lemma_find_sync_is(s, 0);
            assert(s.skip(0) =~= s);
            assert forall|i: int| 0 <= i < s.len() implies s[i] == orig[p + i] by {}
        }
        let remaining = buffer.len() - p;
        if remaining < 2 {
            proof {
                assert(gvret_scan(s).frames =~= Seq::<GvretFrame>::empty());
                assert(done + gvret_scan(s).frames =~= done);
                assert(gvret_scan(s).rest =~= s);
            }
            break;
        }
        let op = buffer[p + 1];
        assert(op == s[1]);
        if op == 0x01 || op == 0x09 || op == 0x06 || op == 0x07 || op == 0x0C {
            let len: usize = if op == 0x01 {
                6
            } else if op == 0x09 {
                4
            } else if op == 0x06 {
                12
            } else if op == 0x07 {
                7
            } else {
                3
            };
            assert(len as int == ctrl_len(op));
            if remaining < len {
                proof {
                    assert(gvret_scan(s).frames =~= Seq::<GvretFrame>::empty());
                    assert(done + gvret_scan(s).frames =~= done);
                    assert(gvret_scan(s).rest =~= s);
                }
                break;
            }
            proof {
                assert(s.skip(ctrl_len(op)) =~= orig.skip(p + ctrl_len(op)));
                assert(gvret_scan(s) == gvret_scan(orig.skip(p + len as int)));
            }
            pos = p + len;
        } else if op != GVRET_CMD_FRAME {
            proof {
                assert(s.skip(1) =~= orig.skip(p + 1));
                assert(gvret_scan(s) == gvret_scan(orig.skip(p + 1)));
            }
            pos = p + 1;
        } else {
            if remaining < 11 {
                proof {
                    assert(gvret_scan(s).frames =~= Seq::<GvretFrame>::empty());
                    assert(done + gvret_scan(s).frames =~= done);
                    assert(gvret_scan(s).rest =~= s);
                }
                break;
            }
            let bus_dlc = buffer[p + 10];
            assert(bus_dlc == s[10]);
            assert(bus_dlc & 0x0F < 16) by (bit_vector);
            let nib = bus_dlc & 0x0F;
            let plen = dlc_len(nib) as usize;
            if remaining < 11 + plen {
                proof {
                    assert(gvret_scan(s).frames =~= Seq::<GvretFrame>::empty());
                    assert(done + gvret_scan(s).frames =~= done);
                    assert(gvret_scan(s).rest =~= s);
                }
                break;
            }
            // Complete frame record: decode it.
            let b0 = buffer[p + 6];
            let b1 = buffer[p + 7];
            let b2 = buffer[p + 8];
            let b3 = buffer[p + 9];
            let can_id: u32 = (b0 as u32) | ((b1 as u32) << 8) | ((b2 as u32) << 16) | ((
            b3 as u32) << 24);
            assert(can_id == spec_le32(s[6], s[7], s[8], s[9]));
            let is_ext = can_id & 0x8000_0000 != 0;
            assert(can_id & 0x1FFF_FFFF <= 0x1FFF_FFFF && can_id & 0x7FF <= 0x7FF)
                by (bit_vector);
            let arb: u32 = if is_ext {
                can_id & 0x1FFF_FFFF
            } else {
                can_id & 0x7FF
            };
            assert((bus_dlc >> 4) & 0x0F < 16) by (bit_vector);
            let mut payload: Vec<u8> = Vec::new();
            let mut k: usize = 0;
            assert(p + 11 + plen <= orig.len() <= usize::MAX);
            while k < plen
                invariant
                    buffer@ == orig,
                    k <= plen,
                    plen <= 64,
                    p + 11 + plen <= orig.len() <= usize::MAX,
                    payload@.len() == k,
                    forall|j: int| 0 <= j < k ==> payload@[j] == orig[p + 11 + j],
                decreases plen - k,
            {
                payload.push(buffer[p + 11 + k]);
                k = k + 1;
            }
            proof {
                assert(payload@ =~= s.subrange(11, 11 + plen as int));
            }
            let f = Frame {
                protocol: Protocol::Can,
                timestamp_us,
                frame_id: arb,
                bus: (bus_dlc >> 4) & 0x0F,
                dlc: plen as u8,
                bytes: payload,
                is_extended: is_ext,
                is_fd: plen > 8,
                is_rtr: false,
                source_address: None,
                incomplete: None,
                direction: None,
            };
            proof {
                let g = gvret_frame_at(s);
                assert(frame_matches(f, g, timestamp_us));
                assert(f.can_wf());
                assert(s.skip(11 + plen as int) =~= orig.skip(p + 11 + plen));
                let tail = gvret_scan(orig.skip(p + 11 + plen as int));
                assert(gvret_scan(s).frames == seq![g] + tail.frames);
                assert(gvret_scan(s).rest == tail.rest);
                assert(gvret_scan(orig).frames =~= (done + seq![g]) + tail.frames);
                done = done + seq![g];
            }
            out.push(f);
            pos = p + 11 + plen;
        }
    }
    // Keep only the unconsumed suffix.
    let rest = buffer.split_off(pos);
    *buffer = rest;
    proof {
        assert(buffer@ =~= gvret_scan(orig).rest);
        assert(out@.len() == gvret_scan(orig).frames.len());
    }
    out
}

/// Whether a transmit frame passes GVRET validation: payload within the
/// classic or FD limit, and a bus the protocol can address.
pub open spec fn gvret_frame_valid(frame: CanTransmitFrame) -> bool {
    &&& (!frame.is_fd ==> frame.data@.len() <= 8)
    &&& (frame.is_fd ==> frame.data@.len() <= 64)
    &&& frame.bus <= 4
}

/// Validates a frame for GVRET transmission; the error carries a rendered
/// failure message.
pub fn validate_gvret_frame(frame: &CanTransmitFrame) -> (r: Result<(), TransmitResult>)
    ensures
        r is Ok <==> gvret_frame_valid(*frame),
        r matches Err(t) ==> !t.success,
{
    proof {
        reveal_strlit("classic CAN frame data too long: ");
        reveal_strlit("CAN FD frame data too long: ");
        reveal_strlit(" bytes (max 8)");
        reveal_strlit(" bytes (max 64)");
        reveal_strlit("invalid bus number: ");
        reveal_strlit(" (valid: 0-4)");
    }
    if !frame.is_fd && frame.data.len() > 8 {
        let mut m = String::from_str("classic CAN frame data too long: ");
        append_u64(&mut m, frame.data.len() as u64);
        m.append(" bytes (max 8)");
        return Err(TransmitResult::error(m));
    }
    if frame.is_fd && frame.data.len() > 64 {
        let mut m = String::from_str("CAN FD frame data too long: ");
        append_u64(&mut m, frame.data.len() as u64);
        m.append(" bytes (max 64)");
        return Err(TransmitResult::error(m));
    }
    if frame.bus > 4 {
        let mut m = String::from_str("invalid bus number: ");
        append_u64(&mut m, frame.bus as u64);
        m.append(" (valid: 0-4)");
        return Err(TransmitResult::error(m));
    }
    Ok(())
}

/// The identifier word put on the wire for a transmit frame: bit 31 set for
/// extended frames, standard identifiers masked to 11 bits.
pub open spec fn gvret_wire_id(frame: CanTransmitFrame) -> u32 {
    if frame.is_extended {
        frame.frame_id | 0x8000_0000
    } else {
        frame.frame_id & 0x7FF
    }
}

/// The byte-exact GVRET transmit record for a frame.
pub open spec fn spec_encode_gvret(frame: CanTransmitFrame) -> Seq<u8> {
    seq![GVRET_SYNC, GVRET_CMD_FRAME] + spec_u32_le_bytes(gvret_wire_id(frame)) + seq![
        frame.bus,
        frame.data@.len() as u8,
    ] + frame.data@
}

/// Encodes a CAN frame into the GVRET transmit wire format.
pub fn encode_gvret_frame(frame: &CanTransmitFrame) -> (r: Vec<u8>)
    requires
        frame.data@.len() <= 64,
    ensures
        r@ == spec_encode_gvret(*frame),
{
    let mut buf: Vec<u8> = Vec::new();
    buf.push(GVRET_SYNC);
    buf.push(GVRET_CMD_FRAME);
    let id: u32 = if frame.is_extended {
        frame.frame_id | 0x8000_0000
    } else {
        frame.frame_id & 0x7FF
    };
    buf.push((id & 0xFF) as u8);
    buf.push(((id >> 8) & 0xFF) as u8);
    buf.push(((id >> 16) & 0xFF) as u8);
    buf.push(((id >> 24) & 0xFF) as u8);
    buf.push(frame.bus);
    buf.push(frame.data.len() as u8);
    let ghost header = buf@;
    let mut k: usize = 0;
    while k < frame.data.len()
        invariant
            k <= frame.data@.len(),
            frame.data@.len() <= 64,
            buf@.len() == 8 + k,
            header.len() == 8,
            buf@.subrange(0, 8) =~= header,
            forall|j: int| 0 <= j < k ==> buf@[8 + j] == frame.data@[j],
        decreases frame.data@.len() - k,
    {
        buf.push(frame.data[k]);
        k = k + 1;
        proof {
            assert(buf@.subrange(0, 8) =~= header);
        }
    }
    proof {
        let sp = spec_encode_gvret(*frame);
        assert(id == gvret_wire_id(*frame));
        assert(sp.len() == 8 + frame.data@.len());
        assert(buf@.len() == sp.len());
        assert forall|i: int| 0 <= i < buf@.len() implies buf@[i] == sp[i] by {
            if i < 8 {
                assert(buf@[i] == buf@.subrange(0, 8)[i]);
                assert(buf@[i] == header[i]);
            } else {
                assert(buf@[i] == frame.data@[i - 8]);
                assert(sp[i] == frame.data@[i - 8]);
            }
        }
        assert(buf@ =~= sp);
    }
    buf
}

/// The capability record shared by GVRET devices over TCP and serial.
pub fn gvret_capabilities() -> (r: IOCapabilities)
    ensures
        !r.can_pause,
        !r.supports_time_range,
        r.is_realtime,
        !r.supports_speed_control,
        !r.supports_seek,
        r.can_transmit,
        !r.can_transmit_serial,
        r.supports_canfd,
        r.supports_extended_id,
        r.supports_rtr,
        r.available_buses@ =~= seq![0u8, 1u8, 2u8, 3u8, 4u8],
{
    let mut buses: Vec<u8> = Vec::new();
    buses.push(0);
    buses.push(1);
    buses.push(2);
    buses.push(3);
    buses.push(4);
    proof {
        assert(buses@ =~= seq![0u8, 1u8, 2u8, 3u8, 4u8]);
    }
    IOCapabilities {
        can_pause: false,
        supports_time_range: false,
        is_realtime: true,
        supports_speed_control: false,
        supports_seek: false,
        can_transmit: true,
        can_transmit_serial: false,
        supports_canfd: true,
        supports_extended_id: true,
        supports_rtr: true,
        available_buses: buses,
    }
}

/// Reassembling the four little-endian bytes of a value gives the value
/// back.
pub proof fn lemma_le32_of_bytes(v: u32)
    ensures
        spec_le32(
            (v & 0xFF) as u8,
            ((v >> 8) & 0xFF) as u8,
            ((v >> 16) & 0xFF) as u8,
            ((v >> 24) & 0xFF) as u8,
        ) == v,
{
    assert((((v & 0xFF) as u8) as u32) | (((((v >> 8) & 0xFF) as u8) as u32) << 8) | (((((v
        >> 16) & 0xFF) as u8) as u32) << 16) | (((((v >> 24) & 0xFF) as u8) as u32) << 24)
        == v) by (bit_vector);
}

/// A GVRET transmit record as the device reads it back off the wire.
#[verifier::ext_equal]
pub ghost struct GvretTransmitRecord {
    /// Masked arbitration identifier.
    pub frame_id: u32,
    /// Bus byte.
    pub bus: u8,
    /// Payload bytes.
    pub data: Seq<u8>,
    /// Bit 31 of the wire identifier.
    pub is_extended: bool,
}

/// The device-side reading of a GVRET transmit record: sync, command,
/// 4-byte little-endian identifier, bus, length, payload.
pub open spec fn spec_decode_gvret_transmit(b: Seq<u8>) -> Option<GvretTransmitRecord> {
    if b.len() < 8 {
        None
    } else if b[0] != GVRET_SYNC || b[1] != GVRET_CMD_FRAME {
        None
    } else {
        let wire = spec_le32(b[2], b[3], b[4], b[5]);
        let ext = wire & 0x8000_0000 != 0;
        let id = if ext {
            wire & 0x1FFF_FFFF
        } else {
            wire & 0x7FF
        };
        if b.len() != 8 + b[7] as int {
            None
        } else {
            Some(
                GvretTransmitRecord { frame_id: id, bus: b[6], data: b.skip(8), is_extended: ext },
            )
        }
    }
}

/// GVRET transmit round trip: decoding an encoded frame recovers its
/// identifier, bus, payload and extended flag.
pub proof fn lemma_gvret_transmit_round_trip(frame: CanTransmitFrame)
    requires
        frame.data@.len() <= 64,
        !frame.is_extended ==> frame.frame_id <= 0x7FF,
        frame.is_extended ==> frame.frame_id <= 0x1FFF_FFFF,
    ensures
        spec_decode_gvret_transmit(spec_encode_gvret(frame)) == Some(
            GvretTransmitRecord {
                frame_id: frame.frame_id,
                bus: frame.bus,
                data: frame.data@,
                is_extended: frame.is_extended,
            },
        ),
{
    let b = spec_encode_gvret(frame);
    let w = gvret_wire_id(frame);
    assert(b.len() == 8 + frame.data@.len());
    assert(b[0] == GVRET_SYNC && b[1] == GVRET_CMD_FRAME);
    assert(b[2] == (w & 0xFF) as u8 && b[3] == ((w >> 8) & 0xFF) as u8 && b[4] == ((w >> 16)
        & 0xFF) as u8 && b[5] == ((w >> 24) & 0xFF) as u8);
    assert(b[6] == frame.bus && b[7] == frame.data@.len() as u8);
    lemma_le32_of_bytes(w);
    assert(spec_le32(b[2], b[3], b[4], b[5]) == w);
    let id = frame.frame_id;
    if frame.is_extended {
        assert((id | 0x8000_0000) & 0x8000_0000 != 0) by (bit_vector);
        assert(id <= 0x1FFF_FFFF ==> (id | 0x8000_0000) & 0x1FFF_FFFF == id) by (bit_vector);
    } else {
        assert((id & 0x7FF) & 0x8000_0000 == 0) by (bit_vector);
        assert(id <= 0x7FF ==> (id & 0x7FF) & 0x7FF == id) by (bit_vector);
    }
    assert(b[7] as int == frame.data@.len());
    assert(b.skip(8) =~= frame.data@);
}

/// A complete GVRET receive record for a frame, as the adapter emits it:
/// sync, frame opcode, 4 timestamp bytes, 4 little-endian identifier bytes,
/// the packed bus/dlc byte, and a payload of the length the dlc nibble
/// encodes.
pub open spec fn gvret_rx_record(
    can_id: u32,
    bus_dlc: u8,
    ts: Seq<u8>,
    payload: Seq<u8>,
) -> Seq<u8> {
    seq![GVRET_SYNC, GVRET_CMD_FRAME] + ts + spec_u32_le_bytes(can_id) + seq![bus_dlc] + payload
}

/// GVRET receive round trip: the scanner takes exactly one frame off a
/// complete receive record and scans on behind it, whatever follows.
pub proof fn lemma_gvret_scan_record(
    can_id: u32,
    bus_dlc: u8,
    ts: Seq<u8>,
    payload: Seq<u8>,
    rest: Seq<u8>,
)
    requires
        ts.len() == 4,
        payload.len() == spec_dlc_len(bus_dlc & 0x0F) as int,
    ensures
        ({
            let b = gvret_rx_record(can_id, bus_dlc, ts, payload) + rest;
            let g = gvret_scan(b).frames;
            &&& g.len() == 1 + gvret_scan(rest).frames.len()
            &&& g.skip(1) =~= gvret_scan(rest).frames
            &&& gvret_scan(b).rest == gvret_scan(rest).rest
            &&& g[0].frame_id == (if can_id & 0x8000_0000 != 0 {
                can_id & 0x1FFF_FFFF
            } else {
                can_id & 0x7FF
            })
            &&& g[0].bus == (bus_dlc >> 4) & 0x0F
            &&& g[0].payload =~= payload
            &&& g[0].is_extended == (can_id & 0x8000_0000 != 0)
            &&& g[0].is_fd == (payload.len() > 8)
        }),
{
    let rec = gvret_rx_record(can_id, bus_dlc, ts, payload);
    let b = rec + rest;
    let plen = spec_dlc_len(bus_dlc & 0x0F) as int;
    assert(rec.len() == 11 + plen);
    assert(b[0] == GVRET_SYNC);
    lemma_find_sync_is(b, 0);
    assert(b.skip(0) =~= b);
    assert(b[1] == GVRET_CMD_FRAME);
    assert(ctrl_len(GVRET_CMD_FRAME) == 0);
    assert(b[10] == bus_dlc);
    assert(b.len() >= 11 + plen);
    assert(b.skip(11 + plen) =~= rest);
    let bytes = spec_u32_le_bytes(can_id);
    assert(b[6] == bytes[0] && b[7] == bytes[1] && b[8] == bytes[2] && b[9] == bytes[3]);
    lemma_le32_of_bytes(can_id);
    assert(spec_le32(b[6], b[7], b[8], b[9]) == can_id);
    assert(b.subrange(11, 11 + plen) =~= payload);
    let tail = gvret_scan(b.skip(11 + plen));
    assert(gvret_scan(b).frames == seq![gvret_frame_at(b)] + tail.frames);
    assert(gvret_scan(b).frames.skip(1) =~= tail.frames);
}

/// Resynchronization: noise that contains no sync byte changes nothing
/// about which frames the scanner finds behind it.  (A noise byte equal to
/// the sync byte itself can start a record and is out of this statement's
/// reach.)
pub proof fn lemma_gvret_resync(noise: Seq<u8>, rest: Seq<u8>)
    requires
        forall|i: int| 0 <= i < noise.len() ==> noise[i] != GVRET_SYNC,
    ensures
        gvret_scan(noise + rest).frames == gvret_scan(rest).frames,
{
    let b = noise + rest;
    lemma_find_sync(rest);
    let pr = find_sync(rest);
    assert forall|i: int| 0 <= i < noise.len() + pr implies b[i] != GVRET_SYNC by {
        if i < noise.len() {
        } else {
            assert(b[i] == rest[i - noise.len()]);
        }
    }
    if pr < rest.len() {
        assert(b[noise.len() + pr] == rest[pr]);
    }
    lemma_find_sync_is(b, noise.len() + pr);
    if pr >= rest.len() {
        assert(gvret_scan(b).frames =~= Seq::<GvretFrame>::empty());
        assert(gvret_scan(rest).frames =~= Seq::<GvretFrame>::empty());
    } else {
        lemma_gvret_scan_skip_garbage(b);
        lemma_gvret_scan_skip_garbage(rest);
        assert(b.skip(noise.len() + pr) =~= rest.skip(pr));
    }
}

/// Whether a stretch of noise is free of the sync byte.
pub open spec fn sync_free(noise: Seq<u8>) -> bool {
    forall|j: int| 0 <= j < noise.len() ==> noise[j] != GVRET_SYNC
}

/// A complete receive record, by its wire fields.
#[verifier::ext_equal]
pub ghost struct GvretRxRecord {
    /// The 4-byte little-endian identifier word.
    pub can_id: u32,
    /// The packed bus/dlc byte.
    pub bus_dlc: u8,
    /// The 4 host-ignored timestamp bytes.
    pub ts: Seq<u8>,
    /// The payload, sized by the dlc nibble.
    pub payload: Seq<u8>,
}

/// Well-sizedness of a receive record's variable parts.
pub open spec fn rx_record_wf(r: GvretRxRecord) -> bool {
    &&& r.ts.len() == 4
    &&& r.payload.len() == spec_dlc_len(r.bus_dlc & 0x0F) as int
}

/// A wire stream of records, each preceded by its stretch of noise.
pub open spec fn noisy_stream(noises: Seq<Seq<u8>>, records: Seq<GvretRxRecord>) -> Seq<u8>
    decreases records.len(),
{
    if records.len() == 0 {
        Seq::empty()
    } else {
        noises[0] + gvret_rx_record(
            records[0].can_id,
            records[0].bus_dlc,
            records[0].ts,
            records[0].payload,
        ) + noisy_stream(noises.skip(1), records.skip(1))
    }
}

/// Resynchronization, end to end: any number of complete receive records,
/// each preceded by sync-free noise, scan to exactly their frames — the
/// noise drops nothing.  (A noise byte equal to the sync byte itself can
/// start a record and is out of this statement's reach.)
pub proof fn lemma_gvret_resync_stream(noises: Seq<Seq<u8>>, records: Seq<GvretRxRecord>)
    requires
        noises.len() == records.len(),
        forall|i: int| 0 <= i < noises.len() ==> sync_free(#[trigger] noises[i]),
        forall|i: int| 0 <= i < records.len() ==> rx_record_wf(#[trigger] records[i]),
    ensures
        ({
            let frames = gvret_scan(noisy_stream(noises, records)).frames;
            &&& frames.len() == records.len()
            &&& forall|i: int|
                0 <= i < records.len() ==> {
                    let r = #[trigger] records[i];
                    &&& frames[i].frame_id == (if r.can_id & 0x8000_0000 != 0 {
                        r.can_id & 0x1FFF_FFFF
                    } else {
                        r.can_id & 0x7FF
                    })
                    &&& frames[i].bus == (r.bus_dlc >> 4) & 0x0F
                    &&& frames[i].payload == r.payload
                    &&& frames[i].is_extended == (r.can_id & 0x8000_0000 != 0)
                    &&& frames[i].is_fd == (r.payload.len() > 8)
                }
        }),
    decreases records.len(),
{
    if records.len() > 0 {
        let r0 = records[0];
        let rec0 = gvret_rx_record(r0.can_id, r0.bus_dlc, r0.ts, r0.payload);
        let rest = noisy_stream(noises.skip(1), records.skip(1));
        assert(noisy_stream(noises, records) =~= noises[0] + (rec0 + rest));
        assert(sync_free(noises[0]));
        lemma_gvret_resync(noises[0], rec0 + rest);
        assert(rx_record_wf(r0));
        lemma_gvret_scan_record(r0.can_id, r0.bus_dlc, r0.ts, r0.payload, rest);
        assert forall|i: int| 0 <= i < noises.skip(1).len() implies sync_free(
            #[trigger] noises.skip(1)[i],
        ) by {
            assert(noises.skip(1)[i] == noises[i + 1]);
        }
        assert forall|i: int| 0 <= i < records.skip(1).len() implies rx_record_wf(
            #[trigger] records.skip(1)[i],
        ) by {
            assert(records.skip(1)[i] == records[i + 1]);
        }
        lemma_gvret_resync_stream(noises.skip(1), records.skip(1));
        let frames = gvret_scan(noisy_stream(noises, records)).frames;
        let head = gvret_scan(rec0 + rest).frames;
        assert(frames =~= head);
        let tail = gvret_scan(rest).frames;
        assert(head.skip(1) =~= tail);
        assert forall|i: int| 0 <= i < records.len() implies {
            let r = #[trigger] records[i];
            &&& frames[i].frame_id == (if r.can_id & 0x8000_0000 != 0 {
                r.can_id & 0x1FFF_FFFF
            } else {
                r.can_id & 0x7FF
            })
            &&& frames[i].bus == (r.bus_dlc >> 4) & 0x0F
            &&& frames[i].payload == r.payload
            &&& frames[i].is_extended == (r.can_id & 0x8000_0000 != 0)
            &&& frames[i].is_fd == (r.payload.len() > 8)
        } by {
            if i > 0 {
                assert(frames[i] == head.skip(1)[i - 1]);
                assert(records.skip(1)[i - 1] == records[i]);
            }
        }
    }
}

/// First bus-count reply (`F1 0C n`) found in a probe response, if any.
pub open spec fn spec_find_numbuses(b: Seq<u8>) -> Option<u8>
    decreases b.len(),
{
    if b.len() < 3 {
        None
    } else if b[0] == GVRET_SYNC && b[1] == 0x0C {
        Some(b[2])
    } else {
        spec_find_numbuses(b.skip(1))
    }
}

/// Scans a probe response for the first bus-count reply.
pub fn parse_numbuses_response(buf: &Vec<u8>) -> (r: Option<u8>)
    ensures
        r == spec_find_numbuses(buf@),
{
    let n = buf.len();
    let mut i: usize = 0;
    proof {
        assert(buf@.skip(0) =~= buf@);
    }
    loop
        invariant
            n == buf@.len(),
            i <= n,
            spec_find_numbuses(buf@) == spec_find_numbuses(buf@.skip(i as int)),
        ensures
            spec_find_numbuses(buf@) == ({
                if i + 2 < n {
                    Some(buf@[i as int + 2])
                } else {
                    None
                }
            }),
        decreases n - i,
    {
        let ghost cur = buf@.skip(i as int);
        if n - i < 3 {
            proof {
                assert(cur.len() < 3);
            }
            break;
        }
        proof {
            assert(cur[0] == buf@[i as int]);
            assert(cur[1] == buf@[i as int + 1]);
            assert(cur[2] == buf@[i as int + 2]);
        }
        if buf[i] == GVRET_SYNC && buf[i + 1] == 0x0C {
            break;
        }
        proof {
            assert(cur.skip(1) =~= buf@.skip(i as int + 1));
        }
        i = i + 1;
    }
    if n - i >= 3 {
        Some(buf[i + 2])
    } else {
        None
    }
}

/// Clamps a probed bus count into the range GVRET devices report; an absent
/// or absurd answer falls back to the protocol maximum of 5.
pub fn sanitize_bus_count(n: Option<u8>) -> (r: u8)
    ensures
        r == (match n {
            Some(v) => if 1 <= v <= 5 {
                v
            } else {
                5
            },
            None => 5,
        }),
{
    match n {
        Some(v) => if 1 <= v && v <= 5 {
            v
        } else {
            5
        },
        None => 5,
    }
}

} // verus!
