//! Byte-driven serial framing: delimiter-based, SLIP (RFC 1055) and
//! Modbus RTU (CRC-16 delimited) encodings, plus the configurable
//! frame-identifier extractor.
//!
//! The framer is modelled as a pure step function from state and input byte
//! to next state and emitted chunks; `feed` is its fold over a byte
//! sequence, which is what makes the chunk stream independent of how the
//! input is sliced into reads.

use vstd::prelude::*;

use crate::slcan::{parse_hex_pairs, spec_hex_data};
use vstd::string::{StrSliceExecFns, StringExecFns};

verus! {

/// SLIP frame boundary byte.
pub const SLIP_END: u8 = 0xC0;

/// SLIP escape byte.
pub const SLIP_ESC: u8 = 0xDB;

/// SLIP escaped boundary.
pub const SLIP_ESC_END: u8 = 0xDC;

/// SLIP escaped escape.
pub const SLIP_ESC_ESC: u8 = 0xDD;

/// Longest Modbus RTU application data unit; a run without a CRC match is
/// force-split there.
pub const MODBUS_MAX_ADU: usize = 256;

/// How a byte stream is cut into frames.
#[derive(Debug)]
pub enum FramingEncoding {
    /// No framing: bytes pass through as a raw stream only.
    Raw,
    /// SLIP (RFC 1055): `C0` bounds frames, `DB DC`/`DB DD` escape `C0`/`DB`.
    Slip,
    /// Modbus RTU: frames end where the trailing two bytes are the CRC-16 of
    /// everything before them; a run that never matches is split at the
    /// maximum ADU length.
    ModbusRtu {
        /// Keep only frames addressed to this device, when set.
        device_address: Option<u8>,
        /// Attach a CRC verdict to each frame; when false the verdict is
        /// left unknown.
        validate_crc: bool,
    },
    /// Delimiter framing: a frame ends on a full match of the delimiter
    /// sequence, or is force-split at `max_length`.
    Delimiter {
        /// The delimiter byte sequence; an empty delimiter never matches.
        delimiter: Vec<u8>,
        /// Forced split point; 0 disables the forced split.
        max_length: usize,
        /// Whether the delimiter bytes stay in the emitted frame.
        include_delimiter: bool,
    },
}

/// One frame cut out of the byte stream.
#[derive(Debug)]
pub struct FramedChunk {
    /// The frame's bytes.
    pub bytes: Vec<u8>,
    /// Whether the framer was forced to emit before seeing a boundary.
    pub incomplete: bool,
    /// CRC verdict for Modbus RTU frames, if validation was requested.
    pub crc_valid: Option<bool>,
}

/// Spec-level image of a chunk.
#[verifier::ext_equal]
pub ghost struct ChunkSpec {
    /// The frame's bytes.
    pub bytes: Seq<u8>,
    /// Whether the framer was forced to emit before seeing a boundary.
    pub incomplete: bool,
    /// CRC verdict for Modbus RTU frames, if validation was requested.
    pub crc_valid: Option<bool>,
}

/// Spec-level framer state: the accumulated bytes and the SLIP escape flag.
#[verifier::ext_equal]
pub ghost struct FramerModel {
    /// Bytes accumulated since the last emitted frame.
    pub buf: Seq<u8>,
    /// A SLIP escape byte was seen and its partner is pending.
    pub escape: bool,
}

/// The freshly initialized framer state.
pub open spec fn framer_init() -> FramerModel {
    FramerModel { buf: Seq::empty(), escape: false }
}

/// One CRC-16 shift step (reflected polynomial `0xA001`).
pub open spec fn crc16_bit(crc: u16) -> u16 {
    if crc & 1 == 1 {
        (crc >> 1) ^ 0xA001
    } else {
        crc >> 1
    }
}

/// `n` CRC-16 shift steps.
pub open spec fn crc16_bits(crc: u16, n: nat) -> u16
    decreases n,
{
    if n == 0 {
        crc
    } else {
        crc16_bits(crc16_bit(crc), (n - 1) as nat)
    }
}

/// Folding one byte into a CRC-16 accumulator.
pub open spec fn crc16_byte(crc: u16, b: u8) -> u16 {
    crc16_bits(crc ^ (b as u16), 8)
}

/// The CRC-16 of the first `n` bytes of `data` (init `0xFFFF`).
pub open spec fn crc16_upto(data: Seq<u8>, n: int) -> u16
    decreases n,
{
    if n <= 0 {
        0xFFFF
    } else {
        crc16_byte(crc16_upto(data, n - 1), data[n - 1])
    }
}

/// The Modbus CRC-16 of a byte sequence.
pub open spec fn spec_crc16(data: Seq<u8>) -> u16 {
    crc16_upto(data, data.len() as int)
}

/// Computes the Modbus CRC-16 (polynomial `0xA001`, init `0xFFFF`) of
/// `data[0 .. n]`.
pub fn crc16_of(data: &Vec<u8>, n: usize) -> (r: u16)
    requires
        n <= data@.len(),
    ensures
        r == crc16_upto(data@, n as int),
{
    let mut crc: u16 = 0xFFFF;
    let mut i: usize = 0;
    while i < n
        invariant
            i <= n <= data@.len(),
            crc == crc16_upto(data@, i as int),
        decreases n - i,
    {
        let ghost entry = crc16_upto(data@, i as int) ^ (data@[i as int] as u16);
        crc = crc ^ (data[i] as u16);
        let mut k: usize = 0;
        while k < 8
            invariant
                k <= 8,
                i < n <= data@.len(),
                crc == crc16_bits(entry, k as nat),
                entry == crc16_upto(data@, i as int) ^ (data@[i as int] as u16),
            decreases 8 - k,
        {
            let ghost before = crc;
            if crc & 1 == 1 {
                crc = (crc >> 1) ^ 0xA001;
            } else {
                crc = crc >> 1;
            }
            k = k + 1;
            proof {
                assert(crc == crc16_bit(before));
                lemma_crc16_bits_rotate(entry, k as nat);
            }
        }
        i = i + 1;
    }
    crc
}

/// `n` steps then one more equals one step then `n` more.
proof fn lemma_crc16_bits_rotate(crc: u16, n: nat)
    requires
        n >= 1,
    ensures
        crc16_bit(crc16_bits(crc, (n - 1) as nat)) == crc16_bits(crc, n),
    decreases n,
{
    reveal_with_fuel(crc16_bits, 3);
    if n > 1 {
        lemma_crc16_bits_rotate(crc16_bit(crc), (n - 1) as nat);
    }
}

/// The Modbus CRC-16 of a whole buffer.
pub fn crc16(data: &Vec<u8>) -> (r: u16)
    ensures
        r == spec_crc16(data@),
{
    crc16_of(data, data.len())
}

/// Whether `buf` ends in a valid Modbus CRC: at least four bytes, and the
/// last two are the little-endian CRC-16 of everything before them.
pub open spec fn modbus_complete(buf: Seq<u8>) -> bool {
    let n = buf.len() as int;
    &&& n >= 4
    &&& buf[n - 2] == (crc16_upto(buf, n - 2) & 0xFF) as u8
    &&& buf[n - 1] == ((crc16_upto(buf, n - 2) >> 8) & 0xFF) as u8
}

/// Whether `buf` ends with the (non-empty) delimiter.
pub open spec fn ends_with_delim(buf: Seq<u8>, delim: Seq<u8>) -> bool {
    &&& delim.len() > 0
    &&& buf.len() >= delim.len()
    &&& buf.subrange(buf.len() - delim.len(), buf.len() as int) =~= delim
}

/// The framer's step function: the state after one input byte, and the
/// chunks (at most one) emitted by it.
pub open spec fn framer_step(enc: FramingEncoding, st: FramerModel, b: u8) -> (
    FramerModel,
    Seq<ChunkSpec>,
) {
    match enc {
        FramingEncoding::Raw => (st, Seq::empty()),
        FramingEncoding::Slip => {
            if st.escape {
                if b == SLIP_ESC_END {
                    (FramerModel { buf: st.buf + seq![SLIP_END], escape: false }, Seq::empty())
                } else if b == SLIP_ESC_ESC {
                    (FramerModel { buf: st.buf + seq![SLIP_ESC], escape: false }, Seq::empty())
                } else {
                    // Protocol error: emit what accumulated as incomplete and
                    // resynchronize on this byte.
                    let flushed: Seq<ChunkSpec> = if st.buf.len() > 0 {
                        seq![ChunkSpec { bytes: st.buf, incomplete: true, crc_valid: None }]
                    } else {
                        Seq::empty()
                    };
                    if b == SLIP_END {
                        (framer_init(), flushed)
                    } else if b == SLIP_ESC {
                        (FramerModel { buf: Seq::empty(), escape: true }, flushed)
                    } else {
                        (FramerModel { buf: seq![b], escape: false }, flushed)
                    }
                }
            } else if b == SLIP_END {
                if st.buf.len() > 0 {
                    (
                        framer_init(),
                        seq![ChunkSpec { bytes: st.buf, incomplete: false, crc_valid: None }],
                    )
                } else {
                    (st, Seq::empty())
                }
            } else if b == SLIP_ESC {
                (FramerModel { buf: st.buf, escape: true }, Seq::empty())
            } else {
                (FramerModel { buf: st.buf + seq![b], escape: false }, Seq::empty())
            }
        },
        FramingEncoding::ModbusRtu { device_address, validate_crc } => {
            let buf = st.buf + seq![b];
            if modbus_complete(buf) {
                let keep = match device_address {
                    Some(addr) => buf[0] == addr,
                    None => true,
                };
                let out: Seq<ChunkSpec> = if keep {
                    seq![
                        ChunkSpec {
                            bytes: buf,
                            incomplete: false,
                            crc_valid: if validate_crc {
                                Some(true)
                            } else {
                                None
                            },
                        },
                    ]
                } else {
                    Seq::empty()
                };
                (framer_init(), out)
            } else if buf.len() >= MODBUS_MAX_ADU as int {
                (
                    framer_init(),
                    seq![
                        ChunkSpec {
                            bytes: buf,
                            incomplete: true,
                            crc_valid: if validate_crc {
                                Some(false)
                            } else {
                                None
                            },
                        },
                    ],
                )
            } else {
                (FramerModel { buf, escape: false }, Seq::empty())
            }
        },
        FramingEncoding::Delimiter { delimiter, max_length, include_delimiter } => {
            let buf = st.buf + seq![b];
            if ends_with_delim(buf, delimiter@) {
                let body = if include_delimiter {
                    buf
                } else {
                    buf.subrange(0, buf.len() - delimiter@.len())
                };
                (
                    framer_init(),
                    seq![ChunkSpec { bytes: body, incomplete: false, crc_valid: None }],
                )
            } else if max_length > 0 && buf.len() >= max_length as int {
                (
                    framer_init(),
                    seq![ChunkSpec { bytes: buf, incomplete: true, crc_valid: None }],
                )
            } else {
                (FramerModel { buf, escape: false }, Seq::empty())
            }
        },
    }
}

/// Folding the step function over a byte sequence: the state after all the
/// bytes, and every chunk emitted along the way, in order.
pub open spec fn framer_feed_seq(enc: FramingEncoding, st: FramerModel, bytes: Seq<u8>) -> (
    FramerModel,
    Seq<ChunkSpec>,
)
    decreases bytes.len(),
{
    if bytes.len() == 0 {
        (st, Seq::empty())
    } else {
        let (st1, out1) = framer_step(enc, st, bytes[0]);
        let (st2, out2) = framer_feed_seq(enc, st1, bytes.skip(1));
        (st2, out1 + out2)
    }
}

/// What `flush` emits from a state: the trailing bytes as an incomplete
/// frame, if any.
pub open spec fn framer_flush_spec(enc: FramingEncoding, st: FramerModel) -> Option<ChunkSpec> {
    if st.buf.len() > 0 {
        Some(
            ChunkSpec {
                bytes: st.buf,
                incomplete: true,
                crc_valid: match enc {
                    FramingEncoding::ModbusRtu { validate_crc, .. } => if validate_crc {
                        Some(false)
                    } else {
                        None
                    },
                    _ => None,
                },
            },
        )
    } else {
        None
    }
}

/// Framer determinism: feeding `a` then `b` emits exactly the chunks of
/// feeding `a + b` at once, and leaves the framer in the same state.  In
/// particular, byte-at-a-time feeding equals whole-buffer feeding.
pub proof fn lemma_framer_feed_append(
    enc: FramingEncoding,
    st: FramerModel,
    a: Seq<u8>,
    b: Seq<u8>,
)
    ensures
        framer_feed_seq(enc, st, a + b).0 == framer_feed_seq(
            enc,
            framer_feed_seq(enc, st, a).0,
            b,
        ).0,
        framer_feed_seq(enc, st, a + b).1 =~= framer_feed_seq(enc, st, a).1 + framer_feed_seq(
            enc,
            framer_feed_seq(enc, st, a).0,
            b,
        ).1,
    decreases a.len(),
{
    if a.len() == 0 {
        assert(a + b =~= b);
    } else {
        let (st1, out1) = framer_step(enc, st, a[0]);
        assert((a + b)[0] == a[0]);
        assert((a + b).skip(1) =~= a.skip(1) + b);
        lemma_framer_feed_append(enc, st1, a.skip(1), b);
    }
}

/// One step emits at most one chunk.
pub proof fn lemma_framer_step_len(enc: FramingEncoding, st: FramerModel, b: u8)
    ensures
        framer_step(enc, st, b).1.len() <= 1,
{
}

/// A feed emits at most one chunk per byte.
pub proof fn lemma_framer_feed_len(enc: FramingEncoding, st: FramerModel, bytes: Seq<u8>)
    ensures
        framer_feed_seq(enc, st, bytes).1.len() <= bytes.len(),
    decreases bytes.len(),
{
    if bytes.len() > 0 {
        let (st1, out1) = framer_step(enc, st, bytes[0]);
        lemma_framer_step_len(enc, st, bytes[0]);
        lemma_framer_feed_len(enc, st1, bytes.skip(1));
    }
}

/// How an exec chunk corresponds to its spec image.
pub open spec fn chunk_matches(c: FramedChunk, s: ChunkSpec) -> bool {
    &&& c.bytes@ == s.bytes
    &&& c.incomplete == s.incomplete
    &&& c.crc_valid == s.crc_valid
}

/// The byte-driven serial framer.
pub struct SerialFramer {
    /// How the stream is cut.
    pub encoding: FramingEncoding,
    /// Bytes accumulated since the last emitted frame.
    buf: Vec<u8>,
    /// A SLIP escape is pending.
    escape: bool,
}

impl SerialFramer {
    /// The framer's spec-level state.
    pub closed spec fn model(self) -> FramerModel {
        FramerModel { buf: self.buf@, escape: self.escape }
    }

    /// The framer's encoding, for contracts.
    pub closed spec fn enc(self) -> FramingEncoding {
        self.encoding
    }

    /// Takes the accumulated bytes out, leaving the buffer empty.
    fn drain_buf(&mut self) -> (r: Vec<u8>)
        ensures
            final(self).encoding == old(self).encoding,
            final(self).escape == old(self).escape,
            final(self).buf@ == Seq::<u8>::empty(),
            r@ == old(self).buf@,
    {
        let mut r: Vec<u8> = Vec::new();
        let mut i: usize = 0;
        while i < self.buf.len()
            invariant
                self == old(self),
                i <= self.buf@.len(),
                r@ =~= self.buf@.take(i as int),
            decreases self.buf@.len() - i,
        {
            r.push(self.buf[i]);
            i = i + 1;
            proof {
                assert(r@ =~= self.buf@.take(i as int));
            }
        }
        proof {
            assert(self.buf@.take(self.buf@.len() as int) =~= self.buf@);
        }
        self.buf.clear();
        r
    }

    /// A fresh framer for the given encoding.
    pub fn new(encoding: FramingEncoding) -> (r: SerialFramer)
        ensures
            r.model() == framer_init(),
            r.enc() == encoding,
    {
        let r = SerialFramer { encoding, buf: Vec::new(), escape: false };
        proof {
            assert(r.model() =~= framer_init());
        }
        r
    }

    /// Feeds one byte; appends any emitted chunk to `out`.
    fn step(&mut self, b: u8, out: &mut Vec<FramedChunk>)
        ensures
            final(self).enc() == old(self).enc(),
            ({
                let (st1, emitted) = framer_step(old(self).enc(), old(self).model(), b);
                &&& final(self).model() == st1
                &&& final(out)@.len() == old(out)@.len() + emitted.len()
                &&& (forall|i: int| 0 <= i < old(out)@.len() ==> final(out)@[i] == old(out)@[i])
                &&& (forall|i: int|
                    0 <= i < emitted.len() ==> chunk_matches(
                        final(out)@[old(out)@.len() + i],
                        emitted[i],
                    ))
            }),
    {
        let ghost st0 = self.model();
        let ghost enc0 = self.encoding;
        match &self.encoding {
            FramingEncoding::Raw => {},
            FramingEncoding::Slip => {
                if self.escape {
                    if b == SLIP_ESC_END {
                        self.buf.push(SLIP_END);
                        self.escape = false;
                        proof {
                            assert(self.model().buf =~= st0.buf + seq![SLIP_END]);
                        }
                    } else if b == SLIP_ESC_ESC {
                        self.buf.push(SLIP_ESC);
                        self.escape = false;
                        proof {
                            assert(self.model().buf =~= st0.buf + seq![SLIP_ESC]);
                        }
                    } else {
                        if self.buf.len() > 0 {
                            let bytes = self.drain_buf();
                            out.push(FramedChunk { bytes, incomplete: true, crc_valid: None });
                        }
                        if b == SLIP_END {
                            self.escape = false;
                        } else if b == SLIP_ESC {
                            self.escape = true;
                        } else {
                            self.buf.push(b);
                            self.escape = false;
                            proof {
                                assert(self.model().buf =~= seq![b]);
                            }
                        }
                    }
                } else if b == SLIP_END {
                    if self.buf.len() > 0 {
                        let bytes = self.drain_buf();
                        out.push(FramedChunk { bytes, incomplete: false, crc_valid: None });
                    }
                } else if b == SLIP_ESC {
                    self.escape = true;
                } else {
                    self.buf.push(b);
                    proof {
                        assert(self.model().buf =~= st0.buf + seq![b]);
                    }
                }
            },
            FramingEncoding::ModbusRtu { device_address, validate_crc } => {
                let device_address: Option<u8> = *device_address;
                let validate_crc: bool = *validate_crc;
                self.escape = false;
                self.buf.push(b);
                proof {
                    assert(self.buf@ =~= st0.buf + seq![b]);
                }
                let n = self.buf.len();
                let complete: bool = if n >= 4 {
                    let crc = crc16_of(&self.buf, n - 2);
                    self.buf[n - 2] == (crc & 0xFF) as u8 && self.buf[n - 1] == ((crc >> 8)
                        & 0xFF) as u8
                } else {
                    false
                };
                assert(complete == modbus_complete(self.buf@));
                if complete {
                    let keep: bool = match device_address {
                        Some(addr) => self.buf[0] == addr,
                        None => true,
                    };
                    let bytes = self.drain_buf();
                    if keep {
                        out.push(
                            FramedChunk {
                                bytes,
                                incomplete: false,
                                crc_valid: if validate_crc {
                                    Some(true)
                                } else {
                                    None
                                },
                            },
                        );
                    }
                } else if n >= MODBUS_MAX_ADU {
                    let bytes = self.drain_buf();
                    out.push(
                        FramedChunk {
                            bytes,
                            incomplete: true,
                            crc_valid: if validate_crc {
                                Some(false)
                            } else {
                                None
                            },
                        },
                    );
                }
            },
            FramingEncoding::Delimiter { delimiter, max_length, include_delimiter } => {
                let max_length: usize = *max_length;
                let include_delimiter: bool = *include_delimiter;
                let dlen = delimiter.len();
                self.escape = false;
                self.buf.push(b);
                proof {
                    assert(self.buf@ =~= st0.buf + seq![b]);
                }
                let n = self.buf.len();
                let mut matched: bool = dlen > 0 && n >= dlen;
                let mut k: usize = 0;
                while matched && k < dlen
                    invariant
                        k <= dlen,
                        dlen == delimiter@.len(),
                        n == self.buf@.len(),
                        matched ==> dlen > 0 && n >= dlen,
                        matched ==> (forall|j: int|
                            0 <= j < k ==> self.buf@[n - dlen + j] == delimiter@[j]),
                        !matched ==> !ends_with_delim(self.buf@, delimiter@),
                    decreases dlen - k + (if matched {
                        1int
                    } else {
                        0int
                    }),
                {
                    if self.buf[n - dlen + k] == delimiter[k] {
                        k = k + 1;
                    } else {
                        proof {
                            if ends_with_delim(self.buf@, delimiter@) {
                                assert(self.buf@.subrange(
                                    n - dlen as int,
                                    n as int,
                                )[k as int] == self.buf@[n - dlen + k]);
                            }
                        }
                        matched = false;
                    }
                }
                if matched {
                    proof {
                        assert(self.buf@.subrange(n - dlen as int, n as int) =~= delimiter@);
                        assert(ends_with_delim(self.buf@, delimiter@));
                    }
                    let body_len: usize = if include_delimiter {
                        n
                    } else {
                        n - dlen
                    };
                    let mut bytes = self.drain_buf();
                    bytes.truncate(body_len);
                    proof {
                        if !include_delimiter {
                            assert(bytes@ =~= (st0.buf + seq![b]).subrange(
                                0,
                                (st0.buf + seq![b]).len() - delimiter@.len(),
                            ));
                        } else {
                            assert(bytes@ =~= st0.buf + seq![b]);
                        }
                    }
                    out.push(FramedChunk { bytes, incomplete: false, crc_valid: None });
                } else if max_length > 0 && n >= max_length {
                    let bytes = self.drain_buf();
                    out.push(FramedChunk { bytes, incomplete: true, crc_valid: None });
                }
            },
        }
    }

    /// Feeds a run of bytes, returning every frame completed by them.
    pub fn feed(&mut self, data: &[u8]) -> (out: Vec<FramedChunk>)
        ensures
            final(self).enc() == old(self).enc(),
            ({
                let (st2, outs) = framer_feed_seq(old(self).enc(), old(self).model(), data@);
                &&& final(self).model() == st2
                &&& out@.len() == outs.len()
                &&& (forall|i: int| 0 <= i < outs.len() ==> chunk_matches(out@[i], outs[i]))
            }),
    {
        let ghost enc = self.encoding;
        let ghost st0 = self.model();
        let mut out: Vec<FramedChunk> = Vec::new();
        let ghost mut emitted: Seq<ChunkSpec> = Seq::empty();
        let mut i: usize = 0;
        proof {
            assert(data@.skip(0) =~= data@);
        }
        while i < data.len()
            invariant
                self.encoding == enc,
                i <= data@.len(),
                framer_feed_seq(enc, st0, data@).0 == framer_feed_seq(
                    enc,
                    self.model(),
                    data@.skip(i as int),
                ).0,
                framer_feed_seq(enc, st0, data@).1 =~= emitted + framer_feed_seq(
                    enc,
                    self.model(),
                    data@.skip(i as int),
                ).1,
                out@.len() == emitted.len(),
                forall|j: int| 0 <= j < emitted.len() ==> chunk_matches(out@[j], emitted[j]),
            decreases data@.len() - i,
        {
            let ghost cur = data@.skip(i as int);
            let ghost stc = self.model();
            let ghost (st1, one) = framer_step(enc, stc, data@[i as int]);
            proof {
                assert(cur[0] == data@[i as int]);
                assert(cur.skip(1) =~= data@.skip(i as int + 1));
            }
            self.step(data[i], &mut out);
            proof {
                emitted = emitted + one;
            }
            i = i + 1;
        }
        proof {
            assert(framer_feed_seq(enc, self.model(), data@.skip(i as int)).1
                =~= Seq::<ChunkSpec>::empty());
            assert(framer_feed_seq(enc, st0, data@).1 =~= emitted);
        }
        out
    }

    /// Emits any trailing bytes as an incomplete frame and resets the
    /// framer.
    pub fn flush(&mut self) -> (r: Option<FramedChunk>)
        ensures
            final(self).enc() == old(self).enc(),
            final(self).model() == framer_init(),
            match (r, framer_flush_spec(old(self).enc(), old(self).model())) {
                (Some(c), Some(s)) => chunk_matches(c, s),
                (None, None) => true,
                _ => false,
            },
    {
        self.escape = false;
        if self.buf.len() > 0 {
            let bytes = self.drain_buf();
            let crc_valid: Option<bool> = match &self.encoding {
                FramingEncoding::ModbusRtu { validate_crc, .. } => if *validate_crc {
                    Some(false)
                } else {
                    None
                },
                _ => None,
            };
            proof {
                assert(self.model() =~= framer_init());
            }
            Some(FramedChunk { bytes, incomplete: true, crc_valid })
        } else {
            proof {
                assert(self.model() =~= framer_init());
            }
            None
        }
    }
}

/// The SLIP escaping of one byte.
pub open spec fn spec_slip_escape(b: u8) -> Seq<u8> {
    if b == SLIP_END {
        seq![SLIP_ESC, SLIP_ESC_END]
    } else if b == SLIP_ESC {
        seq![SLIP_ESC, SLIP_ESC_ESC]
    } else {
        seq![b]
    }
}

/// The SLIP escaping of a payload.
pub open spec fn spec_slip_body(data: Seq<u8>) -> Seq<u8>
    decreases data.len(),
{
    if data.len() == 0 {
        Seq::empty()
    } else {
        spec_slip_escape(data[0]) + spec_slip_body(data.skip(1))
    }
}

/// The complete SLIP encoding of a payload: boundary, escaped bytes,
/// boundary.
pub open spec fn spec_slip_encode(data: Seq<u8>) -> Seq<u8> {
    seq![SLIP_END] + spec_slip_body(data) + seq![SLIP_END]
}

/// Appending one byte to a payload appends its escaping to the body.
proof fn lemma_slip_body_snoc(data: Seq<u8>, b: u8)
    ensures
        spec_slip_body(data.push(b)) =~= spec_slip_body(data) + spec_slip_escape(b),
    decreases data.len(),
{
    reveal_with_fuel(spec_slip_body, 3);
    if data.len() == 0 {
        assert(data.push(b)[0] == b);
        assert(data.push(b).skip(1) =~= Seq::<u8>::empty());
        assert(spec_slip_body(data.push(b)) == spec_slip_escape(b) + spec_slip_body(
            data.push(b).skip(1),
        ));
    } else {
        assert(data.push(b)[0] == data[0]);
        assert(data.push(b).skip(1) =~= data.skip(1).push(b));
        lemma_slip_body_snoc(data.skip(1), b);
    }
}

/// SLIP-encodes a payload for the wire.
pub fn slip_encode(data: &Vec<u8>) -> (r: Vec<u8>)
    ensures
        r@ == spec_slip_encode(data@),
{
    let mut out: Vec<u8> = Vec::new();
    out.push(SLIP_END);
    let mut i: usize = 0;
    proof {
        assert(data@.take(0) =~= Seq::<u8>::empty());
        assert(out@ =~= seq![SLIP_END] + spec_slip_body(data@.take(0)));
    }
    while i < data.len()
        invariant
            i <= data@.len(),
            out@ == seq![SLIP_END] + spec_slip_body(data@.take(i as int)),
        decreases data@.len() - i,
    {
        let b = data[i];
        if b == SLIP_END {
            out.push(SLIP_ESC);
            out.push(SLIP_ESC_END);
        } else if b == SLIP_ESC {
            out.push(SLIP_ESC);
            out.push(SLIP_ESC_ESC);
        } else {
            out.push(b);
        }
        i = i + 1;
        proof {
            assert(data@.take(i as int) =~= data@.take(i - 1).push(data@[i - 1]));
            lemma_slip_body_snoc(data@.take(i - 1), data@[i - 1]);
            assert(out@ =~= seq![SLIP_END] + spec_slip_body(data@.take(i as int)));
        }
    }
    out.push(SLIP_END);
    proof {
        assert(data@.take(data@.len() as int) =~= data@);
        assert(out@ =~= spec_slip_encode(data@));
    }
    out
}

/// Feeding the escaped body of a payload only accumulates the payload: no
/// frame boundary is crossed and no chunk is emitted.
proof fn lemma_slip_feed_body(buf: Seq<u8>, data: Seq<u8>)
    ensures
        framer_feed_seq(FramingEncoding::Slip, FramerModel { buf, escape: false },
            spec_slip_body(data)).0 == (FramerModel { buf: buf + data, escape: false }),
        framer_feed_seq(FramingEncoding::Slip, FramerModel { buf, escape: false },
            spec_slip_body(data)).1 =~= Seq::<ChunkSpec>::empty(),
    decreases data.len(),
{
    reveal_with_fuel(framer_feed_seq, 4);
    let st = FramerModel { buf, escape: false };
    if data.len() == 0 {
        assert(buf + data =~= buf);
    } else {
        let b = data[0];
        let esc = spec_slip_escape(b);
        let st1 = FramerModel { buf: buf + seq![b], escape: false };
        assert(framer_feed_seq(FramingEncoding::Slip, st, esc).0 == st1 && framer_feed_seq(
            FramingEncoding::Slip,
            st,
            esc,
        ).1 =~= Seq::<ChunkSpec>::empty()) by {
            if b == SLIP_END || b == SLIP_ESC {
                assert(esc.skip(1) =~= seq![esc[1]]);
                assert(esc.skip(1).skip(1) =~= Seq::<u8>::empty());
            } else {
                assert(esc.skip(1) =~= Seq::<u8>::empty());
            }
        }
        assert(spec_slip_body(data) =~= esc + spec_slip_body(data.skip(1)));
        lemma_framer_feed_append(FramingEncoding::Slip, st, esc, spec_slip_body(data.skip(1)));
        lemma_slip_feed_body(buf + seq![b], data.skip(1));
        assert((buf + seq![b]) + data.skip(1) =~= buf + data);
    }
}

/// SLIP round trip: feeding the SLIP encoding of a non-empty payload to a
/// fresh framer yields exactly one complete chunk holding the payload, and
/// returns the framer to its initial state.
pub proof fn lemma_slip_round_trip(data: Seq<u8>)
    requires
        data.len() > 0,
    ensures
        framer_feed_seq(FramingEncoding::Slip, framer_init(), spec_slip_encode(data)).0
            == framer_init(),
        framer_feed_seq(FramingEncoding::Slip, framer_init(), spec_slip_encode(data)).1 =~= seq![
            ChunkSpec { bytes: data, incomplete: false, crc_valid: None },
        ],
{
    reveal_with_fuel(framer_feed_seq, 4);
    let enc = FramingEncoding::Slip;
    let head = seq![SLIP_END];
    assert(framer_feed_seq(enc, framer_init(), head).0 == framer_init() && framer_feed_seq(
        enc,
        framer_init(),
        head,
    ).1 =~= Seq::<ChunkSpec>::empty()) by {
        assert(head.skip(1) =~= Seq::<u8>::empty());
    }
    assert(spec_slip_encode(data) =~= head + (spec_slip_body(data) + seq![SLIP_END]));
    lemma_framer_feed_append(enc, framer_init(), head, spec_slip_body(data) + seq![SLIP_END]);
    lemma_framer_feed_append(enc, framer_init(), spec_slip_body(data), seq![SLIP_END]);
    lemma_slip_feed_body(Seq::empty(), data);
    let mid = FramerModel { buf: Seq::empty() + data, escape: false };
    assert(Seq::<u8>::empty() + data =~= data);
    assert(framer_feed_seq(enc, mid, seq![SLIP_END]).1 =~= seq![
        ChunkSpec { bytes: data, incomplete: false, crc_valid: None },
    ]) by {
        assert(seq![SLIP_END].skip(1) =~= Seq::<u8>::empty());
    }
}

/// Frame-identifier extraction configuration: a byte-slice window turned
/// into an integer.
#[derive(Clone, Copy, Debug)]
pub struct FrameIdConfig {
    /// First byte of the window; negative counts from the end (`-1` is the
    /// last byte).
    pub start_byte: i32,
    /// Window width in bytes: 1 or 2.
    pub num_bytes: u8,
    /// Byte order of a two-byte window.
    pub big_endian: bool,
}

/// The identifier a configuration extracts from a frame, if the window
/// lies inside the frame and the width is 1 or 2.
pub open spec fn spec_extract_frame_id(bytes: Seq<u8>, cfg: FrameIdConfig) -> Option<u32> {
    let n = bytes.len() as int;
    let idx: int = if cfg.start_byte < 0 {
        n + cfg.start_byte as int
    } else {
        cfg.start_byte as int
    };
    if cfg.num_bytes != 1 && cfg.num_bytes != 2 {
        None
    } else if idx < 0 || idx + cfg.num_bytes as int > n {
        None
    } else if cfg.num_bytes == 1 {
        Some(bytes[idx] as u32)
    } else if cfg.big_endian {
        Some((bytes[idx] as int * 256 + bytes[idx + 1] as int) as u32)
    } else {
        Some((bytes[idx + 1] as int * 256 + bytes[idx] as int) as u32)
    }
}

/// Extracts a frame identifier (or source address) from frame bytes per
/// the configuration; out-of-range windows yield nothing.
pub fn extract_frame_id(bytes: &Vec<u8>, cfg: &FrameIdConfig) -> (r: Option<u32>)
    ensures
        r == spec_extract_frame_id(bytes@, *cfg),
{
    if cfg.num_bytes != 1 && cfg.num_bytes != 2 {
        return None;
    }
    let n = bytes.len();
    let idx: usize;
    if cfg.start_byte < 0 {
        let m = (-(cfg.start_byte as i64)) as u64 as usize;
        if m > n {
            return None;
        }
        idx = n - m;
    } else {
        let s = cfg.start_byte as u32 as usize;
        if s > n {
            return None;
        }
        idx = s;
    }
    if n - idx < cfg.num_bytes as usize {
        return None;
    }
    if cfg.num_bytes == 1 {
        Some(bytes[idx] as u32)
    } else if cfg.big_endian {
        Some((bytes[idx] as u32) * 256 + (bytes[idx + 1] as u32))
    } else {
        Some((bytes[idx + 1] as u32) * 256 + (bytes[idx] as u32))
    }
}

/// Decodes a delimiter given as a hexadecimal string, two characters per
/// byte.
pub fn parse_hex_delimiter(hex: &str) -> (r: Result<Vec<u8>, String>)
    ensures
        match r {
            Ok(v) => hex@.len() % 2 == 0 && spec_hex_data(hex@, 0, hex@.len() as int / 2)
                == Some(v@),
            Err(_) => hex@.len() % 2 != 0 || spec_hex_data(hex@, 0, hex@.len() as int / 2)
                is None,
        },
{
    let n = hex.unicode_len();
    if n % 2 != 0 {
        proof {
            reveal_strlit("hex string must have even length");
        }
        return Err(String::from_str("hex string must have even length"));
    }
    match parse_hex_pairs(hex, 0, n / 2) {
        Some(v) => Ok(v),
        None => {
            proof {
                reveal_strlit("invalid hex byte");
            }
            Err(String::from_str("invalid hex byte"))
        },
    }
}

} // verus!
