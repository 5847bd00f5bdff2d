//! The per-device stream engines: the pure reading side of each device's
//! read loop.  The surrounding runtime only moves bytes between a port or
//! socket and these engines; everything the engines decide — record
//! assembly, parsing, bus overrides, frame limits — is verified.

use vstd::prelude::*;

use crate::frame::{Frame, Protocol, TimestampedByte};
use crate::framer::{
    extract_frame_id, framer_feed_seq, framer_flush_spec, framer_init, framer_step,
    lemma_framer_feed_len, lemma_framer_step_len, spec_extract_frame_id, ChunkSpec, FramedChunk,
    FrameIdConfig, FramerModel, FramingEncoding, SerialFramer,
};
use crate::gvret::{frame_matches, gvret_scan, parse_gvret_frames};
use crate::slcan::{parse_slcan_frame, slcan_parse, slcan_rec_matches, SlcanRecord};

verus! {

/// A frame with a bus override applied: equal to the original except that
/// the bus is forced when an override is configured.
pub open spec fn override_applied(f: Frame, g: Frame, bus_override: Option<u8>) -> bool {
    f == (Frame {
        bus: match bus_override {
            Some(b) => b,
            None => g.bus,
        },
        ..g
    })
}

/// Whether an output frame is a parsed wire frame with the bus override
/// applied.
pub open spec fn gvret_frame_out(
    f: Frame,
    p: crate::gvret::GvretFrame,
    timestamp_us: u64,
    bus_override: Option<u8>,
) -> bool {
    exists|g: Frame|
        #![trigger frame_matches(g, p, timestamp_us)]
        frame_matches(g, p, timestamp_us) && override_applied(f, g, bus_override)
}

/// The GVRET stream engine: buffers wire bytes, parses complete records,
/// applies the configured bus override, and enforces the frame limit.
pub struct GvretEngine {
    /// Buffered unparsed wire bytes.
    pub buffer: Vec<u8>,
    /// Forced bus number for every frame, when configured.
    pub bus_override: Option<u8>,
    /// Frames delivered so far.
    pub total_frames: u64,
    /// Maximum frames to deliver, when configured.
    pub limit: Option<u64>,
}

impl GvretEngine {
    /// The buffered unparsed bytes.
    pub closed spec fn spec_buffer(self) -> Seq<u8> {
        self.buffer@
    }

    /// A fresh engine.
    pub fn new(bus_override: Option<u8>, limit: Option<u64>) -> (r: GvretEngine)
        ensures
            r.spec_buffer() == Seq::<u8>::empty(),
            r.bus_override == bus_override,
            r.limit == limit,
            r.total_frames == 0,
    {
        let r = GvretEngine { buffer: Vec::new(), bus_override, total_frames: 0, limit };
        proof {
            assert(r.spec_buffer() =~= Seq::<u8>::empty());
        }
        r
    }

    /// Whether the configured frame limit has been reached.
    pub fn reached_limit(&self) -> (r: bool)
        ensures
            r == match self.limit {
                Some(l) => self.total_frames >= l,
                None => false,
            },
    {
        match self.limit {
            Some(l) => self.total_frames >= l,
            None => false,
        }
    }

    /// Consumes a read's worth of wire bytes: every complete record in the
    /// buffer becomes a frame (bus override applied), up to the frame
    /// limit; the unconsumed suffix stays buffered.
    pub fn on_bytes(&mut self, data: &[u8], timestamp_us: u64) -> (out: Vec<Frame>)
        ensures
            final(self).bus_override == old(self).bus_override,
            final(self).limit == old(self).limit,
            final(self).spec_buffer() == gvret_scan(old(self).spec_buffer() + data@).rest,
            ({
                let parsed = gvret_scan(old(self).spec_buffer() + data@).frames;
                let quota: int = match old(self).limit {
                    Some(l) => if old(self).total_frames < l {
                        l - old(self).total_frames
                    } else {
                        0
                    },
                    None => parsed.len() as int,
                };
                let kept: int = if parsed.len() <= quota {
                    parsed.len() as int
                } else {
                    quota
                };
                &&& out@.len() == kept
                &&& final(self).total_frames as int == (if old(self).total_frames + kept
                    <= u64::MAX as int {
                    old(self).total_frames + kept
                } else {
                    u64::MAX as int
                })
                &&& forall|i: int|
                    0 <= i < out@.len() ==> gvret_frame_out(
                        #[trigger] out@[i],
                        parsed[i],
                        timestamp_us,
                        old(self).bus_override,
                    )
                &&& forall|i: int| 0 <= i < out@.len() ==> (#[trigger] out@[i]).can_wf()
            }),
    {
        let mut chunk: Vec<u8> = Vec::new();
        let mut k: usize = 0;
        while k < data.len()
            invariant
                k <= data@.len(),
                chunk@ =~= data@.take(k as int),
            decreases data@.len() - k,
        {
            chunk.push(data[k]);
            k = k + 1;
            proof {
                assert(chunk@ =~= data@.take(k as int));
            }
        }
        proof {
            assert(data@.take(data@.len() as int) =~= data@);
        }
        let mut chunk = chunk;
        self.buffer.append(&mut chunk);
        let parsed = parse_gvret_frames(&mut self.buffer, timestamp_us);
        let n = parsed.len();
        let quota: u64 = match self.limit {
            Some(l) => {
                if self.total_frames < l {
                    l - self.total_frames
                } else {
                    0
                }
            },
            None => n as u64,
        };
        let ghost parsed_spec = gvret_scan(old(self).spec_buffer() + data@).frames;
        let mut out: Vec<Frame> = Vec::new();
        let parsed = parsed;
        let kept: usize = if (n as u64) <= quota {
            n
        } else {
            quota as usize
        };
        let mut i: usize = 0;
        while i < kept
            invariant
                i <= kept <= n == parsed@.len(),
                parsed@.len() == parsed_spec.len(),
                forall|j: int|
                    0 <= j < parsed@.len() ==> frame_matches(
                        #[trigger] parsed@[j],
                        parsed_spec[j],
                        timestamp_us,
                    ),
                forall|j: int| 0 <= j < parsed@.len() ==> (#[trigger] parsed@[j]).can_wf(),
                out@.len() == i,
                forall|j: int|
                    0 <= j < out@.len() ==> gvret_frame_out(
                        #[trigger] out@[j],
                        parsed_spec[j],
                        timestamp_us,
                        old(self).bus_override,
                    ),
                forall|j: int| 0 <= j < out@.len() ==> (#[trigger] out@[j]).can_wf(),
                self.bus_override == old(self).bus_override,
            decreases kept - i,
        {
            let mut f = parsed[i].duplicate();
            let ghost g = f;
            match self.bus_override {
                Some(b) => {
                    f.bus = b;
                },
                None => {},
            }
            proof {
                assert(frame_matches(g, parsed_spec[i as int], timestamp_us));
                assert(override_applied(f, g, old(self).bus_override));
                assert(gvret_frame_out(f, parsed_spec[i as int], timestamp_us, old(
                    self,
                ).bus_override));
            }
            out.push(f);
            i = i + 1;
        }
        if self.total_frames <= u64::MAX - (kept as u64) {
            self.total_frames = self.total_frames + (kept as u64);
        } else {
            self.total_frames = u64::MAX;
        }
        out
    }
}

/// One byte into the slcan line assembler: carriage returns, line feeds
/// and other control characters complete the pending line; the bell
/// character (an slcan error reply) and non-ASCII bytes discard it;
/// printable ASCII accumulates, with lines over 64 characters discarded as
/// noise.
pub open spec fn slcan_line_step(line: Seq<u8>, b: u8) -> (Seq<u8>, Option<Seq<u8>>) {
    if b == 0x07 {
        (Seq::empty(), None)
    } else if b < 0x20 {
        if line.len() > 0 {
            (Seq::empty(), Some(line))
        } else {
            (line, None)
        }
    } else if b < 0x80 {
        if line.len() + 1 > 64 {
            (Seq::empty(), None)
        } else {
            (line + seq![b], None)
        }
    } else {
        (Seq::empty(), None)
    }
}

/// Folding the line assembler over a byte run: the pending line after all
/// the bytes, and every completed line, in order.
pub open spec fn slcan_line_feed(line: Seq<u8>, bytes: Seq<u8>) -> (Seq<u8>, Seq<Seq<u8>>)
    decreases bytes.len(),
{
    if bytes.len() == 0 {
        (line, Seq::empty())
    } else {
        let (line1, done1) = slcan_line_step(line, bytes[0]);
        let (line2, done2) = slcan_line_feed(line1, bytes.skip(1));
        (
            line2,
            match done1 {
                Some(l) => seq![l] + done2,
                None => done2,
            },
        )
    }
}

/// The slcan line assembler.
pub struct SlcanLineAssembler {
    line: Vec<u8>,
}

impl SlcanLineAssembler {
    /// The pending, incomplete line.
    pub closed spec fn spec_line(self) -> Seq<u8> {
        self.line@
    }

    /// A fresh assembler.
    pub fn new() -> (r: SlcanLineAssembler)
        ensures
            r.spec_line() == Seq::<u8>::empty(),
    {
        let r = SlcanLineAssembler { line: Vec::new() };
        proof {
            assert(r.spec_line() =~= Seq::<u8>::empty());
        }
        r
    }

    /// Feeds a read's worth of bytes; returns the lines they completed.
    pub fn feed(&mut self, data: &[u8]) -> (out: Vec<Vec<u8>>)
        ensures
            ({
                let (line2, done) = slcan_line_feed(old(self).spec_line(), data@);
                &&& final(self).spec_line() == line2
                &&& out@.len() == done.len()
                &&& forall|i: int| 0 <= i < out@.len() ==> (#[trigger] out@[i])@ == done[i]
            }),
    {
        let mut out: Vec<Vec<u8>> = Vec::new();
        let ghost mut emitted: Seq<Seq<u8>> = Seq::empty();
        let mut i: usize = 0;
        let ghost l0 = self.spec_line();
        proof {
            assert(data@.skip(0) =~= data@);
        }
        while i < data.len()
            invariant
                i <= data@.len(),
                slcan_line_feed(l0, data@).0 == slcan_line_feed(
                    self.spec_line(),
                    data@.skip(i as int),
                ).0,
                slcan_line_feed(l0, data@).1 =~= emitted + slcan_line_feed(
                    self.spec_line(),
                    data@.skip(i as int),
                ).1,
                out@.len() == emitted.len(),
                forall|j: int| 0 <= j < out@.len() ==> (#[trigger] out@[j])@ == emitted[j],
            decreases data@.len() - i,
        {
            let ghost cur = data@.skip(i as int);
            let ghost pre = self.spec_line();
            proof {
                assert(cur[0] == data@[i as int]);
                assert(cur.skip(1) =~= data@.skip(i as int + 1));
            }
            let b = data[i];
            if b == 0x07 {
                self.line.clear();
            } else if b < 0x20 {
                if self.line.len() > 0 {
                    let mut done: Vec<u8> = Vec::new();
                    core::mem::swap(&mut done, &mut self.line);
                    proof {
                        emitted = emitted + seq![done@];
                    }
                    out.push(done);
                }
            } else if b < 0x80 {
                if self.line.len() >= 64 {
                    self.line.clear();
                } else {
                    self.line.push(b);
                    proof {
                        assert(self.spec_line() =~= pre + seq![b]);
                    }
                }
            } else {
                self.line.clear();
            }
            proof {
                assert(self.spec_line() =~= slcan_line_step(pre, b).0);
            }
            i = i + 1;
        }
        proof {
            assert(slcan_line_feed(self.spec_line(), data@.skip(i as int)).1 =~= Seq::<
                Seq<u8>,
            >::empty());
            assert(slcan_line_feed(l0, data@).1 =~= emitted);
        }
        out
    }
}

/// Relies on `String::from_utf8`: succeeds exactly on valid UTF-8 and
/// returns the decoded characters.
#[verifier::external_body]
pub(crate) fn string_from_utf8(bytes: Vec<u8>) -> (r: Option<String>)
    ensures
        r matches Some(s) ==> s@ == vstd::utf8::decode_utf8(bytes@),
        r is None ==> !vstd::utf8::valid_utf8(bytes@),
{
    match String::from_utf8(bytes) {
        Ok(s) => Some(s),
        Err(_) => None,
    }
}

/// A sequence of plain ASCII bytes is a valid UTF-8 encoding.
pub(crate) proof fn lemma_ascii_valid_utf8(b: Seq<u8>)
    requires
        forall|i: int| 0 <= i < b.len() ==> b[i] < 0x80,
    ensures
        vstd::utf8::valid_utf8(b),
{
    assert(b.subrange(0, 0) =~= Seq::<u8>::empty());
    assert(vstd::utf8::valid_utf8(b.subrange(0, 0)));
    assert(vstd::utf8::partial_valid_utf8(b, 0));
    assert forall|i: int|
        0 <= i < b.len() implies #[trigger] vstd::utf8::is_leading_byte_width_1(b[i]) by {
        let x = b[i];
        assert(x < 0x80 ==> x & 0x80 == 0) by (bit_vector);
    }
    vstd::utf8::partial_valid_utf8_extend_ascii_block(b, 0, b.len() as int);
    assert(b.subrange(0, b.len() as int) =~= b);
}

/// Parses one assembled slcan line, given as bytes, into a frame.  For
/// ASCII lines (the only lines the assembler completes) the result is
/// `None` exactly when the line is not a frame of the slcan grammar.
pub fn parse_slcan_line_bytes(line: Vec<u8>, timestamp_us: u64) -> (r: Option<Frame>)
    ensures
        r matches Some(f) ==> f.can_wf() && (slcan_parse(vstd::utf8::decode_utf8(line@)) matches
            Some(g) && slcan_rec_matches(f, g, timestamp_us)),
        r is None && (forall|i: int| 0 <= i < line@.len() ==> line@[i] < 0x80) ==> slcan_parse(
            vstd::utf8::decode_utf8(line@),
        ) is None,
{
    let ghost lv = line@;
    match string_from_utf8(line) {
        Some(s) => parse_slcan_frame(s.as_str(), timestamp_us),
        None => {
            proof {
                if forall|i: int| 0 <= i < lv.len() ==> lv[i] < 0x80 {
                    lemma_ascii_valid_utf8(lv);
                }
            }
            None
        },
    }
}

/// Whether every byte of a pending or completed line is printable ASCII.
pub open spec fn line_printable(l: Seq<u8>) -> bool {
    forall|i: int| 0 <= i < l.len() ==> 0x20 <= #[trigger] l[i] < 0x80
}

/// The assembler only accumulates printable ASCII, so every line it
/// completes is printable ASCII.
pub proof fn lemma_slcan_lines_printable(line: Seq<u8>, bytes: Seq<u8>)
    requires
        line_printable(line),
    ensures
        ({
            let (l2, done) = slcan_line_feed(line, bytes);
            &&& line_printable(l2)
            &&& forall|i: int| 0 <= i < done.len() ==> line_printable(#[trigger] done[i])
        }),
    decreases bytes.len(),
{
    if bytes.len() > 0 {
        let (l1, done1) = slcan_line_step(line, bytes[0]);
        assert(line_printable(l1)) by {
            if 0x20 <= bytes[0] < 0x80 && line.len() < 64 {
                assert(l1 =~= line + seq![bytes[0]]);
            }
        }
        lemma_slcan_lines_printable(l1, bytes.skip(1));
        let (l2, done2) = slcan_line_feed(l1, bytes.skip(1));
        let done = slcan_line_feed(line, bytes).1;
        assert forall|i: int| 0 <= i < done.len() implies line_printable(#[trigger] done[i]) by {
            match done1 {
                Some(l) => {
                    if i > 0 {
                        assert(done[i] == done2[i - 1]);
                    }
                },
                None => {
                    assert(done[i] == done2[i]);
                },
            }
        }
    }
}

/// The assembler completes at most one line per byte.
pub proof fn lemma_slcan_lines_len(line: Seq<u8>, bytes: Seq<u8>)
    ensures
        slcan_line_feed(line, bytes).1.len() <= bytes.len(),
    decreases bytes.len(),
{
    if bytes.len() > 0 {
        let (l1, done1) = slcan_line_step(line, bytes[0]);
        lemma_slcan_lines_len(l1, bytes.skip(1));
    }
}

/// The frames of a run of completed lines: each line that parses as an
/// slcan frame contributes its record, in order.
pub open spec fn slcan_frames_of_lines(lines: Seq<Seq<u8>>) -> Seq<SlcanRecord>
    decreases lines.len(),
{
    if lines.len() == 0 {
        Seq::empty()
    } else {
        let rest = slcan_frames_of_lines(lines.skip(1));
        match slcan_parse(vstd::utf8::decode_utf8(lines[0])) {
            Some(g) => seq![g] + rest,
            None => rest,
        }
    }
}

/// No run of lines yields more frames than lines.
pub proof fn lemma_slcan_frames_len(lines: Seq<Seq<u8>>)
    ensures
        slcan_frames_of_lines(lines).len() <= lines.len(),
    decreases lines.len(),
{
    if lines.len() > 0 {
        lemma_slcan_frames_len(lines.skip(1));
    }
}

/// The slcan stream engine: assembles lines from serial bytes, parses the
/// frames, and applies the bus override.
pub struct SlcanEngine {
    /// The line assembler.
    pub assembler: SlcanLineAssembler,
    /// Forced bus number for every frame, when configured.
    pub bus_override: Option<u8>,
    /// Frames delivered so far.
    pub total_frames: u64,
    /// Maximum frames to deliver, when configured.
    pub limit: Option<u64>,
}

impl SlcanEngine {
    /// The pending line only ever holds printable ASCII.
    pub open spec fn wf(self) -> bool {
        line_printable(self.assembler.spec_line())
    }

    /// A fresh engine.
    pub fn new(bus_override: Option<u8>, limit: Option<u64>) -> (r: SlcanEngine)
        ensures
            r.wf(),
            r.bus_override == bus_override,
            r.limit == limit,
            r.total_frames == 0,
            r.assembler.spec_line() == Seq::<u8>::empty(),
    {
        SlcanEngine { assembler: SlcanLineAssembler::new(), bus_override, total_frames: 0, limit }
    }

    /// Whether the configured frame limit has been reached.
    pub fn reached_limit(&self) -> (r: bool)
        ensures
            r == match self.limit {
                Some(l) => self.total_frames >= l,
                None => false,
            },
    {
        match self.limit {
            Some(l) => self.total_frames >= l,
            None => false,
        }
    }

    /// Consumes a read's worth of serial bytes: exactly the frames of the
    /// lines those bytes completed, in order, stamped with the host time
    /// and the configured bus override.
    pub fn on_bytes(&mut self, data: &[u8], timestamp_us: u64) -> (out: Vec<Frame>)
        requires
            old(self).wf(),
            old(self).total_frames <= u64::MAX - 0x10000,
            data@.len() <= 0x10000,
        ensures
            final(self).wf(),
            final(self).bus_override == old(self).bus_override,
            final(self).limit == old(self).limit,
            final(self).assembler.spec_line() == slcan_line_feed(
                old(self).assembler.spec_line(),
                data@,
            ).0,
            ({
                let (l2, done) = slcan_line_feed(old(self).assembler.spec_line(), data@);
                let parsed = slcan_frames_of_lines(done);
                &&& out@.len() == parsed.len()
                &&& final(self).total_frames as int == old(self).total_frames + parsed.len()
                &&& (forall|k: int|
                    0 <= k < out@.len() ==> slcan_rec_matches(
                        Frame { bus: 0, ..#[trigger] out@[k] },
                        parsed[k],
                        timestamp_us,
                    ) && (match old(self).bus_override {
                        Some(b) => out@[k].bus == b,
                        None => out@[k].bus == 0,
                    }))
            }),
            forall|i: int| 0 <= i < out@.len() ==> (#[trigger] out@[i]).can_wf(),
    {
        let ghost l0 = self.assembler.spec_line();
        let ghost done = slcan_line_feed(l0, data@).1;
        let lines = self.assembler.feed(data);
        proof {
            lemma_slcan_lines_printable(l0, data@);
            lemma_slcan_lines_len(l0, data@);
            lemma_slcan_frames_len(done);
            assert(done.skip(0) =~= done);
        }
        let mut out: Vec<Frame> = Vec::new();
        let ghost mut recs: Seq<SlcanRecord> = Seq::empty();
        let ghost mut p: int = 0;
        let mut lines = lines;
        while lines.len() > 0
            invariant
                self.bus_override == old(self).bus_override,
                self.limit == old(self).limit,
                self.total_frames == old(self).total_frames,
                0 <= p,
                p + lines@.len() == done.len(),
                forall|q: int| 0 <= q < lines@.len() ==> (#[trigger] lines@[q])@ == done[p + q],
                forall|q: int| 0 <= q < done.len() ==> line_printable(#[trigger] done[q]),
                slcan_frames_of_lines(done) =~= recs + slcan_frames_of_lines(
                    done.skip(p),
                ),
                out@.len() == recs.len(),
                forall|k: int|
                    0 <= k < out@.len() ==> slcan_rec_matches(
                        Frame { bus: 0, ..#[trigger] out@[k] },
                        recs[k],
                        timestamp_us,
                    ) && (match old(self).bus_override {
                        Some(b) => out@[k].bus == b,
                        None => out@[k].bus == 0,
                    }),
                forall|i: int| 0 <= i < out@.len() ==> (#[trigger] out@[i]).can_wf(),
            decreases lines@.len(),
        {
            let ghost cur = done.skip(p);
            proof {
                assert(cur[0] == done[p]);
                assert(cur.skip(1) =~= done.skip(p + 1));
                assert(line_printable(done[p]));
            }
            let line = lines.remove(0);
            let ghost lv = line@;
            match parse_slcan_line_bytes(line, timestamp_us) {
                Some(f) => {
                    let mut f = f;
                    let ghost f0 = f;
                    match self.bus_override {
                        Some(b) => {
                            f.bus = b;
                        },
                        None => {},
                    }
                    proof {
                        assert(Frame { bus: 0, ..f } == f0);
                        let g = choose|g: SlcanRecord|
                            slcan_parse(vstd::utf8::decode_utf8(lv)) == Some(g);
                        recs = recs + seq![g];
                    }
                    out.push(f);
                },
                None => {
                    proof {
                        assert forall|i2: int| 0 <= i2 < lv.len() implies lv[i2] < 0x80 by {
                            assert(0x20 <= lv[i2] < 0x80);
                        }
                        assert(slcan_parse(vstd::utf8::decode_utf8(lv)) is None);
                    }
                },
            }
            proof {
                p = p + 1;
            }
        }
        proof {
            assert(done.skip(done.len() as int) =~= Seq::<Seq<u8>>::empty());
            assert(slcan_frames_of_lines(done) =~= recs);
        }
        self.total_frames = self.total_frames + (out.len() as u64);
        out
    }
}

/// How a serial frame corresponds to the framed chunk it was built from:/// How a serial frame corresponds to the framed chunk it was built from:
/// the payload is the chunk's bytes, the identifier and source address are
/// extracted per the configuration (the identifier falling back to the
/// running index), and the incomplete mark is carried over.
pub open spec fn chunk_frame_matches(
    f: Frame,
    c: ChunkSpec,
    timestamp_us: u64,
    fallback_id: u32,
    frame_id_config: Option<FrameIdConfig>,
    source_address_config: Option<FrameIdConfig>,
) -> bool {
    &&& f.serial_wf()
    &&& f.protocol == Protocol::Serial
    &&& f.timestamp_us == timestamp_us
    &&& f.bytes@ == c.bytes
    &&& f.frame_id == (match frame_id_config {
        Some(cfg) => match spec_extract_frame_id(c.bytes, cfg) {
            Some(v) => v,
            None => fallback_id,
        },
        None => fallback_id,
    })
    &&& f.source_address == (match source_address_config {
        Some(cfg) => match spec_extract_frame_id(c.bytes, cfg) {
            Some(v) => Some(v as u16),
            None => None,
        },
        None => None,
    })
    &&& f.incomplete == (if c.incomplete {
        Some(true)
    } else {
        None::<bool>
    })
    &&& !f.is_extended && !f.is_fd && !f.is_rtr && f.bus == 0 && f.direction is None
}

/// The chunks of at least the minimum length, in order.
pub open spec fn kept_chunks(chunks: Seq<ChunkSpec>, min: int) -> Seq<ChunkSpec>
    decreases chunks.len(),
{
    if chunks.len() == 0 {
        Seq::empty()
    } else {
        let rest = kept_chunks(chunks.skip(1), min);
        if chunks[0].bytes.len() >= min {
            seq![chunks[0]] + rest
        } else {
            rest
        }
    }
}

/// Keeping chunks never lengthens the list.
pub proof fn lemma_kept_chunks_len(chunks: Seq<ChunkSpec>, min: int)
    ensures
        kept_chunks(chunks, min).len() <= chunks.len(),
    decreases chunks.len(),
{
    if chunks.len() > 0 {
        lemma_kept_chunks_len(chunks.skip(1), min);
    }
}

/// Turns one framed chunk into a serial frame, per
/// [`chunk_frame_matches`].
pub fn chunk_to_frame(
    chunk: FramedChunk,
    timestamp_us: u64,
    fallback_id: u32,
    frame_id_config: &Option<FrameIdConfig>,
    source_address_config: &Option<FrameIdConfig>,
) -> (r: Frame)
    ensures
        chunk_frame_matches(
            r,
            ChunkSpec { bytes: chunk.bytes@, incomplete: chunk.incomplete, crc_valid: chunk.crc_valid },
            timestamp_us,
            fallback_id,
            *frame_id_config,
            *source_address_config,
        ),
{
    let frame_id: u32 = match frame_id_config {
        Some(cfg) => match extract_frame_id(&chunk.bytes, cfg) {
            Some(v) => v,
            None => fallback_id,
        },
        None => fallback_id,
    };
    let source_address: Option<u16> = match source_address_config {
        Some(cfg) => match extract_frame_id(&chunk.bytes, cfg) {
            Some(v) => Some(v as u16),
            None => None,
        },
        None => None,
    };
    let dlc: u8 = if chunk.bytes.len() <= 255 {
        chunk.bytes.len() as u8
    } else {
        255
    };
    Frame {
        protocol: Protocol::Serial,
        timestamp_us,
        frame_id,
        bus: 0,
        dlc,
        bytes: chunk.bytes,
        is_extended: false,
        is_fd: false,
        is_rtr: false,
        source_address,
        incomplete: if chunk.incomplete {
            Some(true)
        } else {
            None
        },
        direction: None,
    }
}

/// The generic serial stream engine: timestamps raw bytes, feeds the
/// framer when framing is configured, filters short frames, and extracts
/// identifiers.  While paused it discards everything it reads, keeping the
/// port drained.
pub struct SerialEngine {
    /// The framer, when framing is configured.
    pub framer: Option<SerialFramer>,
    /// Identifier extraction configuration.
    pub frame_id_config: Option<FrameIdConfig>,
    /// Source-address extraction configuration.
    pub source_address_config: Option<FrameIdConfig>,
    /// Frames shorter than this are discarded.
    pub min_frame_length: usize,
    /// Whether raw timestamped bytes are part of the output.
    pub emit_raw_bytes: bool,
    /// Running index used when no identifier can be extracted.
    pub next_index: u32,
}

impl SerialEngine {
    /// The framer's spec-level state, when framing is configured.
    pub open spec fn spec_framer_model(self) -> Option<FramerModel> {
        match self.framer {
            Some(f) => Some(f.model()),
            None => None,
        }
    }

    /// The framer's encoding, when framing is configured.
    pub open spec fn spec_framer_enc(self) -> Option<FramingEncoding> {
        match self.framer {
            Some(f) => Some(f.enc()),
            None => None,
        }
    }

    /// A fresh engine; `framing` of `None` passes raw bytes through only.
    pub fn new(
        framing: Option<FramingEncoding>,
        frame_id_config: Option<FrameIdConfig>,
        source_address_config: Option<FrameIdConfig>,
        min_frame_length: usize,
        emit_raw_bytes: bool,
    ) -> (r: SerialEngine)
        ensures
            r.frame_id_config == frame_id_config,
            r.source_address_config == source_address_config,
            r.min_frame_length == min_frame_length,
            r.emit_raw_bytes == emit_raw_bytes,
            r.next_index == 0,
            r.spec_framer_model() == (match framing {
                Some(_) => Some(framer_init()),
                None => None::<FramerModel>,
            }),
            r.spec_framer_enc() == framing,
    {
        let framer = match framing {
            Some(enc) => Some(SerialFramer::new(enc)),
            None => None,
        };
        SerialEngine {
            framer,
            frame_id_config,
            source_address_config,
            min_frame_length,
            emit_raw_bytes,
            next_index: 0,
        }
    }

    /// Consumes a read's worth of serial bytes.  When paused, everything
    /// is discarded.  Otherwise the raw bytes come back timestamped (when
    /// raw emission is on or framing is off), and the framer's completed
    /// chunks of at least the minimum length come back as serial frames,
    /// exactly and in order.
    pub fn on_bytes(&mut self, data: &[u8], timestamp_us: u64, paused: bool) -> (r: (
        Vec<TimestampedByte>,
        Vec<Frame>,
    ))
        requires
            old(self).next_index <= u32::MAX - 0x10000,
            data@.len() <= 0x10000,
        ensures
            final(self).frame_id_config == old(self).frame_id_config,
            final(self).source_address_config == old(self).source_address_config,
            final(self).min_frame_length == old(self).min_frame_length,
            final(self).emit_raw_bytes == old(self).emit_raw_bytes,
            final(self).spec_framer_enc() == old(self).spec_framer_enc(),
            paused ==> r.0@.len() == 0 && r.1@.len() == 0 && final(self).spec_framer_model()
                == old(self).spec_framer_model() && final(self).next_index == old(
                self,
            ).next_index,
            !paused ==> match (old(self).spec_framer_enc(), old(self).spec_framer_model()) {
                (Some(enc), Some(m0)) => {
                    let (st2, outs) = framer_feed_seq(enc, m0, data@);
                    let kept = kept_chunks(outs, old(self).min_frame_length as int);
                    &&& final(self).spec_framer_model() == Some(st2)
                    &&& r.1@.len() == kept.len()
                    &&& (forall|k: int|
                        0 <= k < r.1@.len() ==> chunk_frame_matches(
                            #[trigger] r.1@[k],
                            kept[k],
                            timestamp_us,
                            (old(self).next_index + k) as u32,
                            old(self).frame_id_config,
                            old(self).source_address_config,
                        ))
                    &&& final(self).next_index as int == old(self).next_index + kept.len()
                    &&& r.0@.len() as int == (if old(self).emit_raw_bytes {
                        data@.len() as int
                    } else {
                        0
                    })
                },
                _ => {
                    &&& r.1@.len() == 0
                    &&& r.0@.len() == data@.len()
                    &&& final(self).next_index == old(self).next_index
                },
            },
            r.0@.len() > 0 ==> r.0@.len() == data@.len() && (forall|i: int|
                0 <= i < r.0@.len() ==> (#[trigger] r.0@[i]) == (TimestampedByte {
                    byte: data@[i],
                    timestamp_us,
                })),
            forall|i: int|
                0 <= i < r.1@.len() ==> (#[trigger] r.1@[i]).serial_wf() && r.1@[i].timestamp_us
                    == timestamp_us && r.1@[i].bytes@.len() >= old(self).min_frame_length,
    {
        let mut raw: Vec<TimestampedByte> = Vec::new();
        let mut frames: Vec<Frame> = Vec::new();
        if paused {
            // Drop everything read while paused; the port stays drained.
            return (raw, frames);
        }
        let has_framer = match &self.framer {
            Some(_) => true,
            None => false,
        };
        if self.emit_raw_bytes || !has_framer {
            let mut i: usize = 0;
            while i < data.len()
                invariant
                    i <= data@.len(),
                    raw@.len() == i,
                    forall|j: int|
                        0 <= j < raw@.len() ==> (#[trigger] raw@[j]) == (TimestampedByte {
                            byte: data@[j],
                            timestamp_us,
                        }),
                decreases data@.len() - i,
            {
                raw.push(TimestampedByte { byte: data[i], timestamp_us });
                i = i + 1;
            }
        }
        let min_len = self.min_frame_length;
        let id_cfg = self.frame_id_config;
        let src_cfg = self.source_address_config;
        let mut framer_taken: Option<SerialFramer> = None;
        core::mem::swap(&mut framer_taken, &mut self.framer);
        match framer_taken {
            Some(mut framer) => {
                let ghost enc = framer.enc();
                let ghost m0 = framer.model();
                let ghost outs = framer_feed_seq(enc, m0, data@).1;
                let mut chunks = framer.feed(data);
                proof {
                    lemma_framer_feed_len(enc, m0, data@);
                    assert(outs.skip(0) =~= outs);
                }
                let ghost mut done: Seq<ChunkSpec> = Seq::empty();
                let mut k: usize = 0;
                let n = chunks.len();
                while k < n
                    invariant
                        k <= n == outs.len(),
                        n == chunks@.len() + k,
                        outs.len() <= data@.len() <= 0x10000,
                        self.next_index as int == old(self).next_index + done.len(),
                        old(self).next_index <= u32::MAX - 0x10000,
                        min_len == old(self).min_frame_length,
                        id_cfg == old(self).frame_id_config,
                        src_cfg == old(self).source_address_config,
                        self.frame_id_config == old(self).frame_id_config,
                        self.source_address_config == old(self).source_address_config,
                        self.min_frame_length == old(self).min_frame_length,
                        self.emit_raw_bytes == old(self).emit_raw_bytes,
                        self.framer is None,
                        forall|q: int|
                            0 <= q < chunks@.len() ==> crate::framer::chunk_matches(
                                #[trigger] chunks@[q],
                                outs[k + q],
                            ),
                        kept_chunks(outs, min_len as int) =~= done + kept_chunks(
                            outs.skip(k as int),
                            min_len as int,
                        ),
                        done.len() <= k,
                        forall|j: int|
                            0 <= j < done.len() ==> (#[trigger] done[j]).bytes.len()
                                >= min_len,
                        frames@.len() == done.len(),
                        forall|j: int|
                            0 <= j < frames@.len() ==> chunk_frame_matches(
                                #[trigger] frames@[j],
                                done[j],
                                timestamp_us,
                                (old(self).next_index + j) as u32,
                                old(self).frame_id_config,
                                old(self).source_address_config,
                            ),
                    decreases n - k,
                {
                    let ghost cur = outs.skip(k as int);
                    proof {
                        assert(cur[0] == outs[k as int]);
                        assert(cur.skip(1) =~= outs.skip(k as int + 1));
                    }
                    let chunk = chunks.remove(0);
                    if chunk.bytes.len() >= min_len {
                        let f = chunk_to_frame(
                            chunk,
                            timestamp_us,
                            self.next_index,
                            &id_cfg,
                            &src_cfg,
                        );
                        frames.push(f);
                        self.next_index = self.next_index + 1;
                        proof {
                            done = done + seq![outs[k as int]];
                        }
                    }
                    k = k + 1;
                }
                proof {
                    assert(outs.skip(n as int) =~= Seq::<ChunkSpec>::empty());
                    assert(kept_chunks(outs, min_len as int) =~= done);
                }
                self.framer = Some(framer);
            },
            None => {
                self.framer = None;
            },
        }
        (raw, frames)
    }

    /// Flushes the framer at end of stream; a trailing chunk of at least
    /// the minimum length comes back as a final serial frame, and the
    /// framer is reset.
    pub fn flush(&mut self, timestamp_us: u64) -> (r: Option<Frame>)
        requires
            old(self).next_index <= u32::MAX - 1,
        ensures
            final(self).frame_id_config == old(self).frame_id_config,
            final(self).source_address_config == old(self).source_address_config,
            final(self).min_frame_length == old(self).min_frame_length,
            final(self).emit_raw_bytes == old(self).emit_raw_bytes,
            final(self).spec_framer_enc() == old(self).spec_framer_enc(),
            old(self).spec_framer_model() is None ==> r is None && final(self).next_index
                == old(self).next_index,
            match (old(self).spec_framer_enc(), old(self).spec_framer_model()) {
                (Some(enc), Some(m0)) => {
                    &&& final(self).spec_framer_model() == Some(framer_init())
                    &&& match framer_flush_spec(enc, m0) {
                        Some(c) => if c.bytes.len() >= old(self).min_frame_length {
                            &&& r matches Some(f) && chunk_frame_matches(
                                f,
                                c,
                                timestamp_us,
                                old(self).next_index,
                                old(self).frame_id_config,
                                old(self).source_address_config,
                            )
                            &&& final(self).next_index == old(self).next_index + 1
                        } else {
                            r is None && final(self).next_index == old(self).next_index
                        },
                        None => r is None && final(self).next_index == old(self).next_index,
                    }
                },
                _ => true,
            },
            r matches Some(f) ==> f.serial_wf() && f.timestamp_us == timestamp_us
                && f.bytes@.len() >= old(self).min_frame_length,
    {
        let min_len = self.min_frame_length;
        let id_cfg = self.frame_id_config;
        let src_cfg = self.source_address_config;
        match &mut self.framer {
            Some(framer) => match framer.flush() {
                Some(chunk) => {
                    if chunk.bytes.len() >= min_len {
                        let f = chunk_to_frame(
                            chunk,
                            timestamp_us,
                            self.next_index,
                            &id_cfg,
                            &src_cfg,
                        );
                        self.next_index = self.next_index + 1;
                        Some(f)
                    } else {
                        None
                    }
                },
                None => None,
            },
            None => None,
        }
    }
}

/// The byte values of a timestamped capture, in order.
pub open spec fn tsb_bytes(bytes: Seq<TimestampedByte>) -> Seq<u8> {
    Seq::new(bytes.len(), |i: int| bytes[i].byte)
}

/// The capture timestamp a frame starting at byte `start` carries; a
/// start position past the capture (a flushed frame after the last byte)
/// reads as zero.
pub open spec fn start_timestamp(bytes: Seq<TimestampedByte>, start: int) -> u64 {
    if 0 <= start < bytes.len() {
        bytes[start].timestamp_us
    } else {
        0
    }
}

/// The framer run over a capture, chunk by chunk with the index of each
/// chunk's first byte: feeding one byte at a time from `base`, a chunk
/// completed by byte `base` starts at the current `start`, and the next
/// frame starts right after that byte.
pub open spec fn framer_run(
    enc: FramingEncoding,
    st: FramerModel,
    bytes: Seq<u8>,
    base: int,
    start: int,
) -> (FramerModel, Seq<(ChunkSpec, int)>, int)
    decreases bytes.len(),
{
    if bytes.len() == 0 {
        (st, Seq::empty(), start)
    } else {
        let (st1, out1) = framer_step(enc, st, bytes[0]);
        let ann1: Seq<(ChunkSpec, int)> = if out1.len() > 0 {
            seq![(out1[0], start)]
        } else {
            Seq::empty()
        };
        let start1: int = if out1.len() > 0 {
            base + 1
        } else {
            start
        };
        let (st2, ann2, fin) = framer_run(enc, st1, bytes.skip(1), base + 1, start1);
        (st2, ann1 + ann2, fin)
    }
}

/// The annotated chunks of at least the minimum length, each with its
/// start position and its ordinal in the unfiltered list (the running
/// fallback identifier).
pub open spec fn kept_annotated(
    list: Seq<(ChunkSpec, int)>,
    min: int,
    idx: int,
) -> Seq<(ChunkSpec, int, int)>
    decreases list.len(),
{
    if list.len() == 0 {
        Seq::empty()
    } else {
        let rest = kept_annotated(list.skip(1), min, idx + 1);
        if list[0].0.bytes.len() >= min {
            seq![(list[0].0, list[0].1, idx)] + rest
        } else {
            rest
        }
    }
}

/// Appending one annotated chunk appends its kept image, ordinal included.
proof fn lemma_kept_annotated_snoc(
    list: Seq<(ChunkSpec, int)>,
    x: (ChunkSpec, int),
    min: int,
    idx: int,
)
    ensures
        kept_annotated(list.push(x), min, idx) =~= kept_annotated(list, min, idx) + (
        if x.0.bytes.len() >= min {
            seq![(x.0, x.1, idx + list.len() as int)]
        } else {
            Seq::empty()
        }),
    decreases list.len(),
{
    if list.len() == 0 {
        assert(list.push(x)[0] == x);
        assert(list.push(x).skip(1) =~= Seq::<(ChunkSpec, int)>::empty());
        assert(kept_annotated(list.push(x).skip(1), min, idx + 1) =~= Seq::<
            (ChunkSpec, int, int),
        >::empty());
    } else {
        assert(list.push(x)[0] == list[0]);
        assert(list.push(x).skip(1) =~= list.skip(1).push(x));
        lemma_kept_annotated_snoc(list.skip(1), x, min, idx + 1);
        assert(kept_annotated(list.push(x), min, idx) =~= (if list[0].0.bytes.len() >= min {
            seq![(list[0].0, list[0].1, idx)]
        } else {
            Seq::<(ChunkSpec, int, int)>::empty()
        }) + kept_annotated(list.skip(1).push(x), min, idx + 1));
        assert(kept_annotated(list, min, idx) =~= (if list[0].0.bytes.len() >= min {
            seq![(list[0].0, list[0].1, idx)]
        } else {
            Seq::<(ChunkSpec, int, int)>::empty()
        }) + kept_annotated(list.skip(1), min, idx + 1));
    }
}

/// Cuts an already captured byte buffer into serial frames: the bytes are
/// fed to the framer one at a time so that each frame carries the capture
/// timestamp of its first byte (the byte after the previously completed
/// frame).  The result is exactly the chunks of the annotated framer run
/// plus the flush, those of at least the minimum length, in order, each
/// converted per [`chunk_frame_matches`] with the chunk's unfiltered
/// ordinal as the fallback identifier.
pub fn apply_framing(
    bytes: &Vec<TimestampedByte>,
    encoding: FramingEncoding,
    min_length: usize,
    frame_id_config: Option<FrameIdConfig>,
    source_address_config: Option<FrameIdConfig>,
) -> (out: Vec<Frame>)
    requires
        bytes@.len() <= u32::MAX - 1,
    ensures
        ({
            let (st2, ann, fin) = framer_run(
                encoding,
                framer_init(),
                tsb_bytes(bytes@),
                0,
                0,
            );
            let full = ann + (match framer_flush_spec(encoding, st2) {
                Some(c) => seq![(c, fin)],
                None => Seq::<(ChunkSpec, int)>::empty(),
            });
            let kept = kept_annotated(full, min_length as int, 0);
            &&& out@.len() == kept.len()
            &&& (forall|k: int|
                0 <= k < out@.len() ==> chunk_frame_matches(
                    #[trigger] out@[k],
                    kept[k].0,
                    start_timestamp(bytes@, kept[k].1),
                    kept[k].2 as u32,
                    frame_id_config,
                    source_address_config,
                ))
        }),
        forall|i: int| 0 <= i < out@.len() ==> (#[trigger] out@[i]).serial_wf(),
        forall|i: int|
            0 <= i < out@.len() ==> (#[trigger] out@[i]).bytes@.len() >= min_length,
{
    let ghost enc = encoding;
    let ghost all = tsb_bytes(bytes@);
    let mut framer = SerialFramer::new(encoding);
    let mut out: Vec<Frame> = Vec::new();
    let ghost mut done_ann: Seq<(ChunkSpec, int)> = Seq::empty();
    let mut frame_start: usize = 0;
    let mut index: u32 = 0;
    let mut i: usize = 0;
    proof {
        assert(all.skip(0) =~= all);
        assert(done_ann + framer_run(enc, framer.model(), all, 0, 0).1 =~= framer_run(
            enc,
            framer.model(),
            all,
            0,
            0,
        ).1);
    }
    while i < bytes.len()
        invariant
            i <= bytes@.len(),
            bytes@.len() <= u32::MAX - 1,
            all == tsb_bytes(bytes@),
            framer.enc() == enc,
            frame_start <= i,
            index as int == done_ann.len(),
            done_ann.len() <= i,
            framer_run(enc, framer_init(), all, 0, 0).0 == framer_run(
                enc,
                framer.model(),
                all.skip(i as int),
                i as int,
                frame_start as int,
            ).0,
            framer_run(enc, framer_init(), all, 0, 0).1 =~= done_ann + framer_run(
                enc,
                framer.model(),
                all.skip(i as int),
                i as int,
                frame_start as int,
            ).1,
            framer_run(enc, framer_init(), all, 0, 0).2 == framer_run(
                enc,
                framer.model(),
                all.skip(i as int),
                i as int,
                frame_start as int,
            ).2,
            out@.len() == kept_annotated(done_ann, min_length as int, 0).len(),
            forall|k: int|
                0 <= k < out@.len() ==> chunk_frame_matches(
                    #[trigger] out@[k],
                    kept_annotated(done_ann, min_length as int, 0)[k].0,
                    start_timestamp(bytes@, kept_annotated(done_ann, min_length as int, 0)[k].1),
                    kept_annotated(done_ann, min_length as int, 0)[k].2 as u32,
                    frame_id_config,
                    source_address_config,
                ),
            forall|i2: int| 0 <= i2 < out@.len() ==> (#[trigger] out@[i2]).serial_wf(),
            forall|i2: int|
                0 <= i2 < out@.len() ==> (#[trigger] out@[i2]).bytes@.len() >= min_length,
        decreases bytes@.len() - i,
    {
        let ghost cur = all.skip(i as int);
        let ghost m = framer.model();
        let ghost fs0 = frame_start as int;
        let ghost st1 = framer_step(enc, m, cur[0]).0;
        let ghost out1 = framer_step(enc, m, cur[0]).1;
        proof {
            assert(cur[0] == all[i as int]);
            assert(cur[0] == bytes@[i as int].byte);
            assert(cur.skip(1) =~= all.skip(i as int + 1));
            lemma_framer_step_len(enc, m, cur[0]);
        }
        let b = [bytes[i].byte];
        let mut chunks = framer.feed(&b);
        proof {
            assert(b@ =~= seq![bytes@[i as int].byte]);
            assert(b@[0] == cur[0]);
            assert(b@.skip(1) =~= Seq::<u8>::empty());
            assert(framer_feed_seq(enc, st1, b@.skip(1)).1 =~= Seq::<ChunkSpec>::empty());
            assert(framer.model() == st1);
            assert(framer_feed_seq(enc, m, b@).1 =~= out1);
            assert(chunks@.len() == out1.len());
        }
        if chunks.len() > 0 {
            let chunk = chunks.remove(0);
            let ghost spec_chunk = out1[0];
            proof {
                assert(crate::framer::chunk_matches(chunk, spec_chunk));
            }
            let ts: u64 = if frame_start < bytes.len() {
                bytes[frame_start].timestamp_us
            } else {
                0
            };
            proof {
                assert(ts == start_timestamp(bytes@, frame_start as int));
                lemma_kept_annotated_snoc(
                    done_ann,
                    (spec_chunk, fs0),
                    min_length as int,
                    0,
                );
            }
            if chunk.bytes.len() >= min_length {
                let f = chunk_to_frame(
                    chunk,
                    ts,
                    index,
                    &frame_id_config,
                    &source_address_config,
                );
                out.push(f);
            }
            proof {
                done_ann = done_ann.push((spec_chunk, fs0));
                assert(done_ann =~= done_ann.drop_last() + seq![(spec_chunk, fs0)]);
            }
            index = index + 1;
            frame_start = i + 1;
        }
        proof {
            let new_fs: int = if out1.len() > 0 {
                i as int + 1
            } else {
                fs0
            };
            assert(frame_start as int == new_fs);
            let ann1: Seq<(ChunkSpec, int)> = if out1.len() > 0 {
                seq![(out1[0], fs0)]
            } else {
                Seq::empty()
            };
            assert(framer_run(enc, m, cur, i as int, fs0).0 == framer_run(
                enc,
                st1,
                all.skip(i as int + 1),
                i as int + 1,
                new_fs,
            ).0);
            assert(framer_run(enc, m, cur, i as int, fs0).1 =~= ann1 + framer_run(
                enc,
                st1,
                all.skip(i as int + 1),
                i as int + 1,
                new_fs,
            ).1);
            assert(framer_run(enc, m, cur, i as int, fs0).2 == framer_run(
                enc,
                st1,
                all.skip(i as int + 1),
                i as int + 1,
                new_fs,
            ).2);
            assert(framer_run(enc, framer_init(), all, 0, 0).1 =~= done_ann + framer_run(
                enc,
                st1,
                all.skip(i as int + 1),
                i as int + 1,
                new_fs,
            ).1);
        }
        i = i + 1;
    }
    proof {
        assert(all.skip(all.len() as int) =~= Seq::<u8>::empty());
    }
    let ghost st2 = framer.model();
    let ghost fin = frame_start as int;
    match framer.flush() {
        Some(chunk) => {
            let ghost spec_chunk = match framer_flush_spec(enc, st2) {
                Some(c) => c,
                None => ChunkSpec { bytes: Seq::empty(), incomplete: false, crc_valid: None },
            };
            let ts: u64 = if frame_start < bytes.len() {
                bytes[frame_start].timestamp_us
            } else {
                0
            };
            proof {
                lemma_kept_annotated_snoc(done_ann, (spec_chunk, fin), min_length as int, 0);
                assert(done_ann.push((spec_chunk, fin)) =~= done_ann + seq![
                    (spec_chunk, fin),
                ]);
            }
            if chunk.bytes.len() >= min_length {
                let f = chunk_to_frame(
                    chunk,
                    ts,
                    index,
                    &frame_id_config,
                    &source_address_config,
                );
                out.push(f);
            }
        },
        None => {
            proof {
                assert(done_ann + Seq::<(ChunkSpec, int)>::empty() =~= done_ann);
            }
        },
    }
    out
}

} // verus!
