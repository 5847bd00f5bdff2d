//! The in-memory buffer store: typed buffers of captured frames or
//! timestamped bytes, one active buffer per type, and finalization with
//! computed metadata.

use vstd::prelude::*;

use crate::frame::{Frame, TimestampedByte};
use crate::strutil::{spec_dec_str, str_eq};
use vstd::string::StringExecFns;

verus! {

/// What a buffer holds.
#[derive(Clone, Copy, Debug, PartialEq, Eq, Structural)]
pub enum BufferType {
    /// Captured frames.
    Frames,
    /// Raw timestamped bytes.
    Bytes,
}

/// Metadata of a finalized buffer.
#[derive(Clone, Debug)]
pub struct BufferMetadata {
    /// Stable buffer identifier.
    pub id: String,
    /// Human-readable name.
    pub name: String,
    /// What the buffer holds.
    pub buffer_type: BufferType,
    /// How many records it holds.
    pub count: usize,
    /// Earliest record timestamp, if any records exist.
    pub start_time_us: Option<u64>,
    /// Latest record timestamp, if any records exist.
    pub end_time_us: Option<u64>,
}

/// One stored buffer.
pub struct StoredBuffer {
    /// Stable buffer identifier.
    pub id: String,
    /// Human-readable name.
    pub name: String,
    /// What the buffer holds.
    pub buffer_type: BufferType,
    /// The frames, for frame buffers.
    pub frames: Vec<Frame>,
    /// The bytes, for byte buffers.
    pub bytes: Vec<TimestampedByte>,
    /// Sealed against further writes.
    pub finalized: bool,
}

/// The buffer store: every buffer created so far, and which one is the
/// active append target of each type.
pub struct BufferStore {
    buffers: Vec<StoredBuffer>,
    active_frames: Option<usize>,
    active_bytes: Option<usize>,
    next_id: u64,
}

/// The index of the buffer with this id, if one exists (ids are unique by
/// construction; the newest wins).
pub open spec fn spec_find_buffer(buffers: Seq<StoredBuffer>, id: Seq<char>) -> Option<int>
    decreases buffers.len(),
{
    if buffers.len() == 0 {
        None
    } else if buffers.last().id@ == id {
        Some(buffers.len() - 1)
    } else {
        spec_find_buffer(buffers.drop_last(), id)
    }
}

/// The least of the first `n` values.
pub open spec fn ts_min(s: Seq<u64>, n: int) -> u64
    decreases n,
{
    if n <= 1 {
        s[0]
    } else {
        let m = ts_min(s, n - 1);
        if s[n - 1] < m {
            s[n - 1]
        } else {
            m
        }
    }
}

/// The greatest of the first `n` values.
pub open spec fn ts_max(s: Seq<u64>, n: int) -> u64
    decreases n,
{
    if n <= 1 {
        s[0]
    } else {
        let m = ts_max(s, n - 1);
        if s[n - 1] > m {
            s[n - 1]
        } else {
            m
        }
    }
}

/// The timestamps of a frame buffer, in order.
pub open spec fn frame_ts(frames: Seq<Frame>) -> Seq<u64> {
    Seq::new(frames.len(), |i: int| frames[i].timestamp_us)
}

/// The timestamps of a byte buffer, in order.
pub open spec fn byte_ts(bytes: Seq<TimestampedByte>) -> Seq<u64> {
    Seq::new(bytes.len(), |i: int| bytes[i].timestamp_us)
}

impl BufferStore {
    /// The stored buffers, oldest first.
    pub closed spec fn spec_buffers(self) -> Seq<StoredBuffer> {
        self.buffers@
    }

    /// The active frame buffer's index, if one is active.
    pub closed spec fn spec_active_frames(self) -> Option<usize> {
        self.active_frames
    }

    /// The active byte buffer's index, if one is active.
    pub closed spec fn spec_active_bytes(self) -> Option<usize> {
        self.active_bytes
    }

    /// Indexes held as active always point into the buffer list.
    pub open spec fn wf(self) -> bool {
        &&& (self.spec_active_frames() matches Some(i) ==> i < self.spec_buffers().len())
        &&& (self.spec_active_bytes() matches Some(i) ==> i < self.spec_buffers().len())
    }

    /// The active buffer of a type, if one is active.
    pub open spec fn spec_active_of(self, buffer_type: BufferType) -> Option<usize> {
        match buffer_type {
            BufferType::Frames => self.spec_active_frames(),
            BufferType::Bytes => self.spec_active_bytes(),
        }
    }

    /// An empty store.
    pub fn new() -> (r: BufferStore)
        ensures
            r.wf(),
            r.spec_buffers() == Seq::<StoredBuffer>::empty(),
            r.spec_active_frames() is None,
            r.spec_active_bytes() is None,
    {
        let r = BufferStore {
            buffers: Vec::new(),
            active_frames: None,
            active_bytes: None,
            next_id: 0,
        };
        proof {
            assert(r.spec_buffers() =~= Seq::<StoredBuffer>::empty());
        }
        r
    }

    /// Creates a buffer of the given type and makes it the active append
    /// target of that type (sealing off any predecessor); returns its id.
    pub fn create_buffer(&mut self, buffer_type: BufferType, name: String) -> (r: String)
        requires
            old(self).wf(),
        ensures
            final(self).wf(),
            final(self).spec_buffers().len() == old(self).spec_buffers().len() + 1,
            ({
                let b = final(self).spec_buffers().last();
                &&& b.buffer_type == buffer_type
                &&& b.name@ == name@
                &&& b.id@ == r@
                &&& b.frames@.len() == 0
                &&& b.bytes@.len() == 0
                &&& !b.finalized
            }),
            (buffer_type == BufferType::Frames ==> final(self).spec_active_frames() == Some(
                (final(self).spec_buffers().len() - 1) as usize,
            ) && final(self).spec_active_bytes() == old(self).spec_active_bytes()),
            (buffer_type == BufferType::Bytes ==> final(self).spec_active_bytes() == Some(
                (final(self).spec_buffers().len() - 1) as usize,
            ) && final(self).spec_active_frames() == old(self).spec_active_frames()),
            // Creating a new active buffer seals off the predecessor of
            // the same type; every other buffer is untouched.
            (match old(self).spec_active_of(buffer_type) {
                Some(j) => final(self).spec_buffers()[j as int] == (StoredBuffer {
                    finalized: true,
                    ..old(self).spec_buffers()[j as int]
                }) && (forall|i: int|
                    0 <= i < old(self).spec_buffers().len() && i != j as int
                        ==> final(self).spec_buffers()[i] == old(self).spec_buffers()[i]),
                None => forall|i: int|
                    0 <= i < old(self).spec_buffers().len() ==> final(self).spec_buffers()[i]
                        == old(self).spec_buffers()[i],
            }),
    {
        match buffer_type {
            BufferType::Frames => match self.active_frames {
                Some(prev) => {
                    let b = &mut self.buffers[prev];
                    b.finalized = true;
                },
                None => {},
            },
            BufferType::Bytes => match self.active_bytes {
                Some(prev) => {
                    let b = &mut self.buffers[prev];
                    b.finalized = true;
                },
                None => {},
            },
        }
        let id = self.fresh_id();
        let idx = self.buffers.len();
        self.buffers.push(
            StoredBuffer {
                id,
                name,
                buffer_type,
                frames: Vec::new(),
                bytes: Vec::new(),
                finalized: false,
            },
        );
        match buffer_type {
            BufferType::Frames => {
                self.active_frames = Some(idx);
            },
            BufferType::Bytes => {
                self.active_bytes = Some(idx);
            },
        }
        let last = self.buffers.len() - 1;
        let r = duplicate_string(&self.buffers[last].id);
        r
    }

    /// Creates a buffer without making it active; returns its id.
    pub fn create_buffer_inactive(&mut self, buffer_type: BufferType, name: String) -> (r:
        String)
        requires
            old(self).wf(),
        ensures
            final(self).wf(),
            final(self).spec_buffers().len() == old(self).spec_buffers().len() + 1,
            ({
                let b = final(self).spec_buffers().last();
                &&& b.buffer_type == buffer_type
                &&& b.name@ == name@
                &&& b.id@ == r@
                &&& b.frames@.len() == 0
                &&& b.bytes@.len() == 0
                &&& !b.finalized
            }),
            final(self).spec_active_frames() == old(self).spec_active_frames(),
            final(self).spec_active_bytes() == old(self).spec_active_bytes(),
            forall|i: int|
                0 <= i < old(self).spec_buffers().len() ==> final(self).spec_buffers()[i] == old(
                    self,
                ).spec_buffers()[i],
    {
        let id = self.fresh_id();
        self.buffers.push(
            StoredBuffer {
                id,
                name,
                buffer_type,
                frames: Vec::new(),
                bytes: Vec::new(),
                finalized: false,
            },
        );
        let last = self.buffers.len() - 1;
        duplicate_string(&self.buffers[last].id)
    }

    /// A fresh buffer identifier from the counter.
    fn fresh_id(&mut self) -> (r: String)
        ensures
            final(self).spec_buffers() == old(self).spec_buffers(),
            final(self).spec_active_frames() == old(self).spec_active_frames(),
            final(self).spec_active_bytes() == old(self).spec_active_bytes(),
            r@ == "buffer-"@ + spec_dec_str(old(self).spec_next_id() as nat),
    {
        proof {
            reveal_strlit("buffer-");
        }
        let mut s = String::from_str("buffer-");
        crate::strutil::append_u64(&mut s, self.next_id);
        if self.next_id < u64::MAX {
            self.next_id = self.next_id + 1;
        }
        s
    }

    /// The id counter.
    pub closed spec fn spec_next_id(self) -> u64 {
        self.next_id
    }

    /// The index of the buffer with this id, if any.
    pub fn find_buffer(&self, id: &str) -> (r: Option<usize>)
        ensures
            match (r, spec_find_buffer(self.spec_buffers(), id@)) {
                (Some(i), Some(j)) => i as int == j && j < self.spec_buffers().len(),
                (None, None) => true,
                _ => false,
            },
    {
        let n = self.buffers.len();
        let mut i: usize = n;
        proof {
            assert(self.buffers@.take(n as int) =~= self.buffers@);
        }
        while i > 0
            invariant
                i <= n == self.spec_buffers().len(),
                spec_find_buffer(self.buffers@, id@) == spec_find_buffer(
                    self.buffers@.take(i as int),
                    id@,
                ),
        decreases i,
        {
            proof {
                assert(self.buffers@.take(i as int).last() == self.buffers@[i - 1]);
                assert(self.buffers@.take(i as int).drop_last() =~= self.buffers@.take(i - 1));
            }
            if str_eq(self.buffers[i - 1].id.as_str(), id) {
                return Some(i - 1);
            }
            i = i - 1;
        }
        proof {
            assert(self.buffers@.take(0) =~= Seq::<StoredBuffer>::empty());
        }
        None
    }

    /// The type of the buffer with this id, if any.
    pub fn get_buffer_type(&self, id: &str) -> (r: Option<BufferType>)
        ensures
            match (r, spec_find_buffer(self.spec_buffers(), id@)) {
                (Some(t), Some(j)) => t == self.spec_buffers()[j].buffer_type,
                (None, None) => true,
                _ => false,
            },
    {
        match self.find_buffer(id) {
            Some(i) => Some(self.buffers[i].buffer_type),
            None => None,
        }
    }

    /// Appends frames to the buffer with this id, unless it is missing,
    /// finalized, or not a frame buffer.
    pub fn append_frames_to_buffer(&mut self, id: &str, frames: Vec<Frame>) -> (r: bool)
        requires
            old(self).wf(),
        ensures
            final(self).wf(),
            final(self).spec_active_frames() == old(self).spec_active_frames(),
            final(self).spec_active_bytes() == old(self).spec_active_bytes(),
            match spec_find_buffer(old(self).spec_buffers(), id@) {
                Some(j) => {
                    let b = old(self).spec_buffers()[j];
                    if b.buffer_type == BufferType::Frames && !b.finalized {
                        &&& r
                        &&& final(self).spec_buffers() == old(self).spec_buffers().update(
                            j,
                            StoredBuffer { frames: final(self).spec_buffers()[j].frames, ..b },
                        )
                        &&& final(self).spec_buffers()[j].frames@ == b.frames@ + frames@
                    } else {
                        !r && final(self).spec_buffers() == old(self).spec_buffers()
                    }
                },
                None => !r && final(self).spec_buffers() == old(self).spec_buffers(),
            },
    {
        let idx = match self.find_buffer(id) {
            Some(i) => i,
            None => {
                proof {
                    assert(self.buffers@ =~= old(self).spec_buffers());
                }
                return false;
            },
        };
        self.append_frames_at(idx, frames)
    }

    /// Appends frames to the buffer at a known index, unless it is
    /// finalized or not a frame buffer.
    fn append_frames_at(&mut self, idx: usize, frames: Vec<Frame>) -> (r: bool)
        requires
            old(self).wf(),
            idx < old(self).spec_buffers().len(),
        ensures
            final(self).wf(),
            final(self).spec_active_frames() == old(self).spec_active_frames(),
            final(self).spec_active_bytes() == old(self).spec_active_bytes(),
            ({
                let b = old(self).spec_buffers()[idx as int];
                if b.buffer_type == BufferType::Frames && !b.finalized {
                    &&& r
                    &&& final(self).spec_buffers() == old(self).spec_buffers().update(
                        idx as int,
                        StoredBuffer {
                            frames: final(self).spec_buffers()[idx as int].frames,
                            ..b
                        },
                    )
                    &&& final(self).spec_buffers()[idx as int].frames@ == b.frames@ + frames@
                } else {
                    !r && final(self).spec_buffers() == old(self).spec_buffers()
                }
            }),
    {
        let keep: bool = match self.buffers[idx].buffer_type {
            BufferType::Frames => !self.buffers[idx].finalized,
            BufferType::Bytes => false,
        };
        if !keep {
            proof {
                assert(self.buffers@ =~= old(self).spec_buffers());
            }
            return false;
        }
        let mut frames = frames;
        let buffer = &mut self.buffers[idx];
        buffer.frames.append(&mut frames);
        true
    }

    /// Appends frames to the active frame buffer; without one this is a
    /// no-op.
    pub fn append_frames(&mut self, frames: Vec<Frame>) -> (r: bool)
        requires
            old(self).wf(),
        ensures
            final(self).wf(),
            final(self).spec_active_frames() == old(self).spec_active_frames(),
            final(self).spec_active_bytes() == old(self).spec_active_bytes(),
            match old(self).spec_active_frames() {
                Some(j) => {
                    let b = old(self).spec_buffers()[j as int];
                    if b.buffer_type == BufferType::Frames && !b.finalized {
                        &&& r
                        &&& final(self).spec_buffers() == old(self).spec_buffers().update(
                            j as int,
                            StoredBuffer {
                                frames: final(self).spec_buffers()[j as int].frames,
                                ..b
                            },
                        )
                        &&& final(self).spec_buffers()[j as int].frames@ == b.frames@ + frames@
                    } else {
                        !r && final(self).spec_buffers() == old(self).spec_buffers()
                    }
                },
                None => !r && final(self).spec_buffers() == old(self).spec_buffers(),
            },
    {
        let idx = match self.active_frames {
            Some(i) => i,
            None => {
                proof {
                    assert(self.buffers@ =~= old(self).spec_buffers());
                }
                return false;
            },
        };
        self.append_frames_at(idx, frames)
    }

    /// Appends timestamped bytes to the buffer with this id, unless it is
    /// missing, finalized, or not a byte buffer.
    pub fn append_raw_bytes_to_buffer(&mut self, id: &str, bytes: Vec<TimestampedByte>) -> (r:
        bool)
        requires
            old(self).wf(),
        ensures
            final(self).wf(),
            final(self).spec_active_frames() == old(self).spec_active_frames(),
            final(self).spec_active_bytes() == old(self).spec_active_bytes(),
            match spec_find_buffer(old(self).spec_buffers(), id@) {
                Some(j) => {
                    let b = old(self).spec_buffers()[j];
                    if b.buffer_type == BufferType::Bytes && !b.finalized {
                        &&& r
                        &&& final(self).spec_buffers() == old(self).spec_buffers().update(
                            j,
                            StoredBuffer { bytes: final(self).spec_buffers()[j].bytes, ..b },
                        )
                        &&& final(self).spec_buffers()[j].bytes@ == b.bytes@ + bytes@
                    } else {
                        !r && final(self).spec_buffers() == old(self).spec_buffers()
                    }
                },
                None => !r && final(self).spec_buffers() == old(self).spec_buffers(),
            },
    {
        let idx = match self.find_buffer(id) {
            Some(i) => i,
            None => {
                proof {
                    assert(self.buffers@ =~= old(self).spec_buffers());
                }
                return false;
            },
        };
        let keep: bool = match self.buffers[idx].buffer_type {
            BufferType::Bytes => !self.buffers[idx].finalized,
            BufferType::Frames => false,
        };
        if !keep {
            proof {
                assert(self.buffers@ =~= old(self).spec_buffers());
            }
            return false;
        }
        let mut bytes = bytes;
        let buffer = &mut self.buffers[idx];
        buffer.bytes.append(&mut bytes);
        true
    }

    /// The frames of the buffer with this id, if it is a frame buffer.
    pub fn get_frames(&self, id: &str) -> (r: Option<&Vec<Frame>>)
        ensures
            match (r, spec_find_buffer(self.spec_buffers(), id@)) {
                (Some(v), Some(j)) => self.spec_buffers()[j].buffer_type == BufferType::Frames
                    && v@ == self.spec_buffers()[j].frames@,
                (None, _) => true,
                _ => false,
            },
            r is Some ==> spec_find_buffer(self.spec_buffers(), id@) is Some,
    {
        match self.find_buffer(id) {
            Some(i) => match self.buffers[i].buffer_type {
                BufferType::Frames => Some(&self.buffers[i].frames),
                BufferType::Bytes => None,
            },
            None => None,
        }
    }

    /// The bytes of the buffer with this id, if it is a byte buffer.
    pub fn get_buffer_bytes(&self, id: &str) -> (r: Option<&Vec<TimestampedByte>>)
        ensures
            match (r, spec_find_buffer(self.spec_buffers(), id@)) {
                (Some(v), Some(j)) => self.spec_buffers()[j].buffer_type == BufferType::Bytes
                    && v@ == self.spec_buffers()[j].bytes@,
                (None, _) => true,
                _ => false,
            },
    {
        match self.find_buffer(id) {
            Some(i) => match self.buffers[i].buffer_type {
                BufferType::Bytes => Some(&self.buffers[i].bytes),
                BufferType::Frames => None,
            },
            None => None,
        }
    }

    /// Whether the active frame buffer holds any frames.
    pub fn has_data(&self) -> (r: bool)
        requires
            self.wf(),
        ensures
            r == match self.spec_active_frames() {
                Some(j) => self.spec_buffers()[j as int].frames@.len() > 0,
                None => false,
            },
    {
        match self.active_frames {
            Some(i) => self.buffers[i].frames.len() > 0,
            None => false,
        }
    }

    /// Atomically replaces the contents of a frame buffer, for reuse
    /// during live framing.
    pub fn clear_and_refill_buffer(&mut self, id: &str, frames: Vec<Frame>) -> (r: bool)
        requires
            old(self).wf(),
        ensures
            final(self).wf(),
            final(self).spec_active_frames() == old(self).spec_active_frames(),
            final(self).spec_active_bytes() == old(self).spec_active_bytes(),
            match spec_find_buffer(old(self).spec_buffers(), id@) {
                Some(j) => {
                    let b = old(self).spec_buffers()[j];
                    if b.buffer_type == BufferType::Frames && !b.finalized {
                        &&& r
                        &&& final(self).spec_buffers() == old(self).spec_buffers().update(
                            j,
                            StoredBuffer { frames: final(self).spec_buffers()[j].frames, ..b },
                        )
                        &&& final(self).spec_buffers()[j].frames@ == frames@
                    } else {
                        !r && final(self).spec_buffers() == old(self).spec_buffers()
                    }
                },
                None => !r && final(self).spec_buffers() == old(self).spec_buffers(),
            },
    {
        let idx = match self.find_buffer(id) {
            Some(i) => i,
            None => {
                proof {
                    assert(self.buffers@ =~= old(self).spec_buffers());
                }
                return false;
            },
        };
        let keep: bool = match self.buffers[idx].buffer_type {
            BufferType::Frames => !self.buffers[idx].finalized,
            BufferType::Bytes => false,
        };
        if !keep {
            proof {
                assert(self.buffers@ =~= old(self).spec_buffers());
            }
            return false;
        }
        let ghost fr = frames@;
        let mut frames = frames;
        let buffer = &mut self.buffers[idx];
        buffer.frames.clear();
        buffer.frames.append(&mut frames);
        proof {
            assert(self.buffers@[idx as int].frames@ =~= fr);
        }
        true
    }

    /// Seals the active frame buffer (or, failing that, the active byte
    /// buffer) and computes its metadata: the record count and the least
    /// and greatest record timestamps.  The slot used stops being active.
    pub fn finalize_buffer(&mut self) -> (r: Option<BufferMetadata>)
        requires
            old(self).wf(),
        ensures
            final(self).wf(),
            r is Some <==> (old(self).spec_active_frames() is Some || old(
                self,
            ).spec_active_bytes() is Some),
            final(self).spec_buffers().len() == old(self).spec_buffers().len(),
            // Finalizing clears the active slot it drew from.
            old(self).spec_active_frames() is Some ==> final(self).spec_active_frames() is None
                && final(self).spec_active_bytes() == old(self).spec_active_bytes(),
            (old(self).spec_active_frames() is None && old(self).spec_active_bytes() is Some)
                ==> final(self).spec_active_bytes() is None,
            match r {
                Some(m) => {
                    let j = if old(self).spec_active_frames() is Some {
                        old(self).spec_active_frames()->Some_0 as int
                    } else {
                        old(self).spec_active_bytes()->Some_0 as int
                    };
                    let b = old(self).spec_buffers()[j];
                    let tss = if b.buffer_type == BufferType::Frames {
                        frame_ts(b.frames@)
                    } else {
                        byte_ts(b.bytes@)
                    };
                    &&& final(self).spec_buffers() == old(self).spec_buffers().update(
                        j,
                        StoredBuffer { finalized: true, ..b },
                    )
                    &&& m.id@ == b.id@
                    &&& m.name@ == b.name@
                    &&& m.buffer_type == b.buffer_type
                    &&& m.count as int == tss.len()
                    &&& m.start_time_us == (if tss.len() == 0 {
                        None::<u64>
                    } else {
                        Some(ts_min(tss, tss.len() as int))
                    })
                    &&& m.end_time_us == (if tss.len() == 0 {
                        None::<u64>
                    } else {
                        Some(ts_max(tss, tss.len() as int))
                    })
                },
                None => final(self).spec_buffers() == old(self).spec_buffers(),
            },
    {
        let idx = match self.active_frames {
            Some(i) => {
                self.active_frames = None;
                i
            },
            None => match self.active_bytes {
                Some(i) => {
                    self.active_bytes = None;
                    i
                },
                None => {
                    proof {
                        assert(self.buffers@ =~= old(self).spec_buffers());
                    }
                    return None;
                },
            },
        };
        let buffer = &mut self.buffers[idx];
        buffer.finalized = true;
        let count: usize;
        let mut start: Option<u64> = None;
        let mut end: Option<u64> = None;
        match buffer.buffer_type {
            BufferType::Frames => {
                count = buffer.frames.len();
                let mut k: usize = 0;
                while k < buffer.frames.len()
                    invariant
                        k <= buffer.frames@.len(),
                        start == (if k == 0 {
                            None::<u64>
                        } else {
                            Some(ts_min(frame_ts(buffer.frames@), k as int))
                        }),
                        end == (if k == 0 {
                            None::<u64>
                        } else {
                            Some(ts_max(frame_ts(buffer.frames@), k as int))
                        }),
                    decreases buffer.frames@.len() - k,
                {
                    let ts = buffer.frames[k].timestamp_us;
                    start = match start {
                        Some(s) => if ts < s {
                            Some(ts)
                        } else {
                            Some(s)
                        },
                        None => Some(ts),
                    };
                    end = match end {
                        Some(e) => if ts > e {
                            Some(ts)
                        } else {
                            Some(e)
                        },
                        None => Some(ts),
                    };
                    k = k + 1;
                }
            },
            BufferType::Bytes => {
                count = buffer.bytes.len();
                let mut k: usize = 0;
                while k < buffer.bytes.len()
                    invariant
                        k <= buffer.bytes@.len(),
                        start == (if k == 0 {
                            None::<u64>
                        } else {
                            Some(ts_min(byte_ts(buffer.bytes@), k as int))
                        }),
                        end == (if k == 0 {
                            None::<u64>
                        } else {
                            Some(ts_max(byte_ts(buffer.bytes@), k as int))
                        }),
                    decreases buffer.bytes@.len() - k,
                {
                    let ts = buffer.bytes[k].timestamp_us;
                    start = match start {
                        Some(s) => if ts < s {
                            Some(ts)
                        } else {
                            Some(s)
                        },
                        None => Some(ts),
                    };
                    end = match end {
                        Some(e) => if ts > e {
                            Some(ts)
                        } else {
                            Some(e)
                        },
                        None => Some(ts),
                    };
                    k = k + 1;
                }
            },
        }
        let id = duplicate_string(&buffer.id);
        let name = duplicate_string(&buffer.name);
        Some(
            BufferMetadata {
                id,
                name,
                buffer_type: buffer.buffer_type,
                count,
                start_time_us: start,
                end_time_us: end,
            },
        )
    }
}

/// A character-for-character copy of a string.
pub fn duplicate_string(s: &String) -> (r: String)
    ensures
        r@ == s@,
{
    s.as_str().to_owned()
}

} // verus!
