//! Timeline replay of a captured frame buffer: pacing, pause, seek with
//! snapshot-at-seek, and batch planning.
//!
//! The replay loop is split from its I/O: [`replay_step`] is a pure
//! decision step from the replay state, the buffer and the wall clock to
//! one action (sleep, emit a frame range, reposition, finish), and the
//! surrounding runtime performs the action and steps again.  Pausing
//! leaves the playback position untouched and an emitting step emits
//! exactly the frames between the position before and after it, which is
//! what makes pause/resume lossless and duplication-free.

use vstd::prelude::*;

use crate::frame::Frame;
use crate::timeline::TimelineControl;

verus! {

/// How far back a seek snapshot looks, in microseconds.
pub const SNAPSHOT_LOOKBACK_US: u64 = 120_000_000;

/// Frames batched per emission while pacing.
pub const PACED_BATCH: usize = 50;

/// Frames batched per emission when pacing is off.
pub const UNPACED_BATCH: usize = 1000;

/// The first index of the snapshot window ending at `i`: scanning down
/// from `i`, the walk stops at the first frame older than the lookback
/// before `target`.
pub open spec fn spec_window_lo(frames: Seq<Frame>, target: u64, i: int) -> int
    decreases i + 1,
{
    if i < 0 {
        0
    } else if target > frames[i].timestamp_us + SNAPSHOT_LOOKBACK_US {
        i + 1
    } else {
        spec_window_lo(frames, target, i - 1)
    }
}

/// The window start lies between 0 and `i + 1`.
pub proof fn lemma_window_lo_bounds(frames: Seq<Frame>, target: u64, i: int)
    requires
        i >= -1,
    ensures
        0 <= spec_window_lo(frames, target, i) <= i + 1,
    decreases i + 1,
{
    if i >= 0 && !(target > frames[i].timestamp_us + SNAPSHOT_LOOKBACK_US) {
        lemma_window_lo_bounds(frames, target, i - 1);
    }
}

/// Whether some frame in `[lo, hi]` carries this identifier.
pub open spec fn id_in_range(frames: Seq<Frame>, lo: int, hi: int, id: u32) -> bool {
    exists|i: int| lo <= i <= hi && (#[trigger] frames[i]).frame_id == id
}

/// Whether the snapshot under construction holds this identifier.
pub open spec fn id_in_snapshot(out: Seq<Frame>, id: u32) -> bool {
    exists|k: int| 0 <= k < out.len() && (#[trigger] out[k]).frame_id == id
}

/// Strict ordering of a snapshot by frame identifier.
pub open spec fn snapshot_sorted(out: Seq<Frame>) -> bool {
    forall|a: int, b: int| 0 <= a < b < out.len() ==> out[a].frame_id < out[b].frame_id
}

/// No frame after position `p` (up to `hi`) carries this identifier.
pub open spec fn no_same_id_after(frames: Seq<Frame>, p: int, hi: int, id: u32) -> bool {
    forall|j: int| p < j <= hi ==> (#[trigger] frames[j]).frame_id != id
}

/// Every snapshot entry is the most recent frame of the window `[lo, hi]`
/// with its identifier: it agrees with a window frame that no later window
/// frame shares an identifier with.
pub open spec fn snapshot_latest_of_window(
    out: Seq<Frame>,
    frames: Seq<Frame>,
    lo: int,
    hi: int,
) -> bool {
    forall|k: int|
        0 <= k < out.len() ==> exists|p: int|
            lo <= p <= hi && (#[trigger] out[k]).same(frames[p]) && frames[p].frame_id
                == out[k].frame_id && no_same_id_after(frames, p, hi, out[k].frame_id)
}

/// Inserts a frame with a fresh identifier at the position that keeps the
/// snapshot strictly ordered.
fn insert_sorted_unique(out: &mut Vec<Frame>, f: Frame)
    requires
        snapshot_sorted(old(out)@),
        !id_in_snapshot(old(out)@, f.frame_id),
    ensures
        snapshot_sorted(final(out)@),
        final(out)@.len() == old(out)@.len() + 1,
        forall|k: int|
            0 <= k < final(out)@.len() ==> (exists|q: int|
                0 <= q < old(out)@.len() && #[trigger] final(out)@[k] == old(out)@[q])
                || final(out)@[k].same(f),
        forall|id: u32|
            #[trigger] id_in_snapshot(final(out)@, id) <==> (id_in_snapshot(old(out)@, id) || id
                == f.frame_id),
{
    let id = f.frame_id;
    let mut pos: usize = 0;
    while pos < out.len() && out[pos].frame_id < id
        invariant
            pos <= out@.len(),
            forall|q: int| 0 <= q < pos ==> (#[trigger] out@[q]).frame_id < id,
        decreases out@.len() - pos,
    {
        pos = pos + 1;
    }
    let ghost pre = out@;
    proof {
        assert(f.same(f));
    }
    out.insert(pos, f);
    proof {
        assert(forall|q: int| 0 <= q < pos ==> out@[q] == pre[q]);
        assert(forall|q: int| pos < q < out@.len() ==> out@[q] == pre[q - 1]);
        assert(out@[pos as int] == f);
        assert forall|a: int, b: int| 0 <= a < b < out@.len() implies out@[a].frame_id
            < out@[b].frame_id by {
            if a == pos {
                assert(pre[b - 1].frame_id != id);
                assert(pos < pre.len() ==> pre[pos as int].frame_id >= id);
            } else if b == pos {
            } else {
            }
        }
        assert forall|id2: u32| #[trigger]
            id_in_snapshot(out@, id2) implies (id_in_snapshot(pre, id2) || id2 == id) by {
            let k = choose|k: int| 0 <= k < out@.len() && (#[trigger] out@[k]).frame_id == id2;
            if k != pos {
                let q: int = if k < pos {
                    k
                } else {
                    k - 1
                };
                assert(pre[q].frame_id == id2);
            }
        }
        assert forall|id2: u32| (id_in_snapshot(pre, id2) || id2 == id) implies #[trigger]
            id_in_snapshot(out@, id2) by {
            if id2 == id {
                assert(out@[pos as int].frame_id == id);
            } else {
                let q = choose|q: int| 0 <= q < pre.len() && (#[trigger] pre[q]).frame_id == id2;
                if q < pos {
                    assert(out@[q].frame_id == id2);
                } else {
                    assert(out@[q + 1].frame_id == id2);
                }
            }
        }
    }
}

/// Builds the seek snapshot for playback position `up_to_index`: one frame
/// per identifier seen in the lookback window ending there (the walk keeps
/// the most recent occurrence), ordered by identifier.
pub fn build_snapshot(frames: &Vec<Frame>, up_to_index: usize) -> (r: Vec<Frame>)
    ensures
        up_to_index >= frames@.len() ==> r@.len() == 0,
        up_to_index < frames@.len() ==> ({
            let t = up_to_index as int;
            let target = frames@[t].timestamp_us;
            let lo = spec_window_lo(frames@, target, t);
            &&& snapshot_sorted(r@)
            &&& snapshot_latest_of_window(r@, frames@, lo, t)
            &&& (forall|id: u32|
                #![trigger id_in_range(frames@, lo, t, id)]
                id_in_range(frames@, lo, t, id) <==> id_in_snapshot(r@, id))
        }),
{
    let mut out: Vec<Frame> = Vec::new();
    if up_to_index >= frames.len() {
        return out;
    }
    let t = up_to_index;
    let target = frames[t].timestamp_us;
    let ghost lo = spec_window_lo(frames@, target, t as int);
    proof {
        lemma_window_lo_bounds(frames@, target, t as int);
    }
    let mut i: usize = t + 1;
    while i > 0
        invariant
            t < frames@.len(),
            target == frames@[t as int].timestamp_us,
            lo == spec_window_lo(frames@, target, t as int),
            i <= t + 1,
            lo == spec_window_lo(frames@, target, i - 1),
            lo <= i,
            snapshot_sorted(out@),
            snapshot_latest_of_window(out@, frames@, i as int, t as int),
            forall|id: u32|
                #![trigger id_in_range(frames@, i as int, t as int, id)]
                id_in_range(frames@, i as int, t as int, id) <==> id_in_snapshot(out@, id),
        ensures
            lo == i as int,
            snapshot_sorted(out@),
            snapshot_latest_of_window(out@, frames@, i as int, t as int),
            forall|id: u32|
                #![trigger id_in_range(frames@, i as int, t as int, id)]
                id_in_range(frames@, i as int, t as int, id) <==> id_in_snapshot(out@, id),
        decreases i,
    {
        let idx = i - 1;
        if target > frames[idx].timestamp_us && target - frames[idx].timestamp_us
            > SNAPSHOT_LOOKBACK_US {
            proof {
                assert(spec_window_lo(frames@, target, idx as int) == idx + 1);
            }
            break;
        }
        proof {
            assert(spec_window_lo(frames@, target, idx as int) == spec_window_lo(
                frames@,
                target,
                idx as int - 1,
            ));
            lemma_window_lo_bounds(frames@, target, idx as int - 1);
        }
        let id = frames[idx].frame_id;
        // Is this identifier already represented (by a more recent frame)?
        let mut present = false;
        let mut k: usize = 0;
        while k < out.len()
            invariant
                k <= out@.len(),
                present == exists|q: int| 0 <= q < k && (#[trigger] out@[q]).frame_id == id,
            decreases out@.len() - k,
        {
            if out[k].frame_id == id {
                present = true;
            }
            k = k + 1;
        }
        let ghost pre = out@;
        if !present {
            insert_sorted_unique(&mut out, frames[idx].duplicate());
        }
        proof {
            assert forall|k2: int| 0 <= k2 < out@.len() implies exists|p: int|
                idx <= p <= t && (#[trigger] out@[k2]).same(frames@[p]) && frames@[p].frame_id
                    == out@[k2].frame_id && no_same_id_after(
                    frames@,
                    p,
                    t as int,
                    out@[k2].frame_id,
                ) by {
                if exists|q: int| 0 <= q < pre.len() && #[trigger] out@[k2] == pre[q] {
                    let q = choose|q: int| 0 <= q < pre.len() && #[trigger] out@[k2] == pre[q];
                    let p = choose|p: int|
                        i <= p <= t && (#[trigger] pre[q]).same(frames@[p]) && frames@[p].frame_id
                            == pre[q].frame_id && no_same_id_after(
                            frames@,
                            p,
                            t as int,
                            pre[q].frame_id,
                        );
                    assert(idx <= p <= t && out@[k2].same(frames@[p]));
                } else {
                    assert(!present);
                    assert(out@[k2].same(frames@[idx as int]));
                    assert(out@[k2].frame_id == id);
                    assert(no_same_id_after(frames@, idx as int, t as int, id)) by {
                        assert forall|j: int| idx < j <= t implies (
                        #[trigger] frames@[j]).frame_id != id by {
                            if frames@[j].frame_id == id {
                                assert(id_in_range(frames@, i as int, t as int, id));
                            }
                        }
                    }
                }
            }
            assert forall|id2: u32| #![trigger id_in_range(frames@, idx as int, t as int, id2)]
                id_in_range(frames@, idx as int, t as int, id2) <==> id_in_snapshot(
                out@,
                id2,
            ) by {
                if id_in_range(frames@, idx as int, t as int, id2) {
                    let w = choose|w: int|
                        idx <= w <= t && (#[trigger] frames@[w]).frame_id == id2;
                    if w == idx {
                        assert(id2 == id);
                        if present {
                            assert(id_in_snapshot(pre, id));
                        }
                    } else {
                        assert(id_in_range(frames@, i as int, t as int, id2));
                    }
                }
                if id_in_snapshot(out@, id2) {
                    if present {
                        assert(id_in_snapshot(pre, id2));
                        assert(id_in_range(frames@, i as int, t as int, id2));
                        let w = choose|w: int|
                            i <= w <= t && (#[trigger] frames@[w]).frame_id == id2;
                        assert(idx <= w <= t);
                    } else {
                        if id2 == id {
                            assert(frames@[idx as int].frame_id == id2);
                        } else {
                            assert(id_in_snapshot(pre, id2));
                            assert(id_in_range(frames@, i as int, t as int, id2));
                            let w = choose|w: int|
                                i <= w <= t && (#[trigger] frames@[w]).frame_id == id2;
                            assert(idx <= w <= t);
                        }
                    }
                }
            }
        }
        i = idx;
    }
    out
}

/// One decision of the replay loop.
pub enum ReplayAction {
    /// The user cancelled; end the stream with reason `stopped`.
    Stopped,
    /// The buffer is exhausted; end the stream with reason `complete`.
    Complete,
    /// Playback is paused: sleep this many milliseconds and step again.
    PausedSleep(u64),
    /// A seek was applied: playback continues at `index`; when paused,
    /// emit the snapshot batch for the new position.
    Seeked {
        /// The new playback position.
        index: usize,
        /// Whether a paused seek asks for a snapshot emission.
        emit_snapshot: bool,
    },
    /// Pacing: sleep this many milliseconds and step again.
    Wait(u64),
    /// Emit frames `[start, end)` as one batch, report the playback time,
    /// and yield this many milliseconds.
    Emit {
        /// First frame of the batch.
        start: usize,
        /// One past the last frame of the batch.
        end: usize,
        /// Playback position to report, in microseconds.
        playback_time_us: u64,
        /// How long to yield after the batch.
        yield_ms: u64,
    },
}

/// The index playback moves to for a seek target: the first frame at or
/// after the target time, or the last frame when every frame is earlier.
pub open spec fn spec_seek_index(frames: Seq<Frame>, target: u64, i: int) -> int
    decreases frames.len() - i,
{
    if i < 0 || i >= frames.len() {
        if frames.len() == 0 {
            0
        } else {
            frames.len() - 1
        }
    } else if frames[i].timestamp_us >= target {
        i
    } else {
        spec_seek_index(frames, target, i + 1)
    }
}

/// Replay state: the shared control flags, the playback position, a
/// pending seek, and the pacing baselines.
pub struct ReplayState {
    /// Cancel/pause/speed control, shared with the session.
    pub control: TimelineControl,
    /// Next frame to play.
    pub frame_index: usize,
    /// Pending seek target, if any.
    pub seek_target_us: Option<u64>,
    /// Set once the stream completed naturally.
    pub completed: bool,
    /// Playback time the pacing clock was last re-based to.
    pub playback_baseline_us: u64,
    /// Wall time the pacing clock was last re-based at.
    pub wall_baseline_ms: u64,
    /// Playback time of the last emitted frame.
    pub last_frame_time_us: Option<u64>,
    /// Speed at the last re-base, to detect speed changes.
    pub last_speed_milli: i64,
    /// An inter-frame wait was already served for the current frame.
    pub waited: bool,
}

impl ReplayState {
    /// A positive speed is stored whenever pacing is on.
    pub open spec fn wf(self) -> bool {
        &&& (self.control.pacing_enabled ==> self.control.speed_milli > 0)
        &&& self.last_speed_milli > 0
    }

    /// Fresh replay state at the start of the buffer.
    pub fn new(control: TimelineControl, first_frame_time_us: u64, now_wall_ms: u64) -> (r:
        ReplayState)
        requires
            control.pacing_enabled ==> control.speed_milli > 0,
        ensures
            r.wf(),
            r.control == control,
            r.frame_index == 0,
            r.seek_target_us is None,
            !r.completed,
    {
        ReplayState {
            control,
            frame_index: 0,
            seek_target_us: None,
            completed: false,
            playback_baseline_us: first_frame_time_us,
            wall_baseline_ms: now_wall_ms,
            last_frame_time_us: None,
            last_speed_milli: if control.pacing_enabled {
                control.speed_milli
            } else {
                1000
            },
            waited: false,
        }
    }

    /// Requests a seek to this playback time.
    pub fn request_seek(&mut self, target_us: u64)
        ensures
            *final(self) == (ReplayState { seek_target_us: Some(target_us), ..*old(self) }),
    {
        self.seek_target_us = Some(target_us);
    }
}

/// Finds the seek position for a target time.
fn seek_index(frames: &Vec<Frame>, target: u64) -> (r: usize)
    requires
        frames@.len() > 0,
    ensures
        r as int == spec_seek_index(frames@, target, 0),
        r < frames@.len(),
{
    let n = frames.len();
    let mut i: usize = 0;
    while i < n
        invariant
            i <= n == frames@.len(),
            n > 0,
            spec_seek_index(frames@, target, 0) == spec_seek_index(frames@, target, i as int),
            forall|j: int| 0 <= j < i ==> (#[trigger] frames@[j]).timestamp_us < target,
        decreases n - i,
    {
        if frames[i].timestamp_us >= target {
            return i;
        }
        i = i + 1;
    }
    n - 1
}

/// Whether a step re-bases the pacing clock: pacing is on, the speed
/// changed since the last re-base, and a frame has been emitted to
/// re-base from.
pub open spec fn spec_rebases(st: ReplayState) -> bool {
    &&& st.control.pacing_enabled
    &&& st.control.speed_milli != st.last_speed_milli
    &&& st.last_frame_time_us is Some
}

/// The playback baseline a step paces against, after any speed-change
/// re-base.
pub open spec fn spec_paced_playback_base(st: ReplayState) -> u64 {
    if spec_rebases(st) {
        match st.last_frame_time_us {
            Some(last) => last,
            None => st.playback_baseline_us,
        }
    } else {
        st.playback_baseline_us
    }
}

/// The wall-clock baseline a step paces against, after any speed-change
/// re-base.
pub open spec fn spec_paced_wall_base(st: ReplayState, now_wall_ms: u64) -> u64 {
    if spec_rebases(st) {
        now_wall_ms
    } else {
        st.wall_baseline_ms
    }
}

/// The proactive pacing wait of a step, in milliseconds: when playback has
/// run ahead of the wall clock by more than 100 ms, the difference, capped
/// at 500 ms; otherwise zero.
pub open spec fn spec_proactive_wait(st: ReplayState, now_wall_ms: u64) -> int
    recommends
        st.wf(),
{
    if !st.control.pacing_enabled {
        0
    } else {
        match st.last_frame_time_us {
            None => 0,
            Some(last) => {
                let pb = spec_paced_playback_base(st);
                let wb = spec_paced_wall_base(st, now_wall_ms);
                let played: int = if last > pb {
                    last - pb
                } else {
                    0
                };
                let expected: int = played / (st.control.speed_milli as int);
                let actual: int = if now_wall_ms > wb {
                    now_wall_ms - wb
                } else {
                    0
                };
                if expected > actual && expected - actual > 100 {
                    if expected - actual > 500 {
                        500
                    } else {
                        expected - actual
                    }
                } else {
                    0
                }
            },
        }
    }
}

/// The inter-frame pacing wait before the frame at `frame_ts`, in
/// milliseconds: the playback delta to the last emitted frame divided by
/// the speed, capped at 10 s; zero when it falls under a millisecond.
pub open spec fn spec_interframe_wait(st: ReplayState, frame_ts: u64) -> int
    recommends
        st.wf(),
{
    if !st.control.pacing_enabled {
        0
    } else {
        match st.last_frame_time_us {
            None => 0,
            Some(last) => {
                let delta: int = if frame_ts > last {
                    frame_ts - last
                } else {
                    0
                };
                let d: int = delta / (st.control.speed_milli as int);
                if d >= 1 {
                    if d > 10_000 {
                        10_000
                    } else {
                        d
                    }
                } else {
                    0
                }
            },
        }
    }
}

/// Whether a step, with nothing else demanding attention, proceeds to the
/// pacing-and-emission stage: not cancelled, frames left, no pending seek,
/// not paused.
pub open spec fn spec_step_active(st: ReplayState, frames_len: int) -> bool {
    &&& !st.control.cancel_flag
    &&& st.frame_index < frames_len
    &&& st.seek_target_us is None
    &&& !st.control.pause_flag
}

/// One decision of the replay loop.  Cancellation wins; then a exhausted
/// buffer completes the stream; then a pending seek repositions playback
/// (with a snapshot when paused); then pause holds the position; otherwise
/// the step either waits for pacing or emits the next batch, which is
/// exactly `frames[old position .. new position]`.
pub fn replay_step(st: &mut ReplayState, frames: &Vec<Frame>, now_wall_ms: u64) -> (r:
    ReplayAction)
    requires
        old(st).wf(),
        old(st).frame_index <= frames@.len(),
        frames@.len() > 0,
    ensures
        final(st).wf(),
        final(st).frame_index <= frames@.len(),
        final(st).control == old(st).control,
        // Which action fires is a function of the step's inputs.
        old(st).control.cancel_flag ==> r is Stopped,
        !old(st).control.cancel_flag && old(st).frame_index == frames@.len() ==> r is Complete,
        (!old(st).control.cancel_flag && old(st).frame_index < frames@.len() && old(
            st,
        ).seek_target_us is Some) ==> r is Seeked,
        (!old(st).control.cancel_flag && old(st).frame_index < frames@.len() && old(
            st,
        ).seek_target_us is None && old(st).control.pause_flag) ==> r is PausedSleep,
        ({
            let active = spec_step_active(*old(st), frames@.len() as int);
            let pro = spec_proactive_wait(*old(st), now_wall_ms);
            let inter = spec_interframe_wait(
                *old(st),
                frames@[old(st).frame_index as int].timestamp_us,
            );
            &&& (active && pro > 0 ==> r == ReplayAction::Wait(pro as u64))
            &&& (active && pro == 0 && !old(st).waited && inter > 0 ==> r
                == ReplayAction::Wait(inter as u64) && final(st).waited)
            &&& (active && pro == 0 && (old(st).waited || inter == 0) ==> r is Emit)
        }),
        match r {
            ReplayAction::Stopped => old(st).control.cancel_flag && *final(st) == *old(st),
            ReplayAction::Complete => {
                &&& !old(st).control.cancel_flag
                &&& old(st).frame_index == frames@.len()
                &&& final(st).frame_index == old(st).frame_index
                &&& final(st).completed
            },
            ReplayAction::Seeked { index, emit_snapshot } => {
                &&& old(st).seek_target_us matches Some(target) && index as int
                    == spec_seek_index(frames@, target, 0)
                &&& final(st).frame_index == index
                &&& final(st).seek_target_us is None
                &&& emit_snapshot == old(st).control.pause_flag
            },
            ReplayAction::PausedSleep(d) => {
                &&& old(st).control.pause_flag
                &&& d == 50
                &&& final(st).frame_index == old(st).frame_index
                &&& final(st).seek_target_us == old(st).seek_target_us
            },
            ReplayAction::Wait(d) => {
                &&& d <= 10_000
                &&& final(st).frame_index == old(st).frame_index
                &&& final(st).seek_target_us is None
            },
            ReplayAction::Emit { start, end, playback_time_us, yield_ms } => {
                &&& spec_step_active(*old(st), frames@.len() as int)
                &&& !old(st).control.pause_flag
                &&& start == old(st).frame_index
                &&& final(st).frame_index == end
                &&& start < end <= frames@.len()
                &&& end - start <= (if old(st).control.pacing_enabled {
                    PACED_BATCH as int
                } else {
                    UNPACED_BATCH as int
                })
                &&& playback_time_us == frames@[end - 1].timestamp_us
                &&& final(st).seek_target_us is None
            },
        },
{
    if st.control.cancel_flag {
        return ReplayAction::Stopped;
    }
    if st.frame_index >= frames.len() {
        st.completed = true;
        return ReplayAction::Complete;
    }
    match st.seek_target_us {
        Some(target) => {
            let idx = seek_index(frames, target);
            st.seek_target_us = None;
            st.frame_index = idx;
            st.playback_baseline_us = frames[idx].timestamp_us;
            st.wall_baseline_ms = now_wall_ms;
            st.last_frame_time_us = None;
            st.waited = false;
            let paused = st.control.pause_flag;
            return ReplayAction::Seeked { index: idx, emit_snapshot: paused };
        },
        None => {},
    }
    if st.control.pause_flag {
        return ReplayAction::PausedSleep(50);
    }
    let pacing = st.control.pacing_enabled;
    let speed = st.control.speed_milli;
    // Re-base the pacing clock after a speed change.
    if pacing && speed != st.last_speed_milli {
        match st.last_frame_time_us {
            Some(last) => {
                st.playback_baseline_us = last;
                st.wall_baseline_ms = now_wall_ms;
            },
            None => {},
        }
        st.last_speed_milli = speed;
    }
    // Proactive pacing: if playback ran ahead of the wall clock by more
    // than 100 ms, sleep the difference (at most 500 ms at a time).
    if pacing {
        match st.last_frame_time_us {
            Some(last) => {
                let played_us: u64 = if last > st.playback_baseline_us {
                    last - st.playback_baseline_us
                } else {
                    0
                };
                let expected_ms: u64 = played_us / (speed as u64);
                let actual_ms: u64 = if now_wall_ms > st.wall_baseline_ms {
                    now_wall_ms - st.wall_baseline_ms
                } else {
                    0
                };
                if expected_ms > actual_ms && expected_ms - actual_ms > 100 {
                    let wait = expected_ms - actual_ms;
                    return ReplayAction::Wait(
                        if wait > 500 {
                            500
                        } else {
                            wait
                        },
                    );
                }
            },
            None => {},
        }
    }
    let start = st.frame_index;
    let frame_ts = frames[start].timestamp_us;
    if pacing && !st.waited {
        // Inter-frame delay against the previous emitted frame.
        let delay_ms: u64 = match st.last_frame_time_us {
            Some(last) => {
                let delta: u64 = if frame_ts > last {
                    frame_ts - last
                } else {
                    0
                };
                delta / (speed as u64)
            },
            None => 0,
        };
        if delay_ms >= 1 {
            st.waited = true;
            return ReplayAction::Wait(
                if delay_ms > 10_000 {
                    10_000
                } else {
                    delay_ms
                },
            );
        }
    }
    // Emit a batch: while pacing, consecutive frames less than 1 ms apart
    // ride along, up to the paced batch size.
    let cap: usize = if pacing {
        PACED_BATCH
    } else {
        UNPACED_BATCH
    };
    let mut end = start + 1;
    while end < frames.len() && end - start < cap && (!pacing || frames[end].timestamp_us
        < 1000 || frames[end].timestamp_us - 1000 < frames[end - 1].timestamp_us)
        invariant
            start < end <= frames@.len(),
            end - start <= cap,
        decreases frames@.len() - end,
    {
        end = end + 1;
    }
    st.frame_index = end;
    st.last_frame_time_us = Some(frames[end - 1].timestamp_us);
    st.waited = false;
    let yield_ms: u64 = if !pacing && end - start >= UNPACED_BATCH {
        10
    } else {
        0
    };
    ReplayAction::Emit { start, end, playback_time_us: frames[end - 1].timestamp_us, yield_ms }
}

} // verus!
