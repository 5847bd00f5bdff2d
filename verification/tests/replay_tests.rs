//! Timeline replay: pause without loss, the seek snapshot, and pacing
//! delays.

use candor_io::frame::{Frame, Protocol};
use candor_io::replay::{build_snapshot, replay_step, ReplayAction, ReplayState};
use candor_io::timeline::TimelineControl;

fn frame_at(frame_id: u32, timestamp_us: u64) -> Frame {
    Frame {
        protocol: Protocol::Can,
        timestamp_us,
        frame_id,
        bus: 0,
        dlc: 1,
        bytes: vec![0x55],
        is_extended: false,
        is_fd: false,
        is_rtr: false,
        source_address: None,
        incomplete: None,
        direction: None,
    }
}

/// Drives the replay to completion, returning the emitted index ranges
/// and the total milliseconds spent waiting for pacing.
fn run_to_end(
    st: &mut ReplayState,
    frames: &Vec<Frame>,
    pause_between: Option<usize>,
) -> (Vec<(usize, usize)>, u64) {
    let mut emitted = Vec::new();
    let mut waited_ms: u64 = 0;
    let mut now_ms: u64 = 0;
    let mut steps = 0;
    loop {
        steps += 1;
        assert!(steps < 10_000, "replay did not terminate");
        match replay_step(st, frames, now_ms) {
            ReplayAction::Stopped => break,
            ReplayAction::Complete => break,
            ReplayAction::PausedSleep(ms) => {
                now_ms += ms;
                // Resume immediately so the run finishes.
                st.control.resume();
            }
            ReplayAction::Seeked { .. } => {}
            ReplayAction::Wait(ms) => {
                waited_ms += ms;
                now_ms += ms;
            }
            ReplayAction::Emit { start, end, .. } => {
                emitted.push((start, end));
                if let Some(pause_at) = pause_between {
                    if end == pause_at {
                        st.control.pause();
                    }
                }
            }
        }
    }
    (emitted, waited_ms)
}

#[test]
fn test_pause_resume_no_loss_no_duplicates() {
    // 120 frames 10 ms apart, unpaced; pause mid-stream after frame 50.
    let frames: Vec<Frame> = (0..120).map(|i| frame_at(i as u32, i * 10_000)).collect();
    let mut st = ReplayState::new(TimelineControl::new(0), frames[0].timestamp_us, 0);
    // Batch boundary: force small batches by pacing off but batch cap 1000
    // covers all; use paced mode for per-frame emission instead.
    let (emitted, _) = run_to_end(&mut st, &frames, Some(50));
    // The emitted ranges are contiguous, start at 0 and end at 120.
    let mut next = 0;
    for (start, end) in &emitted {
        assert_eq!(*start, next);
        assert!(end > start);
        next = *end;
    }
    assert_eq!(next, frames.len());
}

#[test]
fn test_paced_pause_resumes_in_order() {
    // Paced replay at 1.0x with 5 ms gaps; pause after the third frame.
    let frames: Vec<Frame> = (0..6).map(|i| frame_at(i as u32, i * 5_000)).collect();
    let mut st = ReplayState::new(TimelineControl::new(1000), frames[0].timestamp_us, 0);
    let (emitted, _) = run_to_end(&mut st, &frames, Some(3));
    let mut next = 0;
    for (start, end) in &emitted {
        assert_eq!(*start, next);
        next = *end;
    }
    assert_eq!(next, frames.len());
}

#[test]
fn test_pacing_waits_total_half_duration_at_double_speed() {
    // Frames at 0, 100 ms and 200 ms replayed at 2.0x: the planner asks
    // for 100 ms of waiting in total.
    let frames = vec![frame_at(1, 0), frame_at(2, 100_000), frame_at(3, 200_000)];
    let mut st = ReplayState::new(TimelineControl::new(2000), frames[0].timestamp_us, 0);
    let (emitted, waited) = run_to_end(&mut st, &frames, None);
    assert_eq!(waited, 100);
    let mut next = 0;
    for (start, end) in &emitted {
        assert_eq!(*start, next);
        next = *end;
    }
    assert_eq!(next, frames.len());
}

#[test]
fn test_seek_while_paused_requests_snapshot() {
    let frames: Vec<Frame> = (0..10).map(|i| frame_at(i as u32, i * 1_000)).collect();
    let mut st = ReplayState::new(TimelineControl::new(0), frames[0].timestamp_us, 0);
    st.control.pause();
    st.request_seek(5_000);
    match replay_step(&mut st, &frames, 0) {
        ReplayAction::Seeked { index, emit_snapshot } => {
            assert_eq!(index, 5);
            assert!(emit_snapshot);
        }
        _ => panic!("expected a seek"),
    }
    assert_eq!(st.frame_index, 5);
}

#[test]
fn test_snapshot_latest_per_id_sorted() {
    // Ids repeat; the snapshot keeps the most recent of each, ordered.
    let frames = vec![
        frame_at(7, 1_000),
        frame_at(3, 2_000),
        frame_at(7, 3_000),
        frame_at(1, 4_000),
        frame_at(3, 5_000),
    ];
    let snap = build_snapshot(&frames, 4);
    let ids: Vec<u32> = snap.iter().map(|f| f.frame_id).collect();
    assert_eq!(ids, vec![1, 3, 7]);
    // Most recent occurrences: id 3 at 5 ms, id 7 at 3 ms.
    assert_eq!(snap[1].timestamp_us, 5_000);
    assert_eq!(snap[2].timestamp_us, 3_000);
}

#[test]
fn test_snapshot_honours_lookback_window() {
    // The first frame lies beyond the 120 s lookback from the target.
    let frames = vec![
        frame_at(9, 0),
        frame_at(1, 130_000_000),
        frame_at(2, 131_000_000),
    ];
    let snap = build_snapshot(&frames, 2);
    let ids: Vec<u32> = snap.iter().map(|f| f.frame_id).collect();
    assert_eq!(ids, vec![1, 2]);

    let empty = build_snapshot(&frames, 99);
    assert!(empty.is_empty());
}
