//! Shared control state for timeline replay: cancel, pause, pacing and
//! playback speed.
//!
//! Speed is held in thousandths of real time (`1000` is `1.0x`); zero
//! disables pacing altogether.

use vstd::prelude::*;

use crate::error::IoError;
use vstd::string::StringExecFns;

verus! {

/// Speed denominator: `SPEED_UNIT` thousandths is real time.
pub const SPEED_UNIT: i64 = 1000;

/// Control state for timeline playback.
#[derive(Clone, Copy, Debug, PartialEq, Eq, Structural)]
pub struct TimelineControl {
    /// Set to stop the stream.
    pub cancel_flag: bool,
    /// Set to suspend playback.
    pub pause_flag: bool,
    /// Whether pacing is enabled (speed is positive).
    pub pacing_enabled: bool,
    /// Playback speed in thousandths of real time; meaningful while pacing
    /// is enabled.
    pub speed_milli: i64,
}

impl TimelineControl {
    /// A control block for the given initial speed (thousandths; 0 means
    /// unpaced).  A non-positive speed disables pacing and keeps the
    /// stored speed at real time.
    pub fn new(initial_speed_milli: i64) -> (r: TimelineControl)
        ensures
            !r.cancel_flag,
            !r.pause_flag,
            r.pacing_enabled == (initial_speed_milli > 0),
            r.speed_milli == if initial_speed_milli > 0 {
                initial_speed_milli
            } else {
                SPEED_UNIT as i64
            },
    {
        let pacing = initial_speed_milli > 0;
        TimelineControl {
            cancel_flag: false,
            pause_flag: false,
            pacing_enabled: pacing,
            speed_milli: if pacing {
                initial_speed_milli
            } else {
                SPEED_UNIT
            },
        }
    }

    /// Clears the cancel and pause flags for a new stream.
    pub fn reset(&mut self)
        ensures
            !final(self).cancel_flag,
            !final(self).pause_flag,
            final(self).pacing_enabled == old(self).pacing_enabled,
            final(self).speed_milli == old(self).speed_milli,
    {
        self.cancel_flag = false;
        self.pause_flag = false;
    }

    /// Requests cancellation.
    pub fn cancel(&mut self)
        ensures
            *final(self) == (TimelineControl { cancel_flag: true, ..*old(self) }),
    {
        self.cancel_flag = true;
    }

    /// Whether cancellation was requested.
    pub fn is_cancelled(&self) -> (r: bool)
        ensures
            r == self.cancel_flag,
    {
        self.cancel_flag
    }

    /// Suspends playback.
    pub fn pause(&mut self)
        ensures
            *final(self) == (TimelineControl { pause_flag: true, ..*old(self) }),
    {
        self.pause_flag = true;
    }

    /// Resumes playback.
    pub fn resume(&mut self)
        ensures
            *final(self) == (TimelineControl { pause_flag: false, ..*old(self) }),
    {
        self.pause_flag = false;
    }

    /// Whether playback is suspended.
    pub fn is_paused(&self) -> (r: bool)
        ensures
            r == self.pause_flag,
    {
        self.pause_flag
    }

    /// The stored playback speed, in thousandths of real time.
    pub fn read_speed(&self) -> (r: i64)
        ensures
            r == self.speed_milli,
    {
        self.speed_milli
    }

    /// Whether pacing is enabled.
    pub fn is_pacing_enabled(&self) -> (r: bool)
        ensures
            r == self.pacing_enabled,
    {
        self.pacing_enabled
    }

    /// Sets the playback speed (thousandths of real time).  A negative
    /// speed is a configuration error; zero disables pacing without
    /// touching the stored speed; a positive speed enables pacing at that
    /// rate.
    pub fn set_speed(&mut self, speed_milli: i64) -> (r: Result<(), IoError>)
        ensures
            speed_milli < 0 ==> r is Err && *final(self) == *old(self),
            speed_milli == 0 ==> r is Ok && *final(self) == (TimelineControl {
                pacing_enabled: false,
                ..*old(self)
            }),
            speed_milli > 0 ==> r is Ok && *final(self) == (TimelineControl {
                pacing_enabled: true,
                speed_milli,
                ..*old(self)
            }),
            r matches Err(e) ==> e is Configuration,
    {
        if speed_milli < 0 {
            proof {
                reveal_strlit("speed cannot be negative");
            }
            return Err(IoError::configuration("speed cannot be negative"));
        }
        if speed_milli == 0 {
            self.pacing_enabled = false;
        } else {
            self.pacing_enabled = true;
            self.speed_milli = speed_milli;
        }
        Ok(())
    }
}

} // verus!
