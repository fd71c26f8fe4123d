//! The IMU side file of a recording: which IMU sample goes with each video
//! frame, how the recent IMU samples are kept, and when the capture stops.
//! The session that reads frames and sensor events feeds these decisions.
use vstd::prelude::*;
use crate::recording::capture::sample_at_or_before;

verus! {

pub const IMU_SIDE_CAR_HISTORY_WINDOW_MS: i64 = 10000;
pub const IMU_SIDE_CAR_HISTORY_MAX_SAMPLES: usize = 4096;
pub const IMU_SIDE_CAR_STOP_TAIL_IDLE_MS: u64 = 300;
pub const IMU_SIDE_CAR_STOP_TAIL_MAX_MS: u64 = 5000;

/// A frame timestamp at or above this is a wall-clock time in ms.
pub const WALL_CLOCK_TIMESTAMP_MIN: u64 = 1000000000000;

/// `x` held within the range of `i64`.
pub open spec fn sat_i64(x: int) -> int {
    if x < i64::MIN {
        i64::MIN as int
    } else if x > i64::MAX {
        i64::MAX as int
    } else {
        x
    }
}

fn saturating_add_i64(a: i64, b: i64) -> (r: i64)
    ensures
        r == sat_i64(a + b),
{
    let s: i128 = (a as i128) + (b as i128);
    if s > (i64::MAX as i128) {
        i64::MAX
    } else if s < (i64::MIN as i128) {
        i64::MIN
    } else {
        s as i64
    }
}

fn saturating_sub_i64(a: i64, b: i64) -> (r: i64)
    ensures
        r == sat_i64(a - b),
{
    let s: i128 = (a as i128) - (b as i128);
    if s > (i64::MAX as i128) {
        i64::MAX
    } else if s < (i64::MIN as i128) {
        i64::MIN
    } else {
        s as i64
    }
}

/// The time of a frame in the side file: ms since the first frame, capped
/// at `i64::MAX`.
pub open spec fn frame_offset(raw: u64, anchor: u64) -> int {
    let d = if raw >= anchor {
        raw - anchor
    } else {
        0
    };
    if d > i64::MAX {
        i64::MAX as int
    } else {
        d
    }
}

/// The wall-clock time of a frame: the timestamp itself when it is one,
/// else the recording's start plus the frame's offset (never negative).
pub open spec fn frame_wall(raw: u64, t_ms: int, started_at_ms: i64) -> int {
    if raw >= WALL_CLOCK_TIMESTAMP_MIN {
        if raw > i64::MAX {
            i64::MAX as int
        } else {
            raw as int
        }
    } else {
        let s = sat_i64(started_at_ms + t_ms);
        if s < 0 {
            0
        } else {
            s
        }
    }
}

/// Where the side file stands: the first and the last frame timestamp
/// seen, the time of the last sample written and how many were written.
#[derive(Debug, Clone, Copy, PartialEq, Eq, Structural)]
pub struct SidecarCursor {
    pub anchor: Option<u64>,
    pub last_frame_ts: Option<u64>,
    pub last_emitted_t_ms: Option<i64>,
    pub samples: u64,
}

/// What to do with one frame timestamp.
#[derive(Debug, Clone, Copy, PartialEq, Eq, Structural)]
pub enum FrameStep {
    /// Nothing is written for this frame.
    Skip,
    /// Write IMU sample number `sample` of the history at time `t_ms`; when
    /// `stop`, the side file is complete.
    Emit { t_ms: i64, sample: usize, stop: bool },
}

/// The effect of a frame timestamp: frames that do not move forward are
/// ignored; the first frame anchors the time; a frame gets the latest IMU
/// sample taken at or before it, unless none is, or the last sample written
/// is less than `interval_ms` earlier; the side file ends at the duration
/// limit.
pub open spec fn frame_step(
    c: SidecarCursor,
    raw: u64,
    started_at_ms: i64,
    times: Seq<i64>,
    interval_ms: u64,
    limit_ms: Option<i64>,
) -> (SidecarCursor, FrameStep) {
    if c.last_frame_ts matches Some(prev) && raw <= prev {
        (c, FrameStep::Skip)
    } else {
        let anchor = match c.anchor {
            Some(a) => a,
            None => raw,
        };
        let t_ms = frame_offset(raw, anchor);
        let seen = SidecarCursor { anchor: Some(anchor), last_frame_ts: Some(raw), ..c };
        match sample_at_or_before(times, frame_wall(raw, t_ms, started_at_ms) as i64) {
            None => (seen, FrameStep::Skip),
            Some(k) => if c.last_emitted_t_ms matches Some(last) && sat_i64(t_ms - last) < (interval_ms as i64) {
                (seen, FrameStep::Skip)
            } else {
                (
                    SidecarCursor { last_emitted_t_ms: Some(t_ms as i64), samples: (c.samples + 1) as u64, ..seen },
                    FrameStep::Emit {
                        t_ms: t_ms as i64,
                        sample: k as usize,
                        stop: limit_ms matches Some(l) && t_ms >= l,
                    },
                )
            },
        }
    }
}

pub fn on_frame_timestamp(
    c: &mut SidecarCursor,
    raw: u64,
    started_at_ms: i64,
    times: &Vec<i64>,
    interval_ms: u64,
    limit_ms: Option<i64>,
) -> (r: FrameStep)
    requires
        old(c).samples < u64::MAX,
    ensures
        (*final(c), r) == frame_step(*old(c), raw, started_at_ms, times@, interval_ms, limit_ms),
{
    match c.last_frame_ts {
        Some(prev) => if raw <= prev {
            return FrameStep::Skip;
        },
        None => {},
    }
    let anchor = match c.anchor {
        Some(a) => a,
        None => raw,
    };
    c.anchor = Some(anchor);
    let d: u64 = if raw >= anchor {
        raw - anchor
    } else {
        0
    };
    let t_ms: i64 = if d > (i64::MAX as u64) {
        i64::MAX
    } else {
        d as i64
    };
    c.last_frame_ts = Some(raw);
    let wall: i64 = if raw >= WALL_CLOCK_TIMESTAMP_MIN {
        if raw > (i64::MAX as u64) {
            i64::MAX
        } else {
            raw as i64
        }
    } else {
        let s = saturating_add_i64(started_at_ms, t_ms);
        if s < 0 {
            0
        } else {
            s
        }
    };
    let k = match crate::recording::capture::select_imu_sample_at_or_before(times, wall) {
        None => return FrameStep::Skip,
        Some(k) => k,
    };
    match c.last_emitted_t_ms {
        Some(last) => if saturating_sub_i64(t_ms, last) < (interval_ms as i64) {
            return FrameStep::Skip;
        },
        None => {},
    }
    c.last_emitted_t_ms = Some(t_ms);
    c.samples = c.samples + 1;
    let stop = match limit_ms {
        Some(l) => t_ms >= l,
        None => false,
    };
    FrameStep::Emit { t_ms, sample: k, stop }
}

/// How many of the oldest samples go once a new sample is added: as many
/// as keep the history at 4096 samples, then those more than 10 s older
/// than the new one.
pub open spec fn stale_from(s: Seq<i64>, newest: i64, k: int) -> int
    decreases s.len() - k,
{
    if k < 0 || k >= s.len() {
        s.len() as int
    } else if sat_i64(newest - s[k]) <= IMU_SIDE_CAR_HISTORY_WINDOW_MS {
        k
    } else {
        stale_from(s, newest, k + 1)
    }
}

pub open spec fn dropped_after_push(old_times: Seq<i64>, newest: i64) -> int {
    let s = old_times.push(newest);
    let over = if s.len() > IMU_SIDE_CAR_HISTORY_MAX_SAMPLES {
        s.len() - IMU_SIDE_CAR_HISTORY_MAX_SAMPLES
    } else {
        0
    };
    stale_from(s, newest, over)
}

proof fn lemma_stale_from(s: Seq<i64>, newest: i64, k: int)
    requires
        0 <= k <= s.len(),
    ensures
        k <= stale_from(s, newest, k) <= s.len(),
    decreases s.len() - k,
{
    if k < s.len() && !(sat_i64(newest - s[k]) <= IMU_SIDE_CAR_HISTORY_WINDOW_MS) {
        lemma_stale_from(s, newest, k + 1);
    }
}

/// Adds an IMU sample taken at `wall_ms` to the history of sample times and
/// drops the stale ones from the front; returns how many were dropped, so
/// that the samples kept beside the times can follow.
pub fn push_imu_history(times: &mut Vec<i64>, wall_ms: i64) -> (dropped: usize)
    ensures
        dropped == dropped_after_push(old(times)@, wall_ms),
        final(times)@ == old(times)@.push(wall_ms).subrange(dropped as int, old(times)@.len() + 1int),
{
    times.push(wall_ms);
    let ghost s = times@;
    let n = times.len();
    let over: usize = if n > IMU_SIDE_CAR_HISTORY_MAX_SAMPLES {
        n - IMU_SIDE_CAR_HISTORY_MAX_SAMPLES
    } else {
        0
    };
    let mut k: usize = over;
    proof {
        lemma_stale_from(s, wall_ms, over as int);
    }
    while k < n && saturating_sub_i64(wall_ms, times[k]) > IMU_SIDE_CAR_HISTORY_WINDOW_MS
        invariant
            s == times@,
            n == s.len(),
            over <= k <= n,
            stale_from(s, wall_ms, over as int) == stale_from(s, wall_ms, k as int),
        decreases n - k,
    {
        k = k + 1;
    }
    let mut kept: Vec<i64> = Vec::new();
    let mut j: usize = k;
    while j < n
        invariant
            s == times@,
            n == s.len(),
            k <= j <= n,
            kept@ == s.subrange(k as int, j as int),
        decreases n - j,
    {
        kept.push(times[j]);
        assert(kept@ =~= s.subrange(k as int, j + 1));
        j = j + 1;
    }
    *times = kept;
    k
}

/// The capture stops at its hard deadline; after a stop request, once the
/// tail has run 5 s, or once no frame came for 300 ms.
pub fn sidecar_should_stop(hard_deadline_reached: bool, since_stop_ms: Option<u64>, since_last_frame_ms: Option<u64>) -> (r: bool)
    ensures
        r == (hard_deadline_reached || (since_stop_ms matches Some(s) && (s >= IMU_SIDE_CAR_STOP_TAIL_MAX_MS || (
        since_last_frame_ms matches Some(f) && f >= IMU_SIDE_CAR_STOP_TAIL_IDLE_MS)))),
{
    if hard_deadline_reached {
        return true;
    }
    match since_stop_ms {
        None => false,
        Some(s) => {
            if s >= IMU_SIDE_CAR_STOP_TAIL_MAX_MS {
                return true;
            }
            match since_last_frame_ms {
                Some(f) => f >= IMU_SIDE_CAR_STOP_TAIL_IDLE_MS,
                None => false,
            }
        },
    }
}

/// The duration after which the side file is complete, when one was asked
/// for (capped at `i64::MAX`).
pub fn sidecar_duration_limit(duration_ms: Option<u64>) -> (r: Option<i64>)
    ensures
        r == (match duration_ms {
            Some(ms) => if ms > 0 {
                Some(
                    if ms > i64::MAX {
                        i64::MAX
                    } else {
                        ms as i64
                    },
                )
            } else {
                None
            },
            None => None,
        }),
{
    match duration_ms {
        Some(ms) => if ms > 0 {
            Some(
                if ms > (i64::MAX as u64) {
                    i64::MAX
                } else {
                    ms as i64
                },
            )
        } else {
            None
        },
        None => None,
    }
}

// ---------------------------------------------------------------------------
// Waiting for the frame timestamp file to settle.

/// How long the timestamp file must stay the same size, and the longest
/// wait for that.
pub const IMU_SIDE_CAR_STOP_WAIT_QUIET_MS: u64 = 250;
pub const IMU_SIDE_CAR_STOP_WAIT_MAX_MS: u64 = 5000;

/// The wait for a growing file to settle: its last seen size and when
/// that size was first seen, in milliseconds since the wait began.
#[derive(Debug, Clone, Copy, PartialEq, Eq, Structural)]
pub struct SettleWait {
    pub last_size: u64,
    pub last_change_ms: u64,
}

/// One look at the file: the wait ends after the longest wait, or once
/// the size has not changed for the quiet time; a new size restarts the
/// quiet time.
pub open spec fn settle_step(w: SettleWait, elapsed_ms: u64, size: u64) -> (SettleWait, bool) {
    if elapsed_ms >= IMU_SIDE_CAR_STOP_WAIT_MAX_MS {
        (w, true)
    } else if size != w.last_size {
        (SettleWait { last_size: size, last_change_ms: elapsed_ms }, false)
    } else {
        (w, (if elapsed_ms >= w.last_change_ms {
            elapsed_ms - w.last_change_ms
        } else {
            0
        }) >= IMU_SIDE_CAR_STOP_WAIT_QUIET_MS)
    }
}

impl SettleWait {
    pub fn new() -> (r: Self)
        ensures
            r.last_size == 0,
            r.last_change_ms == 0,
    {
        SettleWait { last_size: 0, last_change_ms: 0 }
    }

    /// Takes the file's size `elapsed_ms` after the wait began (0 when it
    /// cannot be read); tells whether the wait is over.
    pub fn observe(&mut self, elapsed_ms: u64, size: u64) -> (done: bool)
        ensures
            (*final(self), done) == settle_step(*old(self), elapsed_ms, size),
    {
        if elapsed_ms >= IMU_SIDE_CAR_STOP_WAIT_MAX_MS {
            return true;
        }
        if size != self.last_size {
            self.last_size = size;
            self.last_change_ms = elapsed_ms;
            false
        } else {
            elapsed_ms.saturating_sub(self.last_change_ms) >= IMU_SIDE_CAR_STOP_WAIT_QUIET_MS
        }
    }
}

} // verus!
