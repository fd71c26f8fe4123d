//! The samplers of a running replay bundle. Each one loops until the
//! session is cancelled or its deadline comes, sleeping its period between
//! rounds but never past the deadline; pipeline samples are written only
//! when they changed, and sensor snapshots no more often than a minimum
//! interval. Times are milliseconds on one monotonic clock; a session's
//! deadline is the moment its duration runs out.
use vstd::prelude::*;
use crate::streams::host_inputs::{entries_map, find_input, keys_ascending, set_input};
use crate::text::{owned, seq_eq};

verus! {

/// A sampler stops when the session was cancelled or its deadline has come.
pub open spec fn sampler_done(cancelled: bool, now_ms: u64, deadline_ms: Option<u64>) -> bool {
    cancelled || (deadline_ms matches Some(dl) && now_ms >= dl)
}

pub fn sampler_should_stop(cancelled: bool, now_ms: u64, deadline_ms: Option<u64>) -> (r: bool)
    ensures
        r == sampler_done(cancelled, now_ms, deadline_ms),
{
    if cancelled {
        return true;
    }
    match deadline_ms {
        Some(dl) => now_ms >= dl,
        None => false,
    }
}

/// The time left until `deadline_ms`, none once it has passed.
pub open spec fn time_left(now_ms: u64, deadline_ms: u64) -> int {
    if deadline_ms > now_ms {
        deadline_ms - now_ms
    } else {
        0
    }
}

/// A sampler sleeps its period, or only until the deadline when that
/// comes first.
pub open spec fn capped_sleep(period_ms: u64, now_ms: u64, deadline_ms: Option<u64>) -> int {
    match deadline_ms {
        Some(dl) => if time_left(now_ms, dl) < period_ms {
            time_left(now_ms, dl)
        } else {
            period_ms as int
        },
        None => period_ms as int,
    }
}

pub fn sampler_sleep_ms(period_ms: u64, now_ms: u64, deadline_ms: Option<u64>) -> (r: u64)
    ensures
        r == capped_sleep(period_ms, now_ms, deadline_ms),
        deadline_ms matches Some(dl) ==> now_ms + r <= dl || now_ms >= dl && r == 0,
{
    match deadline_ms {
        Some(dl) => {
            let left: u64 = if dl > now_ms {
                dl - now_ms
            } else {
                0
            };
            if left < period_ms {
                left
            } else {
                period_ms
            }
        },
        None => period_ms,
    }
}

/// The throttle on sensor snapshots: a snapshot is written when none was
/// written yet, or when at least `min_interval_ms` have passed since the
/// last one written; the others are skipped.
#[derive(Debug, Clone, Copy, PartialEq, Eq, Structural)]
pub struct SensorThrottle {
    pub min_interval_ms: u64,
    pub last_sent_ms: Option<u64>,
}

/// Whether a snapshot that arrives at `now_ms` is written. A clock read
/// earlier than the last write counts as no time passed.
pub open spec fn throttle_admits(t: SensorThrottle, now_ms: u64) -> bool {
    match t.last_sent_ms {
        None => true,
        Some(last) => time_left(last, now_ms) >= t.min_interval_ms,
    }
}

impl SensorThrottle {
    pub fn new(min_interval_ms: u64) -> (r: SensorThrottle)
        ensures
            r.min_interval_ms == min_interval_ms,
            r.last_sent_ms is None,
    {
        SensorThrottle { min_interval_ms, last_sent_ms: None }
    }

    /// Decides whether the snapshot that arrived at `now_ms` is written,
    /// and remembers the time of the writes.
    pub fn should_write(&mut self, now_ms: u64) -> (r: bool)
        ensures
            r == throttle_admits(*old(self), now_ms),
            final(self).min_interval_ms == old(self).min_interval_ms,
            final(self).last_sent_ms == (if r {
                Some(now_ms)
            } else {
                old(self).last_sent_ms
            }),
    {
        let ok = match self.last_sent_ms {
            None => true,
            Some(last) => {
                let passed: u64 = if now_ms > last {
                    now_ms - last
                } else {
                    0
                };
                passed >= self.min_interval_ms
            },
        };
        if ok {
            self.last_sent_ms = Some(now_ms);
        }
        ok
    }
}

/// The last sample written for each pipeline output port, each sample held
/// as its JSON text.
pub struct PipelineSampleMemory {
    entries: Vec<(String, String)>,
}

impl PipelineSampleMemory {
    pub closed spec fn wf(&self) -> bool {
        keys_ascending(self.entries@)
    }

    /// The last sample written, by port.
    pub closed spec fn last_samples(&self) -> Map<Seq<char>, String> {
        entries_map(self.entries@)
    }

    pub fn new() -> (r: PipelineSampleMemory)
        ensures
            r.wf(),
            r.last_samples() == Map::<Seq<char>, String>::empty(),
    {
        let r = PipelineSampleMemory { entries: Vec::new() };
        assert(r.last_samples() =~= Map::<Seq<char>, String>::empty());
        r
    }

    /// Decides whether the sample just read from `port` is written: only
    /// when it differs from the last one written for that port, or none was.
    /// A sample that is written becomes the port's last one.
    pub fn record_if_changed(&mut self, port: &str, sample: String) -> (changed: bool)
        requires
            old(self).wf(),
        ensures
            final(self).wf(),
            changed == !(old(self).last_samples().contains_key(port@) && old(self).last_samples()[port@]@ == sample@),
            final(self).last_samples() == (if changed {
                old(self).last_samples().insert(port@, sample)
            } else {
                old(self).last_samples()
            }),
    {
        match find_input(&self.entries, port) {
            Some(i) => {
                if seq_eq(self.entries[i].1.as_str(), sample.as_str()) {
                    return false;
                }
            },
            None => {},
        }
        set_input(&mut self.entries, owned(port), sample);
        true
    }
}

} // verus!
