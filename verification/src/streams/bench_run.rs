//! The run of a sensor benchmark, one capture mode after the other: start a
//! stream in the mode, take its baseline, try the codecs on it, stop it;
//! a mode whose stream does not start, or whose baseline cannot be taken,
//! is skipped with a warning. Cancelling stops the run before the next mode
//! (and between two codec trials) with the warning `benchmark canceled`.
//! At the end the streams stopped for the benchmark are restored when the
//! request asked for it. The engine work is done by the caller, which
//! reports each outcome back as an event.
use vstd::prelude::*;
use crate::streams::bench::{bench_warning, warning_text, BenchFailure};
use crate::text::owned;

verus! {

/// How a run is set up: how many modes it measures, and whether the
/// streams it stopped are restarted at the end.
#[derive(Debug, Clone, Copy, PartialEq, Eq, Structural)]
pub struct BenchPlan {
    pub mode_count: usize,
    pub restore_existing: bool,
}

/// Where a run stands.
#[derive(Debug, Clone, Copy, PartialEq, Eq, Structural)]
pub enum BenchLoop {
    /// Between modes; `next` is the next one to measure.
    NextMode { next: usize },
    /// The stream for mode `index` was asked to start.
    Starting { index: usize },
    /// The baseline of mode `index` is being taken on `stream_id`.
    Baseline { index: usize, stream_id: u128 },
    /// The codecs are being tried for mode `index` on `stream_id`.
    Codecs { index: usize, stream_id: u128 },
    /// The stream of mode `index` is being stopped.
    Stopping { index: usize, stream_id: u128 },
    /// The streams stopped for the benchmark are being restarted.
    Restoring,
    Finished,
}

/// What the caller reports.
#[derive(Debug, Clone, PartialEq, Eq)]
pub enum BenchEvent {
    /// Nothing new: go on.
    Proceed,
    /// The stream for the current mode started.
    StreamStarted(u128),
    /// The stream for the current mode did not start, and why.
    StartFailed(String),
    /// The baseline was taken.
    BaselineTaken,
    /// The baseline could not be taken, and why.
    BaselineFailed(String),
    /// The codec trials of the current mode ended; the caller recorded what
    /// they measured.
    CodecTrialsDone,
    StreamStopped,
    Restored,
}

/// What the caller does next.
#[derive(Debug, Clone, Copy, PartialEq, Eq, Structural)]
pub enum BenchAction {
    /// Start a stream in mode `mode_index` (and show that mode as current).
    StartStream { mode_index: usize },
    SampleBaseline { stream_id: u128 },
    RunCodecTrials { mode_index: usize, stream_id: u128 },
    /// Stop the stream, best effort.
    StopStream { stream_id: u128 },
    RestoreStreams,
    /// Write the result: the run is over.
    Complete,
    /// Step again with `Proceed`.
    Continue,
    /// The event does not fit where the run stands: nothing to do.
    Ignore,
}

pub struct BenchStep {
    pub next: BenchLoop,
    pub action: BenchAction,
    /// A warning the result collects.
    pub warning: Option<String>,
}

pub open spec fn loop_wf(s: BenchLoop, plan: BenchPlan) -> bool {
    match s {
        BenchLoop::NextMode { next } => next <= plan.mode_count,
        BenchLoop::Starting { index } => index < plan.mode_count,
        BenchLoop::Baseline { index, .. } => index < plan.mode_count,
        BenchLoop::Codecs { index, .. } => index < plan.mode_count,
        BenchLoop::Stopping { index, .. } => index < plan.mode_count,
        _ => true,
    }
}

/// How a run ends: restoring the stopped streams first when asked to.
pub open spec fn wrap_up(plan: BenchPlan) -> (BenchLoop, BenchAction) {
    if plan.restore_existing {
        (BenchLoop::Restoring, BenchAction::RestoreStreams)
    } else {
        (BenchLoop::Finished, BenchAction::Complete)
    }
}

/// The next state and action, with the warning as text when there is one.
pub open spec fn bench_next(
    s: BenchLoop,
    e: BenchEvent,
    plan: BenchPlan,
    cancelled: bool,
    subject: Seq<char>,
) -> (BenchLoop, BenchAction, Option<Seq<char>>) {
    match (s, e) {
        (BenchLoop::NextMode { next }, _) => if cancelled {
            (wrap_up(plan).0, wrap_up(plan).1, Some("benchmark canceled"@))
        } else if next >= plan.mode_count {
            (wrap_up(plan).0, wrap_up(plan).1, None)
        } else {
            (BenchLoop::Starting { index: next }, BenchAction::StartStream { mode_index: next }, None)
        },
        (BenchLoop::Starting { index }, BenchEvent::StreamStarted(id)) => (
            BenchLoop::Baseline { index, stream_id: id },
            BenchAction::SampleBaseline { stream_id: id },
            None,
        ),
        (BenchLoop::Starting { index }, BenchEvent::StartFailed(err)) => (
            BenchLoop::NextMode { next: (index + 1) as usize },
            BenchAction::Continue,
            Some(warning_text(subject, BenchFailure::Start, err@)),
        ),
        (BenchLoop::Baseline { index, stream_id }, BenchEvent::BaselineTaken) => (
            BenchLoop::Codecs { index, stream_id },
            BenchAction::RunCodecTrials { mode_index: index, stream_id },
            None,
        ),
        (BenchLoop::Baseline { index, stream_id }, BenchEvent::BaselineFailed(err)) => (
            BenchLoop::Stopping { index, stream_id },
            BenchAction::StopStream { stream_id },
            Some(warning_text(subject, BenchFailure::BaselineMetrics, err@)),
        ),
        (BenchLoop::Codecs { index, stream_id }, BenchEvent::CodecTrialsDone) => (
            BenchLoop::Stopping { index, stream_id },
            BenchAction::StopStream { stream_id },
            None,
        ),
        (BenchLoop::Stopping { index, .. }, BenchEvent::StreamStopped) => (
            BenchLoop::NextMode { next: (index + 1) as usize },
            BenchAction::Continue,
            None,
        ),
        (BenchLoop::Restoring, BenchEvent::Restored) => (BenchLoop::Finished, BenchAction::Complete, None),
        (s, _) => (s, BenchAction::Ignore, None),
    }
}

pub open spec fn opt_text(o: Option<String>) -> Option<Seq<char>> {
    match o {
        Some(s) => Some(s@),
        None => None,
    }
}

fn finish(plan: BenchPlan, warning: Option<String>) -> (r: BenchStep)
    ensures
        (r.next, r.action) == wrap_up(plan),
        opt_text(r.warning) == opt_text(warning),
{
    if plan.restore_existing {
        BenchStep { next: BenchLoop::Restoring, action: BenchAction::RestoreStreams, warning }
    } else {
        BenchStep { next: BenchLoop::Finished, action: BenchAction::Complete, warning }
    }
}

/// One step of a benchmark run. `subject` names the current mode
/// (`mode_subject`) for its warnings.
pub fn bench_step(s: BenchLoop, e: &BenchEvent, plan: BenchPlan, cancelled: bool, subject: &str) -> (r: BenchStep)
    requires
        loop_wf(s, plan),
    ensures
        loop_wf(r.next, plan),
        (r.next, r.action, opt_text(r.warning)) == bench_next(s, *e, plan, cancelled, subject@),
{
    match (s, e) {
        (BenchLoop::NextMode { next }, _) => {
            if cancelled {
                finish(plan, Some(owned("benchmark canceled")))
            } else if next >= plan.mode_count {
                finish(plan, None)
            } else {
                BenchStep {
                    next: BenchLoop::Starting { index: next },
                    action: BenchAction::StartStream { mode_index: next },
                    warning: None,
                }
            }
        },
        (BenchLoop::Starting { index }, BenchEvent::StreamStarted(id)) => BenchStep {
            next: BenchLoop::Baseline { index, stream_id: *id },
            action: BenchAction::SampleBaseline { stream_id: *id },
            warning: None,
        },
        (BenchLoop::Starting { index }, BenchEvent::StartFailed(err)) => BenchStep {
            next: BenchLoop::NextMode { next: index + 1 },
            action: BenchAction::Continue,
            warning: Some(bench_warning(subject, &BenchFailure::Start, err.as_str())),
        },
        (BenchLoop::Baseline { index, stream_id }, BenchEvent::BaselineTaken) => BenchStep {
            next: BenchLoop::Codecs { index, stream_id },
            action: BenchAction::RunCodecTrials { mode_index: index, stream_id },
            warning: None,
        },
        (BenchLoop::Baseline { index, stream_id }, BenchEvent::BaselineFailed(err)) => BenchStep {
            next: BenchLoop::Stopping { index, stream_id },
            action: BenchAction::StopStream { stream_id },
            warning: Some(bench_warning(subject, &BenchFailure::BaselineMetrics, err.as_str())),
        },
        (BenchLoop::Codecs { index, stream_id }, BenchEvent::CodecTrialsDone) => BenchStep {
            next: BenchLoop::Stopping { index, stream_id },
            action: BenchAction::StopStream { stream_id },
            warning: None,
        },
        (BenchLoop::Stopping { index, .. }, BenchEvent::StreamStopped) => BenchStep {
            next: BenchLoop::NextMode { next: index + 1 },
            action: BenchAction::Continue,
            warning: None,
        },
        (BenchLoop::Restoring, BenchEvent::Restored) => BenchStep {
            next: BenchLoop::Finished,
            action: BenchAction::Complete,
            warning: None,
        },
        _ => BenchStep { next: s, action: BenchAction::Ignore, warning: None },
    }
}

/// Before each codec trial: a cancelled run stops trying codecs, with the
/// warning `benchmark canceled`.
pub fn codec_trial_gate(cancelled: bool) -> (r: Option<String>)
    ensures
        cancelled ==> (r matches Some(w) && w@ == "benchmark canceled"@),
        !cancelled ==> r is None,
{
    if cancelled {
        Some(owned("benchmark canceled"))
    } else {
        None
    }
}

} // verus!
