//! Starting a stream on the engine: what each answer to a start means,
//! the one retry after a stale output selection, the engine restart that
//! voids an attempt, the conflicts found before starting, and the waits
//! for a stream to come up or go away.
use vstd::prelude::*;
use crate::streams::edits::{transport_message, TransportError};
use crate::streams::engine_reply::{body_is, engine_error_body, EngineErrorBody, EngineErrorCode, HttpReply};
use crate::streams::grid::{any_output_set, missing_output_error, outputs_cleared, recover_from_missing_selected_output, effective_layout};
use crate::streams::manifest::{PipelineConfig, ReservedPipelineIds};
use crate::streams::pipeline::normalized_pipeline;
use crate::streams::validation::{uuid_string, uuid_text};
use crate::recording::options::clamp;
use crate::text::{owned, parse_u64, parse_u64_spec, trim, trim_str};

verus! {

/// An error body that also says whether retrying may help.
pub fn engine_error_body_with_retryable(code: Option<EngineErrorCode>, error: String, retryable: Option<bool>) -> (r: EngineErrorBody)
    ensures
        r.code@ == (match code {
            Some(c) => crate::streams::engine_reply::code_label(c),
            None => "engine_error"@,
        }),
        r.engine_code == code,
        r.error == error,
        r.retryable == retryable,
{
    let mut body = engine_error_body(code, error);
    body.retryable = retryable;
    body
}

/// An attempt is void when the engine disconnected (restarted) after it
/// began: `502` with `internal`.
pub fn engine_crash_reply(last_disconnect_ms: Option<u64>, start_ms: u64) -> (r: Option<HttpReply>)
    ensures
        match last_disconnect_ms {
            Some(t) => if t >= start_ms {
                r matches Some(h) && h.status == 502 && body_is(
                    h.body,
                    EngineErrorCode::Internal,
                    "engine restarted while applying stream settings"@,
                )
            } else {
                r is None
            },
            None => r is None,
        },
{
    match last_disconnect_ms {
        Some(t) => {
            if t >= start_ms {
                Some(
                    HttpReply {
                        status: 502,
                        body: Some(engine_error_body(Some(EngineErrorCode::Internal), owned("engine restarted while applying stream settings"))),
                    },
                )
            } else {
                None
            }
        },
        None => None,
    }
}

/// What the engine answered to a start.
#[derive(Debug, Clone, PartialEq, Eq)]
pub enum StartReply {
    Started { stream_id: u128 },
    Refused { code: EngineErrorCode, reason: String, retryable: bool },
    /// Another event, or no answer.
    Unclear,
}

/// The next step of a start.
#[derive(Debug, Clone, PartialEq, Eq)]
pub enum StartStep {
    /// The stream runs under this id.
    Running { stream_id: u128 },
    /// Output selections were cleared: validate the manifest again and
    /// start once more.
    Retry,
    /// Wait for the stream to show up as started.
    AwaitStart,
    /// Answer with this error.
    Fail { reply: HttpReply },
}

/// A refusal fails the start: `503` when the engine says a retry may help,
/// `400` otherwise, with the code, the reason and that flag.
pub open spec fn refusal_reply(r: HttpReply, code: EngineErrorCode, reason: Seq<char>, retryable: bool) -> bool {
    &&& r.status == (if retryable {
        503u16
    } else {
        400u16
    })
    &&& r.body matches Some(b)
    &&& b.code@ == crate::streams::engine_reply::code_label(code)
    &&& b.engine_code == Some(code)
    &&& b.error@ == reason
    &&& b.retryable == Some(retryable)
}

/// Handles the engine's answer to a start. A refusal after an engine
/// restart is that restart's error; the first refusal for a missing
/// selected output clears every output selection of the manifest (and
/// asks for a retry); any other refusal fails; an unclear answer waits.
pub fn start_step(
    cfg: &mut PipelineConfig,
    recovery_attempted: &mut bool,
    reply: &StartReply,
    crash: Option<HttpReply>,
    ids: &ReservedPipelineIds,
) -> (r: StartStep)
    ensures
        match *reply {
            StartReply::Started { stream_id } => r == StartStep::Running { stream_id } && *final(cfg) == *old(cfg)
                && *final(recovery_attempted) == *old(recovery_attempted),
            StartReply::Unclear => r == StartStep::AwaitStart && *final(cfg) == *old(cfg) && *final(recovery_attempted)
                == *old(recovery_attempted),
            StartReply::Refused { code, reason, retryable } => match crash {
                Some(h) => r == (StartStep::Fail { reply: h }) && *final(cfg) == *old(cfg) && *final(recovery_attempted)
                    == *old(recovery_attempted),
                None => if !*old(recovery_attempted) && missing_output_error(code, reason@) && any_output_set(old(cfg)@) {
                    &&& r == StartStep::Retry
                    &&& *final(recovery_attempted)
                    &&& final(cfg)@ == effective_layout(normalized_pipeline(outputs_cleared(old(cfg)@), *ids))
                } else {
                    &&& r matches StartStep::Fail { reply: h }
                    &&& refusal_reply(h, code, reason@, retryable)
                    &&& final(cfg)@ == old(cfg)@
                    &&& *final(recovery_attempted) == *old(recovery_attempted)
                },
            },
        },
{
    match reply {
        StartReply::Started { stream_id } => StartStep::Running { stream_id: *stream_id },
        StartReply::Unclear => StartStep::AwaitStart,
        StartReply::Refused { code, reason, retryable } => {
            if let Some(h) = crash {
                return StartStep::Fail { reply: h };
            }
            if !*recovery_attempted && recover_from_missing_selected_output(cfg, *code, reason.as_str(), ids) {
                *recovery_attempted = true;
                return StartStep::Retry;
            }
            let status: u16 = if *retryable {
                503
            } else {
                400
            };
            StartStep::Fail {
                reply: HttpReply {
                    status,
                    body: Some(engine_error_body_with_retryable(Some(*code), reason.clone(), Some(*retryable))),
                },
            }
        },
    }
}

/// After waiting for a start: the requested id when the stream showed up;
/// else the engine restart's error, or `502` (the engine did not confirm);
/// a failure to ask is `502` with its text.
pub fn await_start_outcome(found: &Result<bool, TransportError>, requested_id: u128, crash: Option<HttpReply>) -> (r: Result<u128, HttpReply>)
    ensures
        match *found {
            Ok(true) => r == Ok::<u128, HttpReply>(requested_id),
            Ok(false) => match crash {
                Some(h) => r == Err::<u128, HttpReply>(h),
                None => r matches Err(h) && h.status == 502 && body_is(
                    h.body,
                    EngineErrorCode::Internal,
                    "engine did not confirm stream start"@,
                ),
            },
            Err(e) => r matches Err(h) && h.status == 502 && body_is(h.body, EngineErrorCode::Internal, transport_message(e)),
        },
{
    match found {
        Ok(true) => Ok(requested_id),
        Ok(false) => match crash {
            Some(h) => Err(h),
            None => Err(
                HttpReply {
                    status: 502,
                    body: Some(engine_error_body(Some(EngineErrorCode::Internal), owned("engine did not confirm stream start"))),
                },
            ),
        },
        Err(e) => {
            let text = match e {
                TransportError::Io { message, .. } => message.clone(),
                TransportError::Other { message } => message.clone(),
            };
            Err(HttpReply { status: 502, body: Some(engine_error_body(Some(EngineErrorCode::Internal), text)) })
        },
    }
}

// ---------------------------------------------------------------------------
// Conflicts found before a start.

/// An internal stream on the same camera that a sensor benchmark holds
/// makes the device busy (`409`).
pub fn benchmark_busy_reply() -> (r: HttpReply)
    ensures
        r.status == 409,
        body_is(r.body, EngineErrorCode::Busy, "device is busy (sensor benchmark is active)"@),
{
    HttpReply { status: 409, body: Some(engine_error_body(Some(EngineErrorCode::Busy), owned("device is busy (sensor benchmark is active)"))) }
}

/// Another stream on the same camera refuses the start (`409`).
pub fn camera_in_use_reply(other_stream: u128) -> (r: HttpReply)
    ensures
        r.status == 409,
        body_is(r.body, EngineErrorCode::Busy, "camera is already in use by stream "@ + uuid_text(other_stream)),
{
    let mut message = owned("camera is already in use by stream ");
    message.append(uuid_string(other_stream).as_str());
    HttpReply { status: 409, body: Some(engine_error_body(Some(EngineErrorCode::Busy), message)) }
}


// ---------------------------------------------------------------------------
// Waiting for a stream to start or to stop.

/// How long listing the engine's streams may take, in milliseconds: the
/// configured value (`HELIOS_API_LIST_STREAMS_TIMEOUT_MS`, trimmed) when it
/// reads as a number, else 5000 in a debug build and 1500 otherwise; kept
/// within 100..=20000.
pub open spec fn list_timeout(raw: Option<Seq<char>>, debug_build: bool) -> int {
    let d: int = if debug_build {
        5000
    } else {
        1500
    };
    let v = match raw {
        Some(s) => match parse_u64_spec(trim(s)) {
            Some(v) => v as int,
            None => d,
        },
        None => d,
    };
    clamp(v, 100, 20000)
}

pub fn list_streams_timeout_ms(raw: Option<&str>, debug_build: bool) -> (r: u64)
    ensures
        r == list_timeout(
            match raw {
                Some(s) => Some(s@),
                None => None,
            },
            debug_build,
        ),
{
    let d: u64 = if debug_build {
        5000
    } else {
        1500
    };
    let v = match raw {
        Some(s) => match parse_u64(trim_str(s)) {
            Some(v) => v,
            None => d,
        },
        None => d,
    };
    crate::recording::options::clamp_u64(v, 100, 20000)
}

/// What a wait on the engine looks for.
#[derive(Debug, Clone, Copy, PartialEq, Eq, Structural)]
pub enum WaitGoal {
    /// The stream to show up as started.
    Started,
    /// The stream to be gone.
    Gone,
}

/// What happened while waiting for a stream.
#[derive(Debug, Clone, Copy, PartialEq, Eq, Structural)]
pub enum WaitEvent {
    /// The wait's deadline passed.
    DeadlinePassed,
    /// The periodic listing of the engine's streams came back, with or
    /// without the stream.
    Listed { present: bool },
    /// The engine announced that a stream started.
    StreamStarted { stream_id: u128 },
    /// The engine announced that a stream stopped.
    StreamStopped { stream_id: u128 },
    /// Another event, or the event channel lagged or closed.
    Other,
}

/// The wait goes on, or it is over: the goal was reached, or the deadline
/// passed first.
#[derive(Debug, Clone, Copy, PartialEq, Eq, Structural)]
pub enum WaitDecision {
    Continue,
    Done { reached: bool },
}

pub open spec fn wait_decision(goal: WaitGoal, stream_id: u128, e: WaitEvent) -> WaitDecision {
    match e {
        WaitEvent::DeadlinePassed => WaitDecision::Done { reached: false },
        WaitEvent::Listed { present } => if (goal == WaitGoal::Started) == present {
            WaitDecision::Done { reached: true }
        } else {
            WaitDecision::Continue
        },
        WaitEvent::StreamStarted { stream_id: id } => if goal == WaitGoal::Started && id == stream_id {
            WaitDecision::Done { reached: true }
        } else {
            WaitDecision::Continue
        },
        WaitEvent::StreamStopped { stream_id: id } => if goal == WaitGoal::Gone && id == stream_id {
            WaitDecision::Done { reached: true }
        } else {
            WaitDecision::Continue
        },
        WaitEvent::Other => WaitDecision::Continue,
    }
}

/// One step of a wait: a listing that shows the stream ends a wait for it
/// to start, one without it ends a wait for it to go; so do the engine's
/// started and stopped events for this stream; the deadline ends any wait.
pub fn wait_step(goal: WaitGoal, stream_id: u128, event: WaitEvent) -> (r: WaitDecision)
    ensures
        r == wait_decision(goal, stream_id, event),
{
    let starting = match goal {
        WaitGoal::Started => true,
        WaitGoal::Gone => false,
    };
    match event {
        WaitEvent::DeadlinePassed => WaitDecision::Done { reached: false },
        WaitEvent::Listed { present } => if starting == present {
            WaitDecision::Done { reached: true }
        } else {
            WaitDecision::Continue
        },
        WaitEvent::StreamStarted { stream_id: id } => if starting && id == stream_id {
            WaitDecision::Done { reached: true }
        } else {
            WaitDecision::Continue
        },
        WaitEvent::StreamStopped { stream_id: id } => if !starting && id == stream_id {
            WaitDecision::Done { reached: true }
        } else {
            WaitDecision::Continue
        },
        WaitEvent::Other => WaitDecision::Continue,
    }
}

} // verus!
