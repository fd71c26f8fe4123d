//! The answers that refuse a recording, capture or replay-bundle request
//! before anything was started, and the answer to stopping a replay bundle.
use vstd::prelude::*;
use crate::recording::capture::{ShadowCaptureRefusal};
use crate::recording::media::{ensure_extension, with_ensured_extension};
use crate::recording::options::{RecordingCodec, RecordingContainer, RecordingOptionError};
use crate::recording::replay::{
    default_base, parse_video_options, replay_video_options, requested_media_base, str_opt,
    StartReplayBundleRequest,
};
use crate::storage::paths::sanitized;
use crate::streams::engine_reply::{body_is, engine_error_body, EngineErrorCode, HttpReply};
use crate::text::owned;

verus! {

/// A request refused before anything was started: the status, the engine
/// error code when the body is an engine error body (none for the plain
/// `bad request` body), and the message.
#[derive(Debug, Clone, PartialEq, Eq)]
pub struct RequestRefusal {
    pub status: u16,
    pub engine_code: Option<EngineErrorCode>,
    pub message: String,
}

pub open spec fn refusal_is(r: RequestRefusal, status: u16, code: Option<EngineErrorCode>, message: Seq<char>) -> bool {
    r.status == status && r.engine_code == code && r.message@ == message
}

/// A `400 Bad Request` with `message`.
pub fn bad_request(message: String) -> (r: RequestRefusal)
    ensures
        refusal_is(r, 400, None, message@),
{
    RequestRefusal { status: 400, engine_code: None, message }
}

/// An unknown codec or container is a bad request that names it.
pub fn option_refusal(e: RecordingOptionError) -> (r: RequestRefusal)
    ensures
        refusal_is(r, 400, None, e.message@),
{
    bad_request(e.message)
}

/// The answer to a refused shadow capture: all are `400`; a disabled
/// feature carries the engine code `invalid_state`.
pub fn shadow_refusal_answer(refusal: ShadowCaptureRefusal) -> (r: RequestRefusal)
    ensures
        match refusal {
            ShadowCaptureRefusal::FeatureDisabled => refusal_is(
                r,
                400,
                Some(EngineErrorCode::InvalidState),
                "shadow recorder feature is disabled"@,
            ),
            ShadowCaptureRefusal::EmptyWindow => refusal_is(r, 400, None, "window_ms must be greater than zero"@),
            ShadowCaptureRefusal::BadOption(e) => refusal_is(r, 400, None, e.message@),
        },
{
    match refusal {
        ShadowCaptureRefusal::FeatureDisabled => RequestRefusal {
            status: 400,
            engine_code: Some(EngineErrorCode::InvalidState),
            message: owned("shadow recorder feature is disabled"),
        },
        ShadowCaptureRefusal::EmptyWindow => bad_request(owned("window_ms must be greater than zero")),
        ShadowCaptureRefusal::BadOption(e) => option_refusal(e),
    }
}

/// Starting a replay bundle: refused with `409 Conflict` while one is
/// running for the stream, before anything else is looked at; then the
/// video options are read, an unknown codec or container being a `400`.
pub fn replay_bundle_precheck(already_active: bool, req: &StartReplayBundleRequest) -> (r: Result<
    (RecordingContainer, RecordingCodec),
    RequestRefusal,
>)
    ensures
        already_active ==> (r matches Err(e) && refusal_is(
            e,
            409,
            Some(EngineErrorCode::Conflict),
            "replay bundle already active"@,
        )),
        !already_active ==> match replay_video_options(str_opt(req.codec), str_opt(req.container)) {
            Ok(v) => r == Ok::<(RecordingContainer, RecordingCodec), RequestRefusal>(v),
            Err(m) => r matches Err(e) && refusal_is(e, 400, None, m),
        },
{
    if already_active {
        return Err(
            RequestRefusal {
                status: 409,
                engine_code: Some(EngineErrorCode::Conflict),
                message: owned("replay bundle already active"),
            },
        );
    }
    match parse_video_options(req) {
        Ok(v) => Ok(v),
        Err(e) => Err(option_refusal(e)),
    }
}

/// The file name a new media file asks for: the sanitized requested name
/// (or `prefix_ID_TIMESTAMP`) with the extension ensured; none when the
/// name is unusable.
pub open spec fn media_file(name: Option<Seq<char>>, prefix: Seq<char>, ext: Seq<char>, id: u128, ts_ms: i64) -> Option<
    Seq<char>,
> {
    let base = match name {
        Some(n) => sanitized(n),
        None => Some(default_base(prefix, id, ts_ms)),
    };
    match base {
        Some(b) => with_ensured_extension(b, ext),
        None => None,
    }
}

/// Names a new recording or replay file; an unusable name is a `400`
/// carrying `invalid_message`.
pub fn media_file_name(
    name: Option<&str>,
    prefix: &str,
    ext: &str,
    id: u128,
    ts_ms: i64,
    invalid_message: &str,
) -> (r: Result<String, RequestRefusal>)
    ensures
        match r {
            Ok(f) => media_file(crate::recording::options::opt_view(name), prefix@, ext@, id, ts_ms) == Some(f@),
            Err(e) => media_file(crate::recording::options::opt_view(name), prefix@, ext@, id, ts_ms) is None
                && refusal_is(e, 400, None, invalid_message@),
        },
{
    let base = match requested_media_base(name, prefix, id, ts_ms) {
        Some(b) => b,
        None => return Err(bad_request(owned(invalid_message))),
    };
    match ensure_extension(base.as_str(), ext) {
        Some(f) => Ok(f),
        None => Err(bad_request(owned(invalid_message))),
    }
}

/// Stopping a replay bundle: `204` when one was running, else `404` with
/// the engine code `not_found`.
pub fn replay_bundle_stop_answer(was_active: bool) -> (r: HttpReply)
    ensures
        was_active ==> r.status == 204 && r.body is None,
        !was_active ==> r.status == 404 && body_is(r.body, EngineErrorCode::NotFound, "replay bundle not active"@),
{
    if was_active {
        HttpReply { status: 204, body: None }
    } else {
        HttpReply {
            status: 404,
            body: Some(engine_error_body(Some(EngineErrorCode::NotFound), owned("replay bundle not active"))),
        }
    }
}

} // verus!
