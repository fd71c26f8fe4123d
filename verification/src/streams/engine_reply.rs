//! How the HTTP handlers answer after a request to the engine: the error
//! body they send, and the status for each kind of engine reply.
use vstd::prelude::*;
use crate::text::owned;

verus! {

/// The engine's error codes.
#[derive(Debug, Clone, Copy, PartialEq, Eq, Structural)]
pub enum EngineErrorCode {
    Unimplemented,
    InvalidState,
    InvalidInput,
    NotFound,
    Conflict,
    Timeout,
    Busy,
    Internal,
}

pub open spec fn code_label(c: EngineErrorCode) -> Seq<char> {
    match c {
        EngineErrorCode::Unimplemented => "unimplemented"@,
        EngineErrorCode::InvalidState => "invalid_state"@,
        EngineErrorCode::InvalidInput => "invalid_input"@,
        EngineErrorCode::NotFound => "not_found"@,
        EngineErrorCode::Conflict => "conflict"@,
        EngineErrorCode::Timeout => "timeout"@,
        EngineErrorCode::Busy => "busy"@,
        EngineErrorCode::Internal => "internal"@,
    }
}

pub fn engine_error_code_label(c: EngineErrorCode) -> (r: &'static str)
    ensures
        r@ == code_label(c),
{
    match c {
        EngineErrorCode::Unimplemented => "unimplemented",
        EngineErrorCode::InvalidState => "invalid_state",
        EngineErrorCode::InvalidInput => "invalid_input",
        EngineErrorCode::NotFound => "not_found",
        EngineErrorCode::Conflict => "conflict",
        EngineErrorCode::Timeout => "timeout",
        EngineErrorCode::Busy => "busy",
        EngineErrorCode::Internal => "internal",
    }
}

/// The JSON body of an engine error answer.
#[derive(Debug, Clone, PartialEq, Eq)]
pub struct EngineErrorBody {
    pub code: String,
    pub engine_code: Option<EngineErrorCode>,
    pub error: String,
    pub retryable: Option<bool>,
}

/// The body for an error: the code's label (`engine_error` without one),
/// the code itself, and the message.
pub fn engine_error_body(code: Option<EngineErrorCode>, error: String) -> (r: EngineErrorBody)
    ensures
        r.code@ == (match code {
            Some(c) => code_label(c),
            None => "engine_error"@,
        }),
        r.engine_code == code,
        r.error == error,
        r.retryable is None,
{
    let label = match code {
        Some(c) => engine_error_code_label(c),
        None => "engine_error",
    };
    EngineErrorBody { code: owned(label), engine_code: code, error, retryable: None }
}

/// What the engine answered to a command.
#[derive(Debug, Clone, PartialEq, Eq)]
pub enum EngineReply {
    Ack,
    Nack { code: EngineErrorCode, reason: String },
    /// Any other event, which the command did not expect.
    Unexpected,
}

/// An HTTP answer: a status code and, for errors, an engine error body.
#[derive(Debug, Clone, PartialEq, Eq)]
pub struct HttpReply {
    pub status: u16,
    pub body: Option<EngineErrorBody>,
}

pub open spec fn body_is(b: Option<EngineErrorBody>, code: EngineErrorCode, error: Seq<char>) -> bool {
    b matches Some(body) && body.code@ == code_label(code) && body.engine_code == Some(code) && body.error@
        == error && body.retryable is None
}

/// The answer to a command that the engine acknowledges with no payload:
/// `204` on an ack, `400` with the engine's code and reason on a nack,
/// `502` for an unexpected event (`unexpected_message`) or a transport
/// error (`transport_prefix` and the error).
pub open spec fn command_reply_ok(
    reply: Result<EngineReply, String>,
    unexpected_message: Seq<char>,
    transport_prefix: Seq<char>,
    r: HttpReply,
) -> bool {
    match reply {
        Ok(EngineReply::Ack) => r.status == 204 && r.body is None,
        Ok(EngineReply::Nack { code, reason }) => r.status == 400 && body_is(r.body, code, reason@),
        Ok(EngineReply::Unexpected) => r.status == 502 && body_is(r.body, EngineErrorCode::Internal, unexpected_message),
        Err(e) => r.status == 502 && body_is(r.body, EngineErrorCode::Internal, transport_prefix + e@),
    }
}

pub fn command_reply(reply: &Result<EngineReply, String>, unexpected_message: &str, transport_prefix: &str) -> (r: HttpReply)
    ensures
        command_reply_ok(*reply, unexpected_message@, transport_prefix@, r),
{
    match reply {
        Ok(EngineReply::Ack) => HttpReply { status: 204, body: None },
        Ok(EngineReply::Nack { code, reason }) => HttpReply {
            status: 400,
            body: Some(engine_error_body(Some(*code), reason.clone())),
        },
        Ok(EngineReply::Unexpected) => HttpReply {
            status: 502,
            body: Some(engine_error_body(Some(EngineErrorCode::Internal), owned(unexpected_message))),
        },
        Err(e) => {
            let mut message = owned(transport_prefix);
            message.append(e.as_str());
            HttpReply { status: 502, body: Some(engine_error_body(Some(EngineErrorCode::Internal), message)) }
        },
    }
}

} // verus!
