//! The stream manifest as validation sees it, the issues and warnings that
//! validation reports, and the text of pipeline ids.
use vstd::prelude::*;
use crate::recording::options::RecordingCodec;
use crate::streams::manifest::{opt_view, PipelineConfig};
use crate::text::{decimal, owned, views};

verus! {

/// A blocking problem found in a manifest, at a JSON pointer.
#[derive(Debug, Clone, PartialEq, Eq)]
pub struct ValidationIssue {
    pub path: String,
    pub code: &'static str,
    pub message: String,
    pub remediation: Option<String>,
}

pub ghost struct IssueV {
    pub path: Seq<char>,
    pub code: Seq<char>,
    pub message: Seq<char>,
    pub remediation: Option<Seq<char>>,
}

impl View for ValidationIssue {
    type V = IssueV;

    open spec fn view(&self) -> IssueV {
        IssueV {
            path: self.path@,
            code: self.code@,
            message: self.message@,
            remediation: opt_view(self.remediation),
        }
    }
}

/// Something validation changed or would point out, without refusing.
#[derive(Debug, Clone, PartialEq, Eq)]
pub struct ValidationWarning {
    pub path: String,
    pub code: &'static str,
    pub message: String,
}

pub ghost struct WarningV {
    pub path: Seq<char>,
    pub code: Seq<char>,
    pub message: Seq<char>,
}

impl View for ValidationWarning {
    type V = WarningV;

    open spec fn view(&self) -> WarningV {
        WarningV { path: self.path@, code: self.code@, message: self.message@ }
    }
}

/// A refused manifest: the issues, and the warnings normalization raised.
#[derive(Debug, Clone)]
pub struct StreamValidationError {
    pub issues: Vec<ValidationIssue>,
    pub warnings: Vec<ValidationWarning>,
}

pub open spec fn issue_views(s: Seq<ValidationIssue>) -> Seq<IssueV> {
    s.map_values(|x: ValidationIssue| x@)
}

pub open spec fn warning_views(s: Seq<ValidationWarning>) -> Seq<WarningV> {
    s.map_values(|x: ValidationWarning| x@)
}

pub open spec fn iss(path: Seq<char>, code: Seq<char>, message: Seq<char>) -> IssueV {
    IssueV { path, code, message, remediation: None }
}

pub open spec fn iss_fix(path: Seq<char>, code: Seq<char>, message: Seq<char>, fix: Seq<char>) -> IssueV {
    IssueV { path, code, message, remediation: Some(fix) }
}

pub open spec fn warn(path: Seq<char>, code: Seq<char>, message: Seq<char>) -> WarningV {
    WarningV { path, code, message }
}

/// A segment that holds `x` exactly when `cond` does.
pub open spec fn only_if<T>(cond: bool, x: T) -> Seq<T> {
    if cond {
        seq![x]
    } else {
        Seq::empty()
    }
}

pub fn push_issue(issues: &mut Vec<ValidationIssue>, path: String, code: &'static str, message: String)
    ensures
        issue_views(final(issues)@) == issue_views(old(issues)@).push(iss(path@, code@, message@)),
{
    issues.push(ValidationIssue { path, code, message, remediation: None });
    assert(issue_views(issues@) =~= issue_views(old(issues)@).push(iss(path@, code@, message@)));
}

pub fn push_issue_fix(issues: &mut Vec<ValidationIssue>, path: String, code: &'static str, message: String, fix: &str)
    ensures
        issue_views(final(issues)@) == issue_views(old(issues)@).push(iss_fix(path@, code@, message@, fix@)),
{
    issues.push(ValidationIssue { path, code, message, remediation: Some(owned(fix)) });
    assert(issue_views(issues@) =~= issue_views(old(issues)@).push(iss_fix(path@, code@, message@, fix@)));
}

pub fn push_warning(warnings: &mut Vec<ValidationWarning>, path: String, code: &'static str, message: String)
    ensures
        warning_views(final(warnings)@) == warning_views(old(warnings)@).push(warn(path@, code@, message@)),
{
    warnings.push(ValidationWarning { path, code, message });
    assert(warning_views(warnings@) =~= warning_views(old(warnings)@).push(warn(path@, code@, message@)));
}

/// A JSON pointer to element `i` of the array at `prefix`, then `suffix`.
pub open spec fn ptr(prefix: Seq<char>, i: nat, suffix: Seq<char>) -> Seq<char> {
    prefix + decimal(i) + suffix
}

pub fn pointer(prefix: &str, i: usize, suffix: &str) -> (r: String)
    ensures
        r@ == ptr(prefix@, i as nat, suffix@),
{
    let mut out = owned(prefix);
    crate::text::push_decimal(&mut out, i as u64);
    out.append(suffix);
    out
}

// ---------------------------------------------------------------------------
// Pipeline ids as text.

pub open spec fn hex_char(d: nat) -> char {
    if d < 10 {
        ((d + 48) as u32) as char
    } else {
        ((d + 87) as u32) as char
    }
}

/// The last `n` hexadecimal digits of `v`, lower case, most significant first.
pub open spec fn hex_digits(v: nat, n: nat) -> Seq<char>
    decreases n,
{
    if n == 0 {
        Seq::empty()
    } else {
        hex_digits(v / 16, (n - 1) as nat).push(hex_char(v % 16))
    }
}

/// The hyphenated form of a UUID: its 32 lower-case hex digits in groups of
/// 8, 4, 4, 4 and 12.
pub open spec fn uuid_text(id: u128) -> Seq<char> {
    let h = hex_digits(id as nat, 32);
    h.subrange(0, 8) + "-"@ + h.subrange(8, 12) + "-"@ + h.subrange(12, 16) + "-"@ + h.subrange(
        16,
        20,
    ) + "-"@ + h.subrange(20, 32)
}

/// `Uuid::from_u128(id).to_string()`: the hyphenated lower-case form.
#[verifier::external_body]
pub(crate) fn uuid_string(id: u128) -> (r: String)
    ensures
        r@ == uuid_text(id),
{
    uuid::Uuid::from_u128(id).to_string()
}

/// `Uuid::new_v4()`: a random id; nothing is promised of its value.
#[verifier::external_body]
pub(crate) fn random_uuid() -> (r: u128) {
    uuid::Uuid::new_v4().as_u128()
}

// ---------------------------------------------------------------------------
// The manifest as validation reads it.

#[derive(Debug, Clone, Copy, PartialEq, Eq, Structural)]
pub enum BackendKind {
    V4l2,
    Libcamera,
    Virtual,
    Netcam,
    File,
}

/// How the capture device is addressed; only the file paths of a file
/// replay matter to the API's rules.
#[derive(Debug, Clone, PartialEq, Eq)]
pub enum BackendHandle {
    V4l2 { device: String },
    Libcamera { id: String },
    Virtual,
    Netcam { url: String },
    File { paths: Vec<String>, fps: u32, loop_forever: bool },
}

/// The value of a capture control, as far as "is it switched on" goes.
#[derive(Debug, Clone, Copy, PartialEq, Eq, Structural)]
pub enum ControlValue {
    Int(i64),
    Uint(u32),
    /// A floating-point value, by its IEEE 754 bits (`f64::to_bits`).
    Float { bits: u64 },
    Bool(bool),
    Unset,
}

#[derive(Debug, Clone, Copy, PartialEq, Eq, Structural)]
pub struct ControlAssignment {
    pub id: u32,
    pub value: ControlValue,
}

#[derive(Debug, Clone, PartialEq, Eq)]
pub struct CaptureConfig {
    pub backend: BackendKind,
    pub handle: BackendHandle,
    pub device_keys: Vec<String>,
    /// The capture format's four-character code as text.
    pub format_fourcc: String,
    pub controls: Vec<ControlAssignment>,
    pub enable_tdn_output: bool,
    pub target_fps: Option<u32>,
}

#[derive(Debug, Clone, PartialEq, Eq)]
pub struct StreamIdentity {
    pub id: Option<u128>,
    pub alias: Option<String>,
    pub hardware_id: Option<String>,
}

#[derive(Debug, Clone, Copy, PartialEq, Eq, Structural)]
pub struct FrameRate {
    pub numerator: u32,
    pub denominator: u32,
}

#[derive(Debug, Clone, Copy, PartialEq, Eq, Structural)]
pub struct Resolution {
    pub width: u32,
    pub height: u32,
}

/// The tunables of a video encoder.
#[derive(Debug, Clone, Copy, PartialEq, Eq, Structural)]
pub struct VideoEncoderSettings {
    pub bitrate: Option<u64>,
    pub gop: Option<i32>,
    pub framerate: Option<FrameRate>,
    pub thread_count: Option<u32>,
    pub output_resolution: Option<Resolution>,
}

#[derive(Debug, Clone, Copy, PartialEq, Eq, Structural)]
pub enum EncoderSettings {
    Turbojpeg { quality: Option<u32> },
    Mozjpeg { quality: Option<u32> },
    FfmpegMjpeg(VideoEncoderSettings),
    H264(VideoEncoderSettings),
    H265(VideoEncoderSettings),
}

/// The family an encoder settings value belongs to.
#[derive(Debug, Clone, Copy, PartialEq, Eq, Structural)]
pub enum EncoderSettingsShape {
    Turbojpeg,
    Mozjpeg,
    FfmpegMjpeg,
    H264,
    H265,
}

#[derive(Debug, Clone, PartialEq, Eq)]
pub struct EncoderRequest {
    pub enabled: bool,
    pub id: Option<String>,
    pub settings: Option<EncoderSettings>,
}

#[derive(Debug, Clone, PartialEq, Eq)]
pub struct DecoderRequest {
    pub enabled: bool,
    pub id: Option<String>,
}

/// The parts of a stream manifest that the API's validation reads.
#[derive(Debug, Clone, PartialEq, Eq)]
pub struct StreamManifest {
    pub identity: StreamIdentity,
    pub capture: CaptureConfig,
    pub host_buffer: usize,
    pub preview_jpeg_quality: u8,
    pub pipeline: PipelineConfig,
    pub encoder: EncoderRequest,
    pub decoder: DecoderRequest,
    /// The codec of the shadow-buffer recording mode, when that mode is on.
    pub shadow_recording_codec: Option<RecordingCodec>,
}

pub open spec fn file_paths(h: BackendHandle) -> Option<Seq<Seq<char>>> {
    match h {
        BackendHandle::File { paths, .. } => Some(views(paths@)),
        _ => None,
    }
}

} // verus!
