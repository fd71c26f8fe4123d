//! Whether the codecs a manifest asks for exist on this device, whether the
//! encoder settings fit the encoder, and whether shadow-buffer recording can
//! run with the chosen encoder.
use vstd::prelude::*;
use crate::recording::options::RecordingCodec;
use crate::streams::manifest::opt_view;
use crate::streams::outputs::{norm_out, normalized_output_value};
use crate::streams::validation::{
    iss, iss_fix, issue_views, only_if, push_issue, push_issue_fix, EncoderSettings,
    EncoderSettingsShape, IssueV, StreamManifest, ValidationIssue, VideoEncoderSettings,
};
use crate::text::{
    contains, contains_str, eq_ignore_ascii_case, eq_ignore_case, lower_seq, owned, seq_eq,
    to_lower, to_lowercase, to_upper, trim, trim_str, unicode_lower, upper_seq,
};

verus! {

#[derive(Debug, Clone, Copy, PartialEq, Eq, Structural)]
pub enum CodecKind {
    Encoder,
    Decoder,
}

/// A codec the runtime offers.
#[derive(Debug, Clone, PartialEq, Eq)]
pub struct CodecCapability {
    pub kind: CodecKind,
    pub name: String,
    pub implementation: String,
    pub input: String,
    pub fourcc: String,
}

/// The family a codec name or selector stands for: trimmed, in lower case,
/// with `mjpg`/`jpeg`, `avc` and `hevc` taken as `mjpeg`, `h264`, `h265`.
pub open spec fn family(v: Seq<char>) -> Seq<char> {
    let t = lower_seq(trim(v));
    if t == "mjpg"@ || t == "jpeg"@ {
        "mjpeg"@
    } else if t == "avc"@ {
        "h264"@
    } else if t == "hevc"@ {
        "h265"@
    } else {
        t
    }
}

pub fn canonical_codec_family(v: &str) -> (r: String)
    ensures
        r@ == family(v@),
{
    let t = to_lower(trim_str(v));
    if seq_eq(t.as_str(), "mjpg") || seq_eq(t.as_str(), "jpeg") {
        owned("mjpeg")
    } else if seq_eq(t.as_str(), "avc") {
        owned("h264")
    } else if seq_eq(t.as_str(), "hevc") {
        owned("h265")
    } else {
        t
    }
}

pub open spec fn matches_selector(c: CodecCapability, sel: Seq<char>) -> bool {
    eq_ignore_case(c.implementation@, sel) || family(c.name@) == family(sel)
}

pub fn runtime_codec_matches_selector(c: &CodecCapability, sel: &str) -> (r: bool)
    ensures
        r == matches_selector(*c, sel@),
{
    if eq_ignore_ascii_case(c.implementation.as_str(), sel) {
        return true;
    }
    let a = canonical_codec_family(c.name.as_str());
    let b = canonical_codec_family(sel);
    seq_eq(a.as_str(), b.as_str())
}

/// A codec takes the input format `label` when its input or its fourcc
/// names it (ignoring case and surrounding blanks), or is `ANY`.
pub open spec fn matches_input(c: CodecCapability, label: Seq<char>) -> bool {
    let target = upper_seq(trim(label));
    let ci = upper_seq(trim(c.input@));
    let cf = upper_seq(trim(c.fourcc@));
    ci == target || cf == target || ci == "ANY"@ || cf == "ANY"@
}

pub fn runtime_codec_matches_input(c: &CodecCapability, label: &str) -> (r: bool)
    ensures
        r == matches_input(*c, label@),
{
    let target = to_upper(trim_str(label));
    let ci = to_upper(trim_str(c.input.as_str()));
    let cf = to_upper(trim_str(c.fourcc.as_str()));
    seq_eq(ci.as_str(), target.as_str()) || seq_eq(cf.as_str(), target.as_str()) || seq_eq(ci.as_str(), "ANY")
        || seq_eq(cf.as_str(), "ANY")
}

pub open spec fn available(rt: Seq<CodecCapability>, label: Seq<char>, kind: CodecKind, sel: Seq<char>) -> bool {
    exists|i: int|
        0 <= i < rt.len() && (#[trigger] rt[i]).kind == kind && matches_input(rt[i], label)
            && matches_selector(rt[i], sel)
}

pub fn codec_selector_available(rt: &Vec<CodecCapability>, label: &str, kind: CodecKind, sel: &str) -> (r: bool)
    ensures
        r == available(rt@, label@, kind, sel@),
{
    let mut i: usize = 0;
    while i < rt.len()
        invariant
            i <= rt@.len(),
            forall|k: int|
                0 <= k < i ==> !((#[trigger] rt@[k]).kind == kind && matches_input(rt@[k], label@)
                    && matches_selector(rt@[k], sel@)),
        decreases rt@.len() - i,
    {
        if rt[i].kind == kind && runtime_codec_matches_input(&rt[i], label) && runtime_codec_matches_selector(&rt[i], sel) {
            return true;
        }
        i = i + 1;
    }
    false
}

pub open spec fn kind_name(k: CodecKind) -> Seq<char> {
    match k {
        CodecKind::Encoder => "encoder"@,
        CodecKind::Decoder => "decoder"@,
    }
}

pub open spec fn kind_fix(k: CodecKind) -> Seq<char> {
    match k {
        CodecKind::Encoder => "Choose an available encoder selector for this stream, or disable encoding."@,
        CodecKind::Decoder => "Choose a decoder selector that supports the selected capture format, or disable decoding."@,
    }
}

/// The issue for a codec selector that no codec of the right kind and
/// input format answers to; a blank selector asks for nothing.
pub open spec fn selector_issues(
    rt: Seq<CodecCapability>,
    label: Seq<char>,
    kind: CodecKind,
    selector: Option<Seq<char>>,
    at: Seq<char>,
    code: Seq<char>,
) -> Seq<IssueV> {
    match norm_out(selector) {
        None => Seq::empty(),
        Some(sel) => only_if(
            !available(rt, label, kind, sel),
            iss_fix(
                at,
                code,
                kind_name(kind) + " `"@ + sel + "` is not available for capture format "@ + trim(label),
                kind_fix(kind),
            ),
        ),
    }
}

fn validate_codec_selector_available(
    rt: &Vec<CodecCapability>,
    label: &str,
    kind: CodecKind,
    selector: &Option<String>,
    at: &str,
    code: &'static str,
    issues: &mut Vec<ValidationIssue>,
)
    ensures
        issue_views(final(issues)@) == issue_views(old(issues)@) + selector_issues(
            rt@,
            label@,
            kind,
            opt_view(*selector),
            at@,
            code@,
        ),
{
    let sel = match normalized_output_value(selector) {
        None => {
            assert(issue_views(issues@) =~= issue_views(old(issues)@) + selector_issues(rt@, label@, kind, opt_view(*selector), at@, code@));
            return;
        },
        Some(s) => s,
    };
    if codec_selector_available(rt, label, kind, sel.as_str()) {
        assert(issue_views(issues@) =~= issue_views(old(issues)@) + selector_issues(rt@, label@, kind, opt_view(*selector), at@, code@));
        return;
    }
    let mut message = match kind {
        CodecKind::Encoder => owned("encoder"),
        CodecKind::Decoder => owned("decoder"),
    };
    message.append(" `");
    message.append(sel.as_str());
    message.append("` is not available for capture format ");
    message.append(trim_str(label));
    let fix = match kind {
        CodecKind::Encoder => "Choose an available encoder selector for this stream, or disable encoding.",
        CodecKind::Decoder => "Choose a decoder selector that supports the selected capture format, or disable decoding.",
    };
    push_issue_fix(issues, owned(at), code, message, fix);
    assert(issue_views(issues@) =~= issue_views(old(issues)@) + selector_issues(rt@, label@, kind, opt_view(*selector), at@, code@));
}

// ---------------------------------------------------------------------------
// Encoder settings.

pub open spec fn shape_of(s: EncoderSettings) -> EncoderSettingsShape {
    match s {
        EncoderSettings::Turbojpeg { .. } => EncoderSettingsShape::Turbojpeg,
        EncoderSettings::Mozjpeg { .. } => EncoderSettingsShape::Mozjpeg,
        EncoderSettings::FfmpegMjpeg(_) => EncoderSettingsShape::FfmpegMjpeg,
        EncoderSettings::H264(_) => EncoderSettingsShape::H264,
        EncoderSettings::H265(_) => EncoderSettingsShape::H265,
    }
}

pub fn encoder_settings_shape(s: &EncoderSettings) -> (r: EncoderSettingsShape)
    ensures
        r == shape_of(*s),
{
    match s {
        EncoderSettings::Turbojpeg { .. } => EncoderSettingsShape::Turbojpeg,
        EncoderSettings::Mozjpeg { .. } => EncoderSettingsShape::Mozjpeg,
        EncoderSettings::FfmpegMjpeg(_) => EncoderSettingsShape::FfmpegMjpeg,
        EncoderSettings::H264(_) => EncoderSettingsShape::H264,
        EncoderSettings::H265(_) => EncoderSettingsShape::H265,
    }
}

pub open spec fn video_settings_issues(v: VideoEncoderSettings) -> Seq<IssueV> {
    only_if(
        v.bitrate == Some(0u64),
        iss("/encoder/settings/bitrate"@, "encoder_bitrate_must_be_positive"@, "encoder bitrate must be greater than zero"@),
    ) + only_if(
        v.gop matches Some(g) && g <= 0,
        iss("/encoder/settings/gop"@, "encoder_gop_must_be_positive"@, "encoder gop must be greater than zero"@),
    ) + only_if(
        v.framerate matches Some(f) && (f.numerator == 0 || f.denominator == 0),
        iss(
            "/encoder/settings/framerate"@,
            "encoder_framerate_invalid"@,
            "encoder framerate numerator and denominator must be greater than zero"@,
        ),
    ) + only_if(
        v.thread_count == Some(0u32),
        iss(
            "/encoder/settings/thread_count"@,
            "encoder_thread_count_must_be_positive"@,
            "encoder thread_count must be greater than zero"@,
        ),
    ) + only_if(
        v.output_resolution matches Some(r) && (r.width == 0 || r.height == 0),
        iss(
            "/encoder/settings/output_resolution"@,
            "encoder_output_resolution_invalid"@,
            "encoder output resolution width and height must be greater than zero"@,
        ),
    )
}

pub open spec fn settings_value_issues(s: EncoderSettings) -> Seq<IssueV> {
    match s {
        EncoderSettings::Turbojpeg { quality } | EncoderSettings::Mozjpeg { quality } => only_if(
            quality matches Some(q) && !(1 <= q && q <= 100),
            iss("/encoder/settings/quality"@, "encoder_quality_out_of_range"@, "encoder quality must be between 1 and 100"@),
        ),
        EncoderSettings::FfmpegMjpeg(v) | EncoderSettings::H264(v) | EncoderSettings::H265(v) => video_settings_issues(v),
    }
}

fn validate_video_settings(v: &VideoEncoderSettings, issues: &mut Vec<ValidationIssue>)
    ensures
        issue_views(final(issues)@) == issue_views(old(issues)@) + video_settings_issues(*v),
{
    let ghost start = issue_views(issues@);
    if v.bitrate == Some(0u64) {
        push_issue(issues, owned("/encoder/settings/bitrate"), "encoder_bitrate_must_be_positive", owned("encoder bitrate must be greater than zero"));
    }
    match v.gop {
        Some(g) => if g <= 0 {
            push_issue(issues, owned("/encoder/settings/gop"), "encoder_gop_must_be_positive", owned("encoder gop must be greater than zero"));
        },
        None => {},
    }
    match v.framerate {
        Some(f) => if f.numerator == 0 || f.denominator == 0 {
            push_issue(
                issues,
                owned("/encoder/settings/framerate"),
                "encoder_framerate_invalid",
                owned("encoder framerate numerator and denominator must be greater than zero"),
            );
        },
        None => {},
    }
    if v.thread_count == Some(0u32) {
        push_issue(issues, owned("/encoder/settings/thread_count"), "encoder_thread_count_must_be_positive", owned("encoder thread_count must be greater than zero"));
    }
    match v.output_resolution {
        Some(r) => if r.width == 0 || r.height == 0 {
            push_issue(
                issues,
                owned("/encoder/settings/output_resolution"),
                "encoder_output_resolution_invalid",
                owned("encoder output resolution width and height must be greater than zero"),
            );
        },
        None => {},
    }
    assert(issue_views(issues@) =~= start + video_settings_issues(*v));
}

pub fn validate_encoder_settings_values(s: &EncoderSettings, issues: &mut Vec<ValidationIssue>)
    ensures
        issue_views(final(issues)@) == issue_views(old(issues)@) + settings_value_issues(*s),
{
    match s {
        EncoderSettings::Turbojpeg { quality } | EncoderSettings::Mozjpeg { quality } => {
            match quality {
                Some(q) => if !(*q >= 1 && *q <= 100) {
                    push_issue(issues, owned("/encoder/settings/quality"), "encoder_quality_out_of_range", owned("encoder quality must be between 1 and 100"));
                },
                None => {},
            }
            assert(issue_views(issues@) =~= issue_views(old(issues)@) + settings_value_issues(*s));
        },
        EncoderSettings::FfmpegMjpeg(v) | EncoderSettings::H264(v) | EncoderSettings::H265(v) => {
            validate_video_settings(v, issues);
        },
    }
}

/// The settings must belong to the family the encoder selector implies
/// (`expected`, as the engine derives it from the selector); settings of
/// the right family must hold usable values.
pub open spec fn encoder_settings_issues(m: StreamManifest, expected: Option<EncoderSettingsShape>) -> Seq<IssueV> {
    match (m.encoder.settings, norm_out(opt_view(m.encoder.id)), expected) {
        (Some(s), Some(sel), Some(e)) => if shape_of(s) != e {
            seq![
                iss_fix(
                    "/encoder/settings/kind"@,
                    "encoder_settings_kind_mismatch"@,
                    "encoder settings kind does not match encoder `"@ + sel + "`"@,
                    "Choose settings that match the selected encoder family, or switch the encoder selector to match the requested settings kind."@,
                ),
            ]
        } else {
            settings_value_issues(s)
        },
        _ => Seq::empty(),
    }
}

pub fn validate_encoder_settings_compatibility(
    m: &StreamManifest,
    expected: Option<EncoderSettingsShape>,
    issues: &mut Vec<ValidationIssue>,
)
    ensures
        issue_views(final(issues)@) == issue_views(old(issues)@) + encoder_settings_issues(*m, expected),
{
    let settings = match &m.encoder.settings {
        Some(s) => s,
        None => {
            assert(issue_views(issues@) =~= issue_views(old(issues)@) + encoder_settings_issues(*m, expected));
            return;
        },
    };
    let sel = match normalized_output_value(&m.encoder.id) {
        Some(s) => s,
        None => {
            assert(issue_views(issues@) =~= issue_views(old(issues)@) + encoder_settings_issues(*m, expected));
            return;
        },
    };
    let e = match expected {
        Some(e) => e,
        None => {
            assert(issue_views(issues@) =~= issue_views(old(issues)@) + encoder_settings_issues(*m, expected));
            return;
        },
    };
    if encoder_settings_shape(settings) != e {
        let mut message = owned("encoder settings kind does not match encoder `");
        message.append(sel.as_str());
        message.append("`");
        push_issue_fix(
            issues,
            owned("/encoder/settings/kind"),
            "encoder_settings_kind_mismatch",
            message,
            "Choose settings that match the selected encoder family, or switch the encoder selector to match the requested settings kind.",
        );
        assert(issue_views(issues@) =~= issue_views(old(issues)@) + encoder_settings_issues(*m, expected));
        return;
    }
    validate_encoder_settings_values(settings, issues);
}

// ---------------------------------------------------------------------------
// Shadow-buffer recording.

/// The two names by which each recording codec is known.
pub open spec fn codec_targets(c: RecordingCodec) -> (Seq<char>, Seq<char>) {
    match c {
        RecordingCodec::H264 => ("h264"@, "avc"@),
        RecordingCodec::H265 => ("h265"@, "hevc"@),
    }
}

pub open spec fn is_target(c: RecordingCodec, f: Seq<char>) -> bool {
    f == codec_targets(c).0 || f == codec_targets(c).1
}

pub open spec fn encoder_match(rt: Seq<CodecCapability>, i: int, id: Seq<char>) -> bool {
    rt[i].kind == CodecKind::Encoder && matches_selector(rt[i], id)
}

/// An encoder selector fits a recording codec when it names the codec
/// (exactly or as part of it, ignoring case), or when the runtime encoders
/// it selects all belong to one family and that family is the codec.
pub open spec fn encoder_fits_codec(rt: Seq<CodecCapability>, c: RecordingCodec, raw_id: Seq<char>) -> bool {
    let id = trim(raw_id);
    let (t0, t1) = codec_targets(c);
    id.len() > 0 && (eq_ignore_case(id, t0) || eq_ignore_case(id, t1) || contains(lower_seq(id), t0)
        || contains(lower_seq(id), t1) || ((exists|i: int|
        0 <= i < rt.len() && encoder_match(rt, i, id) && is_target(c, family(#[trigger] rt[i].name@)))
        && forall|i: int, j: int|
        0 <= i < rt.len() && 0 <= j < rt.len() && encoder_match(rt, i, id) && encoder_match(rt, j, id)
            ==> family(#[trigger] rt[i].name@) == family(#[trigger] rt[j].name@)))
}

fn target_names(c: RecordingCodec) -> (r: (&'static str, &'static str))
    ensures
        r.0@ == codec_targets(c).0,
        r.1@ == codec_targets(c).1,
{
    match c {
        RecordingCodec::H264 => ("h264", "avc"),
        RecordingCodec::H265 => ("h265", "hevc"),
    }
}

pub fn encoder_matches_recording_codec(rt: &Vec<CodecCapability>, c: RecordingCodec, raw_id: &str) -> (r: bool)
    ensures
        r == encoder_fits_codec(rt@, c, raw_id@),
{
    let id = trim_str(raw_id);
    if id.unicode_len() == 0 {
        return false;
    }
    let (t0, t1) = target_names(c);
    if eq_ignore_ascii_case(id, t0) || eq_ignore_ascii_case(id, t1) {
        return true;
    }
    let lowered = to_lower(id);
    if contains_str(lowered.as_str(), t0) || contains_str(lowered.as_str(), t1) {
        return true;
    }
    let mut first: Option<String> = None;
    let mut single = true;
    let mut i: usize = 0;
    while i < rt.len()
        invariant
            i <= rt@.len(),
            id@ == trim(raw_id@),
            match first {
                None => single && forall|k: int| 0 <= k < i ==> !encoder_match(rt@, k, id@),
                Some(f) => (exists|k: int| 0 <= k < i && encoder_match(rt@, k, id@) && family(#[trigger] rt@[k].name@) == f@)
                    && (single <==> forall|k: int| 0 <= k < i && encoder_match(rt@, k, id@) ==> family(#[trigger] rt@[k].name@) == f@),
            },
        decreases rt@.len() - i,
    {
        let hit = rt[i].kind == CodecKind::Encoder && runtime_codec_matches_selector(&rt[i], id);
        assert(hit == encoder_match(rt@, i as int, id@));
        if hit {
            let fam = canonical_codec_family(rt[i].name.as_str());
            match &first {
                None => {
                    first = Some(fam);
                },
                Some(f) => {
                    if !seq_eq(f.as_str(), fam.as_str()) {
                        single = false;
                    }
                },
            }
        }
        i = i + 1;
    }
    let r = match &first {
        None => false,
        Some(f) => single && (seq_eq(f.as_str(), t0) || seq_eq(f.as_str(), t1)),
    };
    proof {
        let rts = rt@;
        let idv = id@;
        match first {
            None => {},
            Some(f) => {
                if single {
                    assert forall|a: int, b: int|
                        0 <= a < rts.len() && 0 <= b < rts.len() && encoder_match(rts, a, idv) && encoder_match(rts, b, idv)
                        implies family(#[trigger] rts[a].name@) == family(#[trigger] rts[b].name@) by {
                        assert(family(rts[a].name@) == f@);
                        assert(family(rts[b].name@) == f@);
                    }
                } else {
                    let k = choose|k: int| 0 <= k < rts.len() && encoder_match(rts, k, idv) && family(#[trigger] rts[k].name@) == f@;
                    let w = choose|w: int| !(0 <= w < rts.len() && encoder_match(rts, w, idv) ==> family(#[trigger] rts[w].name@) == f@);
                    assert(family(rts[k].name@) != family(rts[w].name@));
                }
            },
        }
    }
    r
}

pub open spec fn codec_upper_name(c: RecordingCodec) -> Seq<char> {
    match c {
        RecordingCodec::H264 => "H264"@,
        RecordingCodec::H265 => "H265"@,
    }
}

pub open spec fn codec_lower_name(c: RecordingCodec) -> Seq<char> {
    match c {
        RecordingCodec::H264 => "h264"@,
        RecordingCodec::H265 => "h265"@,
    }
}

pub open spec fn recording_issues(m: StreamManifest, rt: Seq<CodecCapability>, feature_enabled: bool) -> Seq<IssueV> {
    match m.shadow_recording_codec {
        None => Seq::empty(),
        Some(c) => if !feature_enabled {
            seq![
                iss_fix(
                    "/recording_mode/state"@,
                    "recording_mode_feature_disabled"@,
                    "shadow-buffer recording mode is disabled by the HELIOS_ENABLE_SHADOW_RECORDER feature gate"@,
                    "Switch recording mode to disabled, or enable HELIOS_ENABLE_SHADOW_RECORDER before retrying."@,
                ),
            ]
        } else if !m.encoder.enabled {
            seq![
                iss_fix(
                    "/recording_mode/state"@,
                    "recording_mode_requires_encoder"@,
                    "shadow-buffer recording mode requires the stream encoder to be enabled"@,
                    "Enable the stream encoder before turning on shadow-buffer recording."@,
                ),
            ]
        } else {
            match norm_out(opt_view(m.encoder.id)) {
                None => seq![
                    iss_fix(
                        "/encoder/id"@,
                        "recording_mode_requires_matching_encoder"@,
                        "recording mode requests "@ + codec_lower_name(c)
                            + " but the stream encoder selector is missing"@,
                        "Select an H264 or H265 encoder that matches the chosen recording mode codec."@,
                    ),
                ],
                Some(e) => only_if(
                    !encoder_fits_codec(rt, c, e),
                    iss_fix(
                        "/recording_mode/codec"@,
                        "recording_mode_codec_mismatch"@,
                        unicode_lower(
                            "recording mode codec "@ + codec_upper_name(c) + " does not match encoder `"@
                                + e + "`"@,
                        ),
                        "Choose an encoder selector that matches the requested recording mode codec, or switch the recording mode codec to match the encoder."@,
                    ),
                ),
            }
        },
    }
}

pub fn validate_recording_mode_compatibility(
    m: &StreamManifest,
    rt: &Vec<CodecCapability>,
    feature_enabled: bool,
    issues: &mut Vec<ValidationIssue>,
)
    ensures
        issue_views(final(issues)@) == issue_views(old(issues)@) + recording_issues(*m, rt@, feature_enabled),
{
    let ghost start = issue_views(issues@);
    let c = match m.shadow_recording_codec {
        None => {
            assert(issue_views(issues@) =~= start + recording_issues(*m, rt@, feature_enabled));
            return;
        },
        Some(c) => c,
    };
    if !feature_enabled {
        push_issue_fix(
            issues,
            owned("/recording_mode/state"),
            "recording_mode_feature_disabled",
            owned("shadow-buffer recording mode is disabled by the HELIOS_ENABLE_SHADOW_RECORDER feature gate"),
            "Switch recording mode to disabled, or enable HELIOS_ENABLE_SHADOW_RECORDER before retrying.",
        );
    } else if !m.encoder.enabled {
        push_issue_fix(
            issues,
            owned("/recording_mode/state"),
            "recording_mode_requires_encoder",
            owned("shadow-buffer recording mode requires the stream encoder to be enabled"),
            "Enable the stream encoder before turning on shadow-buffer recording.",
        );
    } else {
        match normalized_output_value(&m.encoder.id) {
            None => {
                let mut message = owned("recording mode requests ");
                match c {
                    RecordingCodec::H264 => message.append("h264"),
                    RecordingCodec::H265 => message.append("h265"),
                }
                message.append(" but the stream encoder selector is missing");
                push_issue_fix(
                    issues,
                    owned("/encoder/id"),
                    "recording_mode_requires_matching_encoder",
                    message,
                    "Select an H264 or H265 encoder that matches the chosen recording mode codec.",
                );
            },
            Some(e) => {
                if !encoder_matches_recording_codec(rt, c, e.as_str()) {
                    let mut text = owned("recording mode codec ");
                    match c {
                        RecordingCodec::H264 => text.append("H264"),
                        RecordingCodec::H265 => text.append("H265"),
                    }
                    text.append(" does not match encoder `");
                    text.append(e.as_str());
                    text.append("`");
                    let message = to_lowercase(text.as_str());
                    push_issue_fix(
                        issues,
                        owned("/recording_mode/codec"),
                        "recording_mode_codec_mismatch",
                        message,
                        "Choose an encoder selector that matches the requested recording mode codec, or switch the recording mode codec to match the encoder.",
                    );
                }
            },
        }
    }
    assert(issue_views(issues@) =~= start + recording_issues(*m, rt@, feature_enabled));
}

/// Codec availability, encoder settings and recording mode together.
pub open spec fn compat_issues(
    m: StreamManifest,
    rt: Seq<CodecCapability>,
    expected: Option<EncoderSettingsShape>,
    feature_enabled: bool,
) -> Seq<IssueV> {
    (if m.encoder.enabled {
        selector_issues(rt, "RG24"@, CodecKind::Encoder, opt_view(m.encoder.id), "/encoder/id"@, "encoder_unavailable"@)
            + encoder_settings_issues(m, expected)
    } else {
        Seq::empty()
    }) + (if m.decoder.enabled {
        selector_issues(
            rt,
            m.capture.format_fourcc@,
            CodecKind::Decoder,
            opt_view(m.decoder.id),
            "/decoder/id"@,
            "decoder_unavailable"@,
        )
    } else {
        Seq::empty()
    }) + recording_issues(m, rt, feature_enabled)
}

pub fn validate_stream_feature_compatibility(
    m: &StreamManifest,
    rt: &Vec<CodecCapability>,
    expected: Option<EncoderSettingsShape>,
    feature_enabled: bool,
    issues: &mut Vec<ValidationIssue>,
)
    ensures
        issue_views(final(issues)@) == issue_views(old(issues)@) + compat_issues(*m, rt@, expected, feature_enabled),
{
    let ghost start = issue_views(issues@);
    if m.encoder.enabled {
        validate_codec_selector_available(rt, "RG24", CodecKind::Encoder, &m.encoder.id, "/encoder/id", "encoder_unavailable", issues);
        validate_encoder_settings_compatibility(m, expected, issues);
    }
    let ghost mid = issue_views(issues@);
    if m.decoder.enabled {
        validate_codec_selector_available(
            rt,
            m.capture.format_fourcc.as_str(),
            CodecKind::Decoder,
            &m.decoder.id,
            "/decoder/id",
            "decoder_unavailable",
            issues,
        );
    }
    let ghost late = issue_views(issues@);
    validate_recording_mode_compatibility(m, rt, feature_enabled, issues);
    assert(issue_views(issues@) =~= start + compat_issues(*m, rt@, expected, feature_enabled));
}

// ---------------------------------------------------------------------------
// Default settings for an encoder implementation.

/// The video settings the FFmpeg encoders start from: 4 Mbit/s, 60 fps,
/// 854x480.
pub open spec fn default_video_settings() -> VideoEncoderSettings {
    VideoEncoderSettings {
        bitrate: Some(4_000_000),
        gop: None,
        framerate: Some(crate::streams::validation::FrameRate { numerator: 60, denominator: 1 }),
        thread_count: None,
        output_resolution: Some(crate::streams::validation::Resolution { width: 854, height: 480 }),
    }
}

/// The settings an encoder implementation starts from for a capture
/// format: JPEG quality 85 for turbojpeg and mozjpeg (any case); for
/// ffmpeg (any case) the default video settings in the format's codec
/// (MJPEG, H.264, H.265), none for another format; none for another
/// implementation.
pub open spec fn default_settings_for(fourcc: Seq<char>, implementation: Seq<char>) -> Option<EncoderSettings> {
    if eq_ignore_case(implementation, "turbojpeg"@) {
        Some(EncoderSettings::Turbojpeg { quality: Some(85) })
    } else if eq_ignore_case(implementation, "mozjpeg"@) {
        Some(EncoderSettings::Mozjpeg { quality: Some(85) })
    } else if !eq_ignore_case(implementation, "ffmpeg"@) {
        None
    } else if fourcc == "MJPG"@ || fourcc == "JPEG"@ {
        Some(EncoderSettings::FfmpegMjpeg(default_video_settings()))
    } else if fourcc == "H264"@ {
        Some(EncoderSettings::H264(default_video_settings()))
    } else if fourcc == "H265"@ || fourcc == "HEVC"@ {
        Some(EncoderSettings::H265(default_video_settings()))
    } else {
        None
    }
}

pub fn default_encoder_settings_for_codec(fourcc: &str, implementation: &str) -> (r: Option<EncoderSettings>)
    ensures
        r == default_settings_for(fourcc@, implementation@),
{
    if eq_ignore_ascii_case(implementation, "turbojpeg") {
        return Some(EncoderSettings::Turbojpeg { quality: Some(85) });
    }
    if eq_ignore_ascii_case(implementation, "mozjpeg") {
        return Some(EncoderSettings::Mozjpeg { quality: Some(85) });
    }
    if !eq_ignore_ascii_case(implementation, "ffmpeg") {
        return None;
    }
    let video = VideoEncoderSettings {
        bitrate: Some(4_000_000),
        gop: None,
        framerate: Some(crate::streams::validation::FrameRate { numerator: 60, denominator: 1 }),
        thread_count: None,
        output_resolution: Some(crate::streams::validation::Resolution { width: 854, height: 480 }),
    };
    if seq_eq(fourcc, "MJPG") || seq_eq(fourcc, "JPEG") {
        Some(EncoderSettings::FfmpegMjpeg(video))
    } else if seq_eq(fourcc, "H264") {
        Some(EncoderSettings::H264(video))
    } else if seq_eq(fourcc, "H265") || seq_eq(fourcc, "HEVC") {
        Some(EncoderSettings::H265(video))
    } else {
        None
    }
}

} // verus!
