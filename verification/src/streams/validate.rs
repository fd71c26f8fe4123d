//! Stream manifest validation as a whole: normalize, check against what
//! the file system, the pipeline store and the runtime said, then accept
//! (with the pipeline part normalized) or refuse with every issue found.
use vstd::prelude::*;
use crate::streams::bindings::{
    bindings_issues, field_views, lookups, lookups_issues, pipeline_lookups, raw_field_issues,
    raw_fields, raw_output_fields, validate_binding_entries, validate_lookup_outcomes,
    validate_raw_output_verdicts, LookupOutcome,
};
use crate::streams::checks::{
    backend_issues, explicit_config_issues, layout_issues, missing_paths_issues, wires_issues,
    validate_backend_and_handle, validate_explicit_stream_config, validate_file_backend_paths_present,
    validate_pipeline_layout, validate_pipeline_wires,
};
use crate::streams::codecs::{compat_issues, validate_stream_feature_compatibility, CodecCapability};
use crate::streams::manifest::{opt_view, ReservedPipelineIds};
use crate::streams::media::{kinds_fit, media_issues, validate_file_backend_media_paths, MediaPathKind};
use crate::streams::normalize::{
    file_path_warnings, handle_with_paths, normalize_file_backend_paths,
    normalize_file_stream_identity, normalize_pipeline_output_fields,
    normalize_reserved_pipeline_ids, output_trim_warnings, outputs_trimmed, replay_alias,
    reserved_warnings, unreserved,
};
use crate::streams::pipeline::{normalize_pipeline_manifest, normalized_pipeline};
use crate::streams::validation::{
    file_paths, iss, BackendHandle, issue_views, push_issue, warning_views, EncoderSettingsShape, IssueV,
    StreamManifest, StreamValidationError, ValidationIssue, ValidationWarning, WarningV,
};
use crate::text::owned;

verus! {

/// A manifest after normalization, with the warnings it raised.
#[derive(Debug, Clone)]
pub struct NormalizedStreamManifest {
    pub manifest: StreamManifest,
    pub warnings: Vec<ValidationWarning>,
}

pub open spec fn normalization_warnings(m: StreamManifest, ids: ReservedPipelineIds) -> Seq<WarningV> {
    file_path_warnings(m.capture) + reserved_warnings(m.pipeline@, ids.calibration_mode)
        + output_trim_warnings(unreserved(m.pipeline@, ids.calibration_mode))
}

/// Normalizes a manifest before validation: a file replay gets an alias,
/// its paths are trimmed and deduplicated, the reserved calibration-mode
/// pipeline is removed and output selectors are trimmed.
pub fn normalize_stream_manifest(m: StreamManifest, ids: &ReservedPipelineIds) -> (r: NormalizedStreamManifest)
    ensures
        exists|fresh: u128|
            opt_view(r.manifest.identity.alias) == replay_alias(m.identity, m.capture.backend, fresh),
        r.manifest.identity.id == m.identity.id,
        r.manifest.identity.hardware_id == m.identity.hardware_id,
        file_paths(r.manifest.capture.handle) == handle_with_paths(m.capture.handle, m.capture.backend),
        r.manifest.capture.backend == m.capture.backend,
        r.manifest.capture.controls == m.capture.controls,
        r.manifest.capture.enable_tdn_output == m.capture.enable_tdn_output,
        r.manifest.capture.format_fourcc == m.capture.format_fourcc,
        r.manifest.capture.target_fps == m.capture.target_fps,
        r.manifest.capture.device_keys == m.capture.device_keys,
        match (m.capture.handle, r.manifest.capture.handle) {
            (BackendHandle::File { fps: a, loop_forever: b, .. }, BackendHandle::File { fps: x, loop_forever: y, .. }) => a == x && b == y,
            (h, k) => h == k,
        },
        r.manifest.pipeline@ == outputs_trimmed(unreserved(m.pipeline@, ids.calibration_mode)),
        r.manifest.host_buffer == m.host_buffer,
        r.manifest.preview_jpeg_quality == m.preview_jpeg_quality,
        r.manifest.encoder == m.encoder,
        r.manifest.decoder == m.decoder,
        r.manifest.shadow_recording_codec == m.shadow_recording_codec,
        warning_views(r.warnings@) == normalization_warnings(m, *ids),
{
    let mut manifest = m;
    let mut warnings: Vec<ValidationWarning> = Vec::new();
    let backend = manifest.capture.backend;
    normalize_file_stream_identity(&mut manifest.identity, backend);
    normalize_file_backend_paths(&mut manifest.capture, &mut warnings);
    normalize_reserved_pipeline_ids(&mut manifest.pipeline, ids, &mut warnings);
    normalize_pipeline_output_fields(&mut manifest.pipeline, &mut warnings);
    assert(warning_views(warnings@) =~= normalization_warnings(m, *ids));
    NormalizedStreamManifest { manifest, warnings }
}

/// What validation learned outside the manifest, each list in the order of
/// the items it answers for.
#[derive(Debug, Clone)]
pub struct ValidationFacts {
    /// One per file replay path.
    pub media: Vec<MediaPathKind>,
    /// One per pipeline lookup (`pipeline_lookups`).
    pub lookups: Vec<LookupOutcome>,
    /// One per RAW output selector (`raw_output_fields`): the engine's
    /// error for a value it does not accept.
    pub raw_output_errors: Vec<Option<String>>,
    /// The codecs the runtime offers.
    pub runtime_codecs: Vec<CodecCapability>,
    /// The settings family the engine derives from the encoder selector.
    pub expected_encoder_shape: Option<EncoderSettingsShape>,
    /// The shadow recorder feature gate is on.
    pub shadow_recorder_enabled: bool,
}

pub open spec fn facts_fit(m: StreamManifest, f: ValidationFacts, raw: u128) -> bool {
    &&& kinds_fit(m, f.media@)
    &&& f.lookups@.len() == lookups(m.pipeline@.bindings, raw, m.pipeline.pipelines@.len() as int).len()
    &&& f.raw_output_errors@.len() == raw_fields(m.pipeline@, raw).len()
}

/// Every issue of a normalized manifest, in the order they are reported.
pub open spec fn manifest_issues(m: StreamManifest, f: ValidationFacts, raw: u128) -> Seq<IssueV> {
    let c = m.pipeline@;
    let n = m.pipeline.pipelines@.len() as int;
    backend_issues(m) + explicit_config_issues(m) + missing_paths_issues(m) + media_issues(m, f.media@)
        + layout_issues(c, raw) + wires_issues(c.wires, c.bindings, raw, m.pipeline.pipeline_wires@.len() as int)
        + raw_field_issues(raw_fields(c, raw), f.raw_output_errors@, raw_fields(c, raw).len() as int)
        + bindings_issues(c.bindings, n) + lookups_issues(lookups(c.bindings, raw, n), f.lookups@, lookups(c.bindings, raw, n).len() as int)
        + compat_issues(m, f.runtime_codecs@, f.expected_encoder_shape, f.shadow_recorder_enabled)
}

/// Checks a normalized manifest.
pub fn validate_normalized_manifest(m: &StreamManifest, f: &ValidationFacts, ids: &ReservedPipelineIds) -> (r: Vec<ValidationIssue>)
    requires
        facts_fit(*m, *f, ids.raw),
    ensures
        issue_views(r@) == manifest_issues(*m, *f, ids.raw),
{
    let raw = ids.raw;
    let mut issues: Vec<ValidationIssue> = Vec::new();
    validate_backend_and_handle(m, &mut issues);
    validate_explicit_stream_config(m, &mut issues);
    validate_file_backend_paths_present(m, &mut issues);
    validate_file_backend_media_paths(m, &f.media, &mut issues);
    validate_pipeline_layout(&m.pipeline, raw, &mut issues);
    validate_pipeline_wires(&m.pipeline, raw, &mut issues);
    let fields = raw_output_fields(&m.pipeline, raw);
    proof {
        assert(field_views(fields@).len() == fields@.len());
    }
    validate_raw_output_verdicts(&fields, &f.raw_output_errors, &mut issues);
    validate_binding_entries(&m.pipeline, &mut issues);
    let ls = pipeline_lookups(&m.pipeline, raw);
    validate_lookup_outcomes(&ls, &f.lookups, &mut issues);
    validate_stream_feature_compatibility(m, &f.runtime_codecs, f.expected_encoder_shape, f.shadow_recorder_enabled, &mut issues);
    assert(issue_views(issues@) =~= manifest_issues(*m, *f, ids.raw));
    issues
}

/// A manifest that passed validation, its pipeline part normalized.
#[derive(Debug, Clone)]
pub struct ValidatedStreamManifest {
    pub manifest: StreamManifest,
    pub warnings: Vec<ValidationWarning>,
}

/// Accepts a normalized manifest when no issue was found, normalizing its
/// pipeline part; refuses it with the issues and the warnings otherwise.
pub fn validation_outcome(
    normalized: NormalizedStreamManifest,
    issues: Vec<ValidationIssue>,
    ids: &ReservedPipelineIds,
) -> (r: Result<ValidatedStreamManifest, StreamValidationError>)
    ensures
        issues@.len() == 0 <==> r is Ok,
        r matches Ok(v) ==> v.manifest.pipeline@ == normalized_pipeline(normalized.manifest.pipeline@, *ids)
            && v.manifest.identity == normalized.manifest.identity && v.manifest.capture
            == normalized.manifest.capture && v.manifest.host_buffer == normalized.manifest.host_buffer
            && v.manifest.preview_jpeg_quality == normalized.manifest.preview_jpeg_quality
            && v.manifest.encoder == normalized.manifest.encoder && v.manifest.decoder
            == normalized.manifest.decoder && v.manifest.shadow_recording_codec
            == normalized.manifest.shadow_recording_codec && v.warnings == normalized.warnings,
        r matches Err(e) ==> e.issues == issues && e.warnings == normalized.warnings,
{
    if issues.len() == 0 {
        let NormalizedStreamManifest { mut manifest, warnings } = normalized;
        normalize_pipeline_manifest(&mut manifest.pipeline, ids);
        Ok(ValidatedStreamManifest { manifest, warnings })
    } else {
        Err(StreamValidationError { issues, warnings: normalized.warnings })
    }
}

/// The refusal when the runtime cannot say which codecs it has.
pub fn runtime_capabilities_unavailable(err: &str) -> (r: StreamValidationError)
    ensures
        issue_views(r.issues@) == seq![
            iss(
                "/"@,
                "runtime_capabilities_unavailable"@,
                "stream runtime capability inventory unavailable: "@ + err@,
            ),
        ],
        r.warnings@.len() == 0,
{
    let mut issues: Vec<ValidationIssue> = Vec::new();
    let mut message = owned("stream runtime capability inventory unavailable: ");
    message.append(err);
    push_issue(&mut issues, owned("/"), "runtime_capabilities_unavailable", message);
    assert(issue_views(issues@) =~= seq![
        iss("/"@, "runtime_capabilities_unavailable"@, "stream runtime capability inventory unavailable: "@ + err@),
    ]);
    StreamValidationError { issues, warnings: Vec::new() }
}

} // verus!
