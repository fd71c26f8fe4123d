use helios_api::recording::options::RecordingCodec;
use helios_api::streams::bindings::{pipeline_lookups, raw_output_fields, LookupOutcome};
use helios_api::streams::codecs::{default_encoder_settings_for_codec, CodecCapability, CodecKind};
use helios_api::streams::lifecycle::{
    apply_control_to_manifest, apply_new_ov9782_defaults, LIBCAMERA_NOISE_REDUCTION_MODE,
    OV9782_DEFAULT_LIBCAMERA_TARGET_FPS, OV9782_NOISE_REDUCTION_OFF,
};
use helios_api::streams::manifest::{
    LayoutSlot, PipelineBinding, PipelineConfig, PipelineLayout, PipelineWire, ReservedPipelineIds, WireEndpoint,
};
use helios_api::streams::media::MediaPathKind;
use helios_api::streams::media_replay::replay_alias_or;
use helios_api::streams::normalize::{normalize_capture_tdn_output_with_descriptor, ControlMeta};
use helios_api::streams::preview::{preview_targets_active_pipeline, PreviewSelectionQuery};
use helios_api::streams::validate::{normalize_stream_manifest, validate_normalized_manifest, ValidationFacts};
use helios_api::streams::validation::{
    BackendHandle, BackendKind, CaptureConfig, ControlAssignment, ControlValue, DecoderRequest,
    EncoderRequest, EncoderSettings, EncoderSettingsShape, StreamIdentity, StreamManifest, ValidationIssue,
    VideoEncoderSettings,
};

const RAW: u128 = 0x0000_0000_0000_4000_8000_0000_0000_0001;
const CALIBRATION: u128 = 0x0000_0000_0000_4000_8000_0000_0000_0002;

fn ids() -> ReservedPipelineIds {
    ReservedPipelineIds { raw: RAW, calibration_mode: CALIBRATION }
}

fn empty_pipeline() -> PipelineConfig {
    PipelineConfig {
        pipeline_enabled: false,
        pipelines: Vec::new(),
        active_pipeline_id: None,
        active_pipeline_output: None,
        pipeline_layout: None,
        pipeline_wires: Vec::new(),
    }
}

fn sample_libcamera_manifest() -> StreamManifest {
    StreamManifest {
        identity: StreamIdentity {
            id: Some(0x43e2_cb68_95b0_4269_97da_7e16_c730_c36a),
            alias: Some("camera".to_string()),
            hardware_id: Some("camera".to_string()),
        },
        capture: CaptureConfig {
            backend: BackendKind::Libcamera,
            handle: BackendHandle::Libcamera { id: "camera".to_string() },
            device_keys: vec!["camera".to_string()],
            format_fourcc: "NV12".to_string(),
            controls: Vec::new(),
            enable_tdn_output: true,
            target_fps: None,
        },
        host_buffer: 2,
        preview_jpeg_quality: 30,
        pipeline: empty_pipeline(),
        encoder: EncoderRequest { enabled: false, id: None, settings: None },
        decoder: DecoderRequest { enabled: false, id: None },
        shadow_recording_codec: None,
    }
}

fn base_file_manifest(path: &str) -> StreamManifest {
    let mut m = sample_libcamera_manifest();
    m.identity = StreamIdentity { id: None, alias: Some("cam0".to_string()), hardware_id: Some("cam0".to_string()) };
    m.capture.backend = BackendKind::File;
    m.capture.handle = BackendHandle::File { paths: vec![path.to_string()], fps: 30, loop_forever: false };
    m.capture.device_keys = Vec::new();
    m
}

fn runtime_codecs() -> Vec<CodecCapability> {
    vec![
        CodecCapability {
            kind: CodecKind::Encoder,
            name: "turbojpeg".to_string(),
            implementation: "turbojpeg".to_string(),
            input: "RG24".to_string(),
            fourcc: "MJPG".to_string(),
        },
        CodecCapability {
            kind: CodecKind::Encoder,
            name: "h264".to_string(),
            implementation: "ffmpeg".to_string(),
            input: "RG24".to_string(),
            fourcc: "H264".to_string(),
        },
        CodecCapability {
            kind: CodecKind::Decoder,
            name: "nv12-luma".to_string(),
            implementation: "nv12-luma".to_string(),
            input: "NV12".to_string(),
            fourcc: "RG24".to_string(),
        },
    ]
}

/// Normalizes and validates a manifest the way the API does, with every
/// media path a file of the kind its name says and every pipeline stored.
fn validate(m: StreamManifest, expected: Option<EncoderSettingsShape>) -> Vec<ValidationIssue> {
    let normalized = normalize_stream_manifest(m, &ids());
    let manifest = normalized.manifest;
    let media = match &manifest.capture.handle {
        BackendHandle::File { paths, .. } => paths.iter().map(|_| MediaPathKind::File).collect(),
        _ => Vec::new(),
    };
    let lookups = pipeline_lookups(&manifest.pipeline, RAW).iter().map(|_| LookupOutcome::Found).collect();
    let raw_output_errors = raw_output_fields(&manifest.pipeline, RAW)
        .iter()
        .map(|f| match f.value.as_deref().map(|v| v.trim().to_ascii_lowercase()) {
            Some(v) if v == "raw" || v == "undistorted" => None,
            Some(v) => Some(format!("unsupported RAW output `{v}`")),
            None => None,
        })
        .collect();
    let facts = ValidationFacts {
        media,
        lookups,
        raw_output_errors,
        runtime_codecs: runtime_codecs(),
        expected_encoder_shape: expected,
        shadow_recorder_enabled: true,
    };
    validate_normalized_manifest(&manifest, &facts, &ids())
}

fn has_code(issues: &[ValidationIssue], code: &str) -> bool {
    issues.iter().any(|issue| issue.code == code)
}

#[test]
fn rejects_empty_file_paths() {
    let mut manifest = base_file_manifest("/tmp/clip.mp4");
    manifest.capture.handle = BackendHandle::File { paths: vec!["".to_string(), "   ".to_string()], fps: 30, loop_forever: false };
    let issues = validate(manifest, None);
    assert!(has_code(&issues, "missing_paths"));
}

#[test]
fn rejects_dangling_layout_pipeline_references() {
    let mut manifest = base_file_manifest("/tmp/clip.mp4");
    manifest.pipeline.pipeline_layout = Some(PipelineLayout {
        rows: 1,
        columns: 1,
        slots: vec![LayoutSlot { row: 0, column: 0, pipeline_id: Some(0x1234), output_key: Some("overlay".to_string()) }],
    });
    let issues = validate(manifest, None);
    assert!(has_code(&issues, "unknown_pipeline"));
}

#[test]
fn rejects_invalid_raw_output_alias() {
    let mut manifest = base_file_manifest("/tmp/clip.mp4");
    manifest.pipeline.pipeline_enabled = true;
    manifest.pipeline.active_pipeline_id = Some(RAW);
    manifest.pipeline.active_pipeline_output = Some("FRAME".to_string());
    let issues = validate(manifest, None);
    assert!(has_code(&issues, "unsupported_raw_output"));
}

#[test]
fn allows_missing_codec_selectors_when_not_explicitly_requested() {
    let manifest = base_file_manifest("/tmp/clip.mp4");
    let issues = validate(manifest, None);
    assert!(issues.is_empty(), "{issues:?}");
}

#[test]
fn rejects_unsupported_file_replay_media_type() {
    let manifest = base_file_manifest("/tmp/notes.txt");
    let issues = validate(manifest, None);
    assert!(has_code(&issues, "unsupported_media_type"));
}

#[test]
fn rejects_disabled_pipeline_with_pipeline_state() {
    let mut manifest = base_file_manifest("/tmp/clip.mp4");
    let pipeline_id = 0x77;
    manifest.pipeline.pipeline_enabled = false;
    manifest.pipeline.pipelines.push(PipelineBinding {
        pipeline_id,
        pipeline_output: Some("overlay".to_string()),
        has_inline_graph: false,
    });
    manifest.pipeline.active_pipeline_id = Some(pipeline_id);
    let issues = validate(manifest, None);
    assert!(has_code(&issues, "pipeline_disabled_with_pipeline_state"));
}

#[test]
fn rejects_unknown_encoder_selector() {
    let mut manifest = sample_libcamera_manifest();
    manifest.encoder = EncoderRequest { enabled: true, id: Some("definitely-missing-encoder".to_string()), settings: None };
    let issues = validate(manifest, None);
    let issue = issues.iter().find(|issue| issue.code == "encoder_unavailable").expect("encoder availability issue");
    assert_eq!(issue.path, "/encoder/id");
    assert_eq!(
        issue.remediation.as_deref(),
        Some("Choose an available encoder selector for this stream, or disable encoding.")
    );
}

#[test]
fn rejects_unknown_decoder_selector() {
    let mut manifest = sample_libcamera_manifest();
    manifest.decoder = DecoderRequest { enabled: true, id: Some("definitely-missing-decoder".to_string()) };
    let issues = validate(manifest, None);
    let issue = issues.iter().find(|issue| issue.code == "decoder_unavailable").expect("decoder availability issue");
    assert_eq!(issue.path, "/decoder/id");
    assert_eq!(
        issue.remediation.as_deref(),
        Some("Choose a decoder selector that supports the selected capture format, or disable decoding.")
    );
}

#[test]
fn rejects_encoder_settings_kind_mismatch() {
    let mut manifest = sample_libcamera_manifest();
    manifest.encoder = EncoderRequest {
        enabled: true,
        id: Some("turbojpeg".to_string()),
        settings: Some(EncoderSettings::H264(VideoEncoderSettings {
            bitrate: Some(4_000_000),
            gop: None,
            framerate: None,
            thread_count: None,
            output_resolution: None,
        })),
    };
    let issues = validate(manifest, Some(EncoderSettingsShape::Turbojpeg));
    let issue =
        issues.iter().find(|issue| issue.code == "encoder_settings_kind_mismatch").expect("encoder settings kind issue");
    assert_eq!(issue.path, "/encoder/settings/kind");
    assert_eq!(
        issue.remediation.as_deref(),
        Some("Choose settings that match the selected encoder family, or switch the encoder selector to match the requested settings kind.")
    );
}

#[test]
fn rejects_recording_mode_without_encoder() {
    let mut manifest = sample_libcamera_manifest();
    manifest.encoder = EncoderRequest { enabled: false, id: None, settings: None };
    manifest.shadow_recording_codec = Some(RecordingCodec::H264);
    let issues = validate(manifest, None);
    let issue =
        issues.iter().find(|issue| issue.code == "recording_mode_requires_encoder").expect("recording mode encoder issue");
    assert_eq!(issue.path, "/recording_mode/state");
    assert_eq!(issue.remediation.as_deref(), Some("Enable the stream encoder before turning on shadow-buffer recording."));
}

#[test]
fn rejects_recording_mode_with_mismatched_encoder() {
    let mut manifest = sample_libcamera_manifest();
    manifest.encoder = EncoderRequest { enabled: true, id: Some("turbojpeg".to_string()), settings: None };
    manifest.shadow_recording_codec = Some(RecordingCodec::H264);
    let issues = validate(manifest, None);
    let issue =
        issues.iter().find(|issue| issue.code == "recording_mode_codec_mismatch").expect("recording mode codec issue");
    assert_eq!(issue.path, "/recording_mode/codec");
    assert_eq!(
        issue.remediation.as_deref(),
        Some("Choose an encoder selector that matches the requested recording mode codec, or switch the recording mode codec to match the encoder.")
    );
}

#[test]
fn normalize_stream_manifest_sets_missing_media_replay_alias() {
    let mut manifest = sample_libcamera_manifest();
    manifest.capture.backend = BackendKind::File;
    manifest.capture.handle = BackendHandle::File { paths: Vec::new(), fps: 30, loop_forever: false };
    manifest.capture.device_keys = vec!["media-file".to_string(), "video-0".to_string()];
    manifest.identity.alias = None;
    manifest.identity.hardware_id = Some("media-file".to_string());

    let normalized = normalize_stream_manifest(manifest, &ids());
    assert!(normalized.manifest.identity.alias.as_deref().is_some_and(|value| value.starts_with("media-replay-")));
    assert_eq!(normalized.manifest.capture.device_keys, vec!["media-file".to_string(), "video-0".to_string()]);
    assert_eq!(normalized.manifest.identity.hardware_id.as_deref(), Some("media-file"));
}

#[test]
fn normalize_stream_manifest_clears_redundant_tdn_flag() {
    let mut manifest = sample_libcamera_manifest();
    manifest.capture.controls.push(ControlAssignment { id: 10002, value: ControlValue::Int(1) });
    manifest.capture.enable_tdn_output = true;
    let descriptor = vec![ControlMeta { id: 10002, requires_tdn_output: false }];
    normalize_capture_tdn_output_with_descriptor(&mut manifest.capture, Some(&descriptor));
    assert!(!manifest.capture.enable_tdn_output);
}

#[test]
fn normalize_stream_manifest_preserves_required_tdn_flag() {
    let mut manifest = sample_libcamera_manifest();
    manifest.capture.controls.push(ControlAssignment { id: 10002, value: ControlValue::Int(1) });
    manifest.capture.enable_tdn_output = true;
    let descriptor = vec![ControlMeta { id: 10002, requires_tdn_output: true }];
    normalize_capture_tdn_output_with_descriptor(&mut manifest.capture, Some(&descriptor));
    assert!(manifest.capture.enable_tdn_output);
}

fn sample_ov9782() -> (StreamIdentity, CaptureConfig) {
    (
        StreamIdentity { id: None, alias: Some("ov9782 cam".to_string()), hardware_id: None },
        CaptureConfig {
            backend: BackendKind::Libcamera,
            handle: BackendHandle::Libcamera { id: "ov9782-main".to_string() },
            device_keys: vec!["ov9782".to_string()],
            format_fourcc: "NV12".to_string(),
            controls: Vec::new(),
            enable_tdn_output: true,
            target_fps: None,
        },
    )
}

#[test]
fn ov9782_defaults_disable_tdn_output_when_noise_reduction_is_missing() {
    let (identity, mut capture) = sample_ov9782();
    apply_new_ov9782_defaults(&identity, &mut capture);
    assert_eq!(capture.target_fps, Some(OV9782_DEFAULT_LIBCAMERA_TARGET_FPS));
    assert!(!capture.enable_tdn_output);
    assert_eq!(
        capture.controls.iter().find(|ctl| ctl.id == LIBCAMERA_NOISE_REDUCTION_MODE).map(|ctl| ctl.value),
        Some(ControlValue::Int(OV9782_NOISE_REDUCTION_OFF))
    );
}

#[test]
fn ov9782_defaults_keep_tdn_output_disabled_even_with_nonzero_noise_reduction() {
    let (identity, mut capture) = sample_ov9782();
    capture.controls.push(ControlAssignment { id: LIBCAMERA_NOISE_REDUCTION_MODE, value: ControlValue::Int(1) });
    apply_new_ov9782_defaults(&identity, &mut capture);
    assert!(!capture.enable_tdn_output);
}

#[test]
fn noise_reduction_manifest_update_does_not_force_tdn_output() {
    let mut capture = sample_libcamera_manifest().capture;
    capture.controls = vec![ControlAssignment { id: LIBCAMERA_NOISE_REDUCTION_MODE, value: ControlValue::Int(1) }];
    capture.target_fps = Some(60);
    apply_control_to_manifest(&mut capture, LIBCAMERA_NOISE_REDUCTION_MODE, ControlValue::Int(1));
    assert!(!capture.enable_tdn_output);
    assert_eq!(
        capture.controls.iter().find(|ctl| ctl.id == LIBCAMERA_NOISE_REDUCTION_MODE).map(|ctl| ctl.value),
        Some(ControlValue::Int(1))
    );
}

fn manifest_with_active(pipeline_id: u128, output: Option<&str>) -> PipelineConfig {
    PipelineConfig {
        pipeline_enabled: true,
        pipelines: vec![PipelineBinding {
            pipeline_id,
            pipeline_output: output.map(str::to_string),
            has_inline_graph: false,
        }],
        active_pipeline_id: Some(pipeline_id),
        active_pipeline_output: output.map(str::to_string),
        pipeline_layout: None,
        pipeline_wires: Vec::new(),
    }
}

#[test]
fn preview_targets_active_pipeline_matches_explicit_active_selection() {
    let pipeline_id = 0x4fca_14eb_e218_48e4_adf9_b957_d645_c604;
    let manifest = manifest_with_active(pipeline_id, Some("overlay"));
    let query = PreviewSelectionQuery { pipeline: Some(pipeline_id), output: Some("overlay".to_string()) };
    assert!(preview_targets_active_pipeline(&manifest, &query));
}

#[test]
fn preview_targets_active_pipeline_rejects_non_active_output() {
    let pipeline_id = 0x4fca_14eb_e218_48e4_adf9_b957_d645_c604;
    let manifest = manifest_with_active(pipeline_id, Some("overlay"));
    let query = PreviewSelectionQuery { pipeline: Some(pipeline_id), output: Some("mask".to_string()) };
    assert!(!preview_targets_active_pipeline(&manifest, &query));
}

#[test]
fn preview_targets_active_pipeline_treats_raw_frame_aliases_as_default_output() {
    let pipeline_id = 0x4fca_14eb_e218_48e4_adf9_b957_d645_c604;
    let manifest = manifest_with_active(pipeline_id, None);
    let query = PreviewSelectionQuery { pipeline: None, output: Some("frame".to_string()) };
    assert!(preview_targets_active_pipeline(&manifest, &query));
}

#[test]
fn uuid_text_is_hyphenated_lower_hex() {
    assert_eq!(
        replay_alias_or(&None, 0x43e2_cb68_95b0_4269_97da_7e16_c730_c36a),
        "media-replay-43e2cb68-95b0-4269-97da-7e16c730c36a"
    );
    assert_eq!(replay_alias_or(&None, 0), "media-replay-00000000-0000-0000-0000-000000000000");
}

#[test]
fn default_encoder_settings_follow_implementation_and_format() {
    assert_eq!(
        default_encoder_settings_for_codec("NV12", "TurboJPEG"),
        Some(EncoderSettings::Turbojpeg { quality: Some(85) })
    );
    assert_eq!(default_encoder_settings_for_codec("NV12", "mozjpeg"), Some(EncoderSettings::Mozjpeg { quality: Some(85) }));
    assert_eq!(default_encoder_settings_for_codec("H264", "x264"), None);
    let video = VideoEncoderSettings {
        bitrate: Some(4_000_000),
        gop: None,
        framerate: Some(helios_api::streams::validation::FrameRate { numerator: 60, denominator: 1 }),
        thread_count: None,
        output_resolution: Some(helios_api::streams::validation::Resolution { width: 854, height: 480 }),
    };
    assert_eq!(default_encoder_settings_for_codec("HEVC", "ffmpeg"), Some(EncoderSettings::H265(video)));
    assert_eq!(default_encoder_settings_for_codec("JPEG", "FFMPEG"), Some(EncoderSettings::FfmpegMjpeg(video)));
    assert_eq!(default_encoder_settings_for_codec("NV12", "ffmpeg"), None);
}

#[test]
fn wires_touching_calibration_mode_are_never_kept() {
    let wire = |from: u128, to: u128| PipelineWire {
        from: WireEndpoint { pipeline_id: from, output_key: Some("out".to_string()), port: None },
        to: WireEndpoint { pipeline_id: to, output_key: None, port: Some("in".to_string()) },
    };
    let wires = vec![wire(1, 2), wire(CALIBRATION, 2), wire(2, CALIBRATION), wire(3, 1)];
    let kept = helios_api::streams::edits::retain_user_wires(&wires, &ids());
    assert_eq!(kept, vec![wire(1, 2), wire(3, 1)]);
}
