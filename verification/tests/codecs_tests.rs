use helios_api::recording::options::RecordingCodec;
use helios_api::streams::codecs::{
    canonical_codec_family, codec_selector_available, encoder_matches_recording_codec, encoder_settings_shape,
    runtime_codec_matches_input, runtime_codec_matches_selector, validate_encoder_settings_compatibility,
    validate_encoder_settings_values, validate_recording_mode_compatibility, validate_stream_feature_compatibility,
    CodecCapability, CodecKind,
};
use helios_api::streams::manifest::PipelineConfig;
use helios_api::streams::validation::{
    BackendHandle, BackendKind, CaptureConfig, DecoderRequest, EncoderRequest, EncoderSettings, EncoderSettingsShape,
    FrameRate, Resolution, StreamIdentity, StreamManifest, ValidationIssue, VideoEncoderSettings,
};

fn cap(kind: CodecKind, name: &str, implementation: &str, input: &str, fourcc: &str) -> CodecCapability {
    CodecCapability {
        kind,
        name: name.to_string(),
        implementation: implementation.to_string(),
        input: input.to_string(),
        fourcc: fourcc.to_string(),
    }
}

fn runtime() -> Vec<CodecCapability> {
    vec![
        cap(CodecKind::Encoder, "turbojpeg", "turbojpeg", "RG24", "MJPG"),
        cap(CodecKind::Encoder, "h264", "ffmpeg-h264", "RG24", "H264"),
        cap(CodecKind::Encoder, "hevc", "ffmpeg-hevc", "RG24", "H265"),
        cap(CodecKind::Encoder, "h264", "v4l2m2m", "RG24", "H264"),
        cap(CodecKind::Encoder, "mjpeg", "shared", "RG24", "MJPG"),
        cap(CodecKind::Encoder, "h264", "shared", "RG24", "H264"),
        cap(CodecKind::Decoder, "nv12-luma", "nv12-luma", "NV12", "RG24"),
    ]
}

fn video(bitrate: Option<u64>) -> VideoEncoderSettings {
    VideoEncoderSettings {
        bitrate,
        gop: Some(30),
        framerate: Some(FrameRate { numerator: 30, denominator: 1 }),
        thread_count: Some(2),
        output_resolution: Some(Resolution { width: 640, height: 480 }),
    }
}

fn manifest() -> StreamManifest {
    StreamManifest {
        identity: StreamIdentity { id: None, alias: Some("cam".to_string()), hardware_id: None },
        capture: CaptureConfig {
            backend: BackendKind::V4l2,
            handle: BackendHandle::V4l2 { device: "/dev/video0".to_string() },
            device_keys: vec!["/dev/video0".to_string()],
            format_fourcc: "NV12".to_string(),
            controls: Vec::new(),
            enable_tdn_output: false,
            target_fps: None,
        },
        host_buffer: 2,
        preview_jpeg_quality: 80,
        pipeline: PipelineConfig {
            pipeline_enabled: false,
            pipelines: Vec::new(),
            active_pipeline_id: None,
            active_pipeline_output: None,
            pipeline_layout: None,
            pipeline_wires: Vec::new(),
        },
        encoder: EncoderRequest { enabled: true, id: Some("h264".to_string()), settings: None },
        decoder: DecoderRequest { enabled: false, id: None },
        shadow_recording_codec: None,
    }
}

fn codes(issues: &[ValidationIssue]) -> Vec<&'static str> {
    issues.iter().map(|i| i.code).collect()
}

#[test]
fn codec_families_fold_aliases() {
    assert_eq!(canonical_codec_family(" MJPG "), "mjpeg");
    assert_eq!(canonical_codec_family("jpeg"), "mjpeg");
    assert_eq!(canonical_codec_family("AVC"), "h264");
    assert_eq!(canonical_codec_family("HEVC"), "h265");
    assert_eq!(canonical_codec_family("H264"), "h264");
    assert_eq!(canonical_codec_family("VP9"), "vp9");
}

#[test]
fn selectors_match_implementation_or_family() {
    let c = cap(CodecKind::Encoder, "h264", "ffmpeg-h264", "RG24", "H264");
    assert!(runtime_codec_matches_selector(&c, "FFMPEG-H264"));
    assert!(runtime_codec_matches_selector(&c, " avc "));
    assert!(!runtime_codec_matches_selector(&c, "h265"));
    assert!(!runtime_codec_matches_selector(&c, "ffmpeg"));
}

#[test]
fn inputs_match_input_fourcc_or_any() {
    let c = cap(CodecKind::Encoder, "h264", "ffmpeg-h264", "RG24", "H264");
    assert!(runtime_codec_matches_input(&c, " rg24 "));
    assert!(runtime_codec_matches_input(&c, "h264"));
    assert!(!runtime_codec_matches_input(&c, "NV12"));
    let any = cap(CodecKind::Decoder, "x", "x", " any ", "RG24");
    assert!(runtime_codec_matches_input(&any, "YUYV"));
}

#[test]
fn selector_availability_needs_kind_input_and_selector() {
    let rt = runtime();
    assert!(codec_selector_available(&rt, "RG24", CodecKind::Encoder, "turbojpeg"));
    assert!(!codec_selector_available(&rt, "NV12", CodecKind::Encoder, "turbojpeg"));
    assert!(!codec_selector_available(&rt, "RG24", CodecKind::Decoder, "turbojpeg"));
    assert!(codec_selector_available(&rt, "nv12", CodecKind::Decoder, "nv12-luma"));
    assert!(!codec_selector_available(&Vec::new(), "RG24", CodecKind::Encoder, "h264"));
}

#[test]
fn settings_shapes_follow_variants() {
    assert_eq!(encoder_settings_shape(&EncoderSettings::Turbojpeg { quality: None }), EncoderSettingsShape::Turbojpeg);
    assert_eq!(encoder_settings_shape(&EncoderSettings::Mozjpeg { quality: None }), EncoderSettingsShape::Mozjpeg);
    assert_eq!(encoder_settings_shape(&EncoderSettings::FfmpegMjpeg(video(None))), EncoderSettingsShape::FfmpegMjpeg);
    assert_eq!(encoder_settings_shape(&EncoderSettings::H264(video(None))), EncoderSettingsShape::H264);
    assert_eq!(encoder_settings_shape(&EncoderSettings::H265(video(None))), EncoderSettingsShape::H265);
}

#[test]
fn jpeg_quality_must_be_a_percentage() {
    for (q, bad) in [(Some(0), true), (Some(1), false), (Some(100), false), (Some(101), true), (None, false)] {
        let mut issues = Vec::new();
        validate_encoder_settings_values(&EncoderSettings::Mozjpeg { quality: q }, &mut issues);
        assert_eq!(issues.len(), bad as usize);
        if bad {
            assert_eq!(issues[0].path, "/encoder/settings/quality");
            assert_eq!(issues[0].code, "encoder_quality_out_of_range");
        }
    }
}

#[test]
fn video_settings_must_be_positive() {
    let zeroed = VideoEncoderSettings {
        bitrate: Some(0),
        gop: Some(0),
        framerate: Some(FrameRate { numerator: 30, denominator: 0 }),
        thread_count: Some(0),
        output_resolution: Some(Resolution { width: 0, height: 480 }),
    };
    let mut issues = Vec::new();
    validate_encoder_settings_values(&EncoderSettings::H265(zeroed), &mut issues);
    assert_eq!(
        codes(&issues),
        vec![
            "encoder_bitrate_must_be_positive",
            "encoder_gop_must_be_positive",
            "encoder_framerate_invalid",
            "encoder_thread_count_must_be_positive",
            "encoder_output_resolution_invalid",
        ]
    );
    assert_eq!(issues[4].path, "/encoder/settings/output_resolution");
    let mut none = Vec::new();
    validate_encoder_settings_values(&EncoderSettings::H264(video(Some(1))), &mut none);
    assert!(none.is_empty());
}

#[test]
fn settings_of_another_family_are_refused() {
    let mut m = manifest();
    m.encoder.id = Some("  x264 ".to_string());
    m.encoder.settings = Some(EncoderSettings::Turbojpeg { quality: Some(0) });
    let mut issues = Vec::new();
    validate_encoder_settings_compatibility(&m, Some(EncoderSettingsShape::H264), &mut issues);
    assert_eq!(codes(&issues), vec!["encoder_settings_kind_mismatch"]);
    assert_eq!(issues[0].path, "/encoder/settings/kind");
    assert_eq!(issues[0].message, "encoder settings kind does not match encoder `x264`");
    assert!(issues[0].remediation.is_some());
    // Same family: the values are checked instead.
    let mut values = Vec::new();
    validate_encoder_settings_compatibility(&m, Some(EncoderSettingsShape::Turbojpeg), &mut values);
    assert_eq!(codes(&values), vec!["encoder_quality_out_of_range"]);
    // Nothing expected, or no selector: nothing to check.
    let mut none = Vec::new();
    validate_encoder_settings_compatibility(&m, None, &mut none);
    m.encoder.id = None;
    validate_encoder_settings_compatibility(&m, Some(EncoderSettingsShape::H264), &mut none);
    assert!(none.is_empty());
}

#[test]
fn recording_codec_matching_by_name_or_family() {
    let rt = runtime();
    assert!(encoder_matches_recording_codec(&rt, RecordingCodec::H264, "H264"));
    assert!(encoder_matches_recording_codec(&rt, RecordingCodec::H264, "my-avc-encoder"));
    assert!(encoder_matches_recording_codec(&rt, RecordingCodec::H265, "ffmpeg-hevc"));
    assert!(encoder_matches_recording_codec(&rt, RecordingCodec::H264, "v4l2m2m"));
    assert!(!encoder_matches_recording_codec(&rt, RecordingCodec::H265, "v4l2m2m"));
    // An implementation name that selects encoders of two families fits neither.
    assert!(!encoder_matches_recording_codec(&rt, RecordingCodec::H264, "shared"));
    assert!(!encoder_matches_recording_codec(&rt, RecordingCodec::H264, "   "));
    assert!(!encoder_matches_recording_codec(&rt, RecordingCodec::H264, "unknown"));
}

#[test]
fn recording_mode_issues_in_order_of_need() {
    let rt = runtime();
    let mut m = manifest();
    m.shadow_recording_codec = Some(RecordingCodec::H265);
    let mut gated = Vec::new();
    validate_recording_mode_compatibility(&m, &rt, false, &mut gated);
    assert_eq!(codes(&gated), vec!["recording_mode_feature_disabled"]);
    m.encoder.enabled = false;
    let mut no_encoder = Vec::new();
    validate_recording_mode_compatibility(&m, &rt, true, &mut no_encoder);
    assert_eq!(codes(&no_encoder), vec!["recording_mode_requires_encoder"]);
    m.encoder.enabled = true;
    m.encoder.id = Some(" ".to_string());
    let mut missing = Vec::new();
    validate_recording_mode_compatibility(&m, &rt, true, &mut missing);
    assert_eq!(codes(&missing), vec!["recording_mode_requires_matching_encoder"]);
    assert_eq!(missing[0].message, "recording mode requests h265 but the stream encoder selector is missing");
    m.encoder.id = Some("H264".to_string());
    let mut mismatch = Vec::new();
    validate_recording_mode_compatibility(&m, &rt, true, &mut mismatch);
    assert_eq!(codes(&mismatch), vec!["recording_mode_codec_mismatch"]);
    assert_eq!(mismatch[0].path, "/recording_mode/codec");
    assert_eq!(mismatch[0].message, "recording mode codec h265 does not match encoder `h264`");
    m.encoder.id = Some("hevc".to_string());
    let mut fine = Vec::new();
    validate_recording_mode_compatibility(&m, &rt, true, &mut fine);
    assert!(fine.is_empty());
}

#[test]
fn feature_compatibility_checks_encoder_decoder_and_recording() {
    let rt = runtime();
    let mut m = manifest();
    m.encoder.id = Some("vp9".to_string());
    m.decoder = DecoderRequest { enabled: true, id: Some("nv12-luma".to_string()) };
    m.capture.format_fourcc = "YUYV".to_string();
    m.shadow_recording_codec = Some(RecordingCodec::H264);
    let mut issues = Vec::new();
    validate_stream_feature_compatibility(&m, &rt, None, true, &mut issues);
    assert_eq!(codes(&issues), vec!["encoder_unavailable", "decoder_unavailable", "recording_mode_codec_mismatch"]);
    assert_eq!(issues[0].path, "/encoder/id");
    assert_eq!(issues[0].message, "encoder `vp9` is not available for capture format RG24");
    assert_eq!(issues[1].message, "decoder `nv12-luma` is not available for capture format YUYV");
    m.encoder.id = Some("h264".to_string());
    m.capture.format_fourcc = " NV12 ".to_string();
    let mut none = Vec::new();
    validate_stream_feature_compatibility(&m, &rt, None, true, &mut none);
    assert!(none.is_empty());
}

#[test]
fn codec_mismatch_messages_are_in_lower_case() {
    let rt = runtime();
    let mut m = manifest();
    m.shadow_recording_codec = Some(RecordingCodec::H264);
    m.encoder.id = Some("ÉNC-VP9".to_string());
    let mut issues = Vec::new();
    validate_recording_mode_compatibility(&m, &rt, true, &mut issues);
    assert_eq!(issues.len(), 1);
    assert_eq!(issues[0].message, "recording mode codec h264 does not match encoder `énc-vp9`");
}
