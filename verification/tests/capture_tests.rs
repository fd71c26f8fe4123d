use helios_api::recording::capture::{
    frame_timestamp_span, parse_frame_timestamp_buffer, pick_media_name, plan_shadow_capture,
    recording_name_candidates, select_imu_sample_at_or_before, shadow_capture_codec,
    shadow_capture_needs_stream_codec, CaptureShadowRecordingRequest, ShadowCapturePlan, ShadowCaptureRefusal,
    TimestampSpan,
};
use helios_api::recording::media::ensure_extension;
use helios_api::recording::options::{clamp_u64, RecordingCodec, RecordingContainer};
use helios_api::recording::replay::{
    clamp_ms, codec_label, content_type_for_data, default_media_base, parse_video_options, replay_bundle_response,
    replay_candidate_name, replay_settings, requested_media_base, StartReplayBundleRequest,
};
use helios_api::recording::sidecar::{
    on_frame_timestamp, push_imu_history, sidecar_duration_limit, sidecar_should_stop, FrameStep, SidecarCursor,
};

const STREAM: u128 = 0x0123_4567_89ab_cdef_0123_4567_89ab_cdef;

fn bundle_request() -> StartReplayBundleRequest {
    StartReplayBundleRequest {
        name: None,
        duration_ms: None,
        codec: None,
        container: None,
        pipeline_ports: Vec::new(),
        pipeline_interval_ms: None,
        include_sensors: None,
        sensors_min_interval_ms: None,
        include_i2c_inventory: None,
        include_stream_metrics: None,
        stream_metrics_interval_ms: None,
        include_cpu: None,
        cpu_interval_ms: None,
    }
}

fn capture_request(window_ms: u64, container: Option<&str>, codec: Option<&str>) -> CaptureShadowRecordingRequest {
    CaptureShadowRecordingRequest {
        window_ms,
        name: None,
        container: container.map(|c| c.to_string()),
        codec: codec.map(|c| c.to_string()),
    }
}

#[test]
fn replay_video_defaults_to_h265_in_mp4() {
    assert_eq!(parse_video_options(&bundle_request()).unwrap(), (RecordingContainer::Mp4, RecordingCodec::H265));
    let mut req = bundle_request();
    req.codec = Some(" AVC ".to_string());
    assert_eq!(parse_video_options(&req).unwrap(), (RecordingContainer::Mp4, RecordingCodec::H264));
    req.container = Some("hevc".to_string());
    assert_eq!(parse_video_options(&req).unwrap(), (RecordingContainer::Raw, RecordingCodec::H265));
    req.container = Some("AnnexB".to_string());
    assert_eq!(parse_video_options(&req).unwrap(), (RecordingContainer::Raw, RecordingCodec::H264));
    req.container = Some("mkv".to_string());
    assert_eq!(parse_video_options(&req).unwrap_err().message, "unsupported container: mkv");
    req.codec = Some("VP9".to_string());
    assert_eq!(parse_video_options(&req).unwrap_err().message, "unsupported codec: vp9");
}

#[test]
fn replay_settings_default_and_clamp() {
    let mut req = bundle_request();
    req.pipeline_ports = vec!["  det ".to_string(), "   ".to_string(), "raw".to_string()];
    let s = replay_settings(&req);
    assert_eq!(s.pipeline_ports, vec!["det".to_string(), "raw".to_string()]);
    assert_eq!(
        (s.pipeline_interval_ms, s.sensors_min_interval_ms, s.stream_metrics_interval_ms, s.cpu_interval_ms),
        (33, 50, 250, 500)
    );
    assert!(!s.include_sensors && !s.include_i2c_inventory && !s.include_stream_metrics && !s.include_cpu);
    assert_eq!(s.duration_ms, None);

    req.pipeline_interval_ms = Some(1);
    req.sensors_min_interval_ms = Some(20_000);
    req.stream_metrics_interval_ms = Some(49);
    req.cpu_interval_ms = Some(100);
    req.include_sensors = Some(true);
    req.include_cpu = Some(false);
    req.duration_ms = Some(0);
    let s = replay_settings(&req);
    assert_eq!(
        (s.pipeline_interval_ms, s.sensors_min_interval_ms, s.stream_metrics_interval_ms, s.cpu_interval_ms),
        (10, 10_000, 50, 100)
    );
    assert!(s.include_sensors && !s.include_cpu);
    assert_eq!(s.duration_ms, None);
    req.duration_ms = Some(1500);
    assert_eq!(replay_settings(&req).duration_ms, Some(1500));
}

#[test]
fn clamps_hold_values_in_range() {
    assert_eq!(clamp_ms(None, 33, 10, 5000), 33);
    assert_eq!(clamp_ms(Some(9), 33, 10, 5000), 10);
    assert_eq!(clamp_ms(Some(6000), 33, 10, 5000), 5000);
    assert_eq!(clamp_u64(7, 7, 7), 7);
    assert_eq!(clamp_u64(0, 1, 3), 1);
}

#[test]
fn media_bases_are_named_or_defaulted() {
    assert_eq!(default_media_base("replay", STREAM, -5), "replay_01234567-89ab-cdef-0123-456789abcdef_-5");
    assert_eq!(requested_media_base(Some(" dir/clip "), "replay", STREAM, 1), Some("clip".to_string()));
    assert_eq!(requested_media_base(Some("   "), "replay", STREAM, 1), None);
    assert_eq!(
        requested_media_base(None, "bundle", STREAM, 1700000000000),
        Some("bundle_01234567-89ab-cdef-0123-456789abcdef_1700000000000".to_string())
    );
}

#[test]
fn replay_candidates_put_suffix_before_last_extension() {
    assert_eq!(replay_candidate_name("clip.mp4", "abc", 1), "clip-abc-1.mp4");
    assert_eq!(replay_candidate_name("data.replay.jsonl.gz", "abc", 12), "data.replay.jsonl-abc-12.gz");
    assert_eq!(replay_candidate_name("clip.", "abc", 2), "clip-abc-2");
    assert_eq!(replay_candidate_name("clip", "abc", 3), "clip-abc-3");
}

#[test]
fn bundle_response_describes_both_files() {
    let r = replay_bundle_response("v.mp4", "d.replay.jsonl.gz", RecordingContainer::Mp4, RecordingCodec::H264, STREAM, 42);
    assert_eq!(r.video.name, "v.mp4");
    assert_eq!(r.video.content_type, "video/mp4");
    assert_eq!(r.video.kind.as_deref(), Some("replay_video"));
    assert_eq!(r.video.video_codec.as_deref(), Some("h264"));
    assert_eq!(r.video.tags, vec!["replay-bundle".to_string()]);
    assert_eq!((r.video.size_bytes, r.video.stream_id, r.video.captured_at_ms), (0, Some(STREAM), Some(42)));
    assert_eq!(r.data.content_type, content_type_for_data());
    assert_eq!(r.data.content_type, "application/x-ndjson+gzip");
    assert_eq!(r.data.kind.as_deref(), Some("replay_data"));
    assert_eq!(r.data.video_codec, None);
    let raw = replay_bundle_response("v.h265", "d", RecordingContainer::Raw, RecordingCodec::H265, STREAM, 1);
    assert_eq!(raw.video.content_type, "video/h265");
    assert_eq!(codec_label(RecordingCodec::H265), "h265");
}

#[test]
fn shadow_capture_plans_check_gate_window_and_options() {
    assert_eq!(plan_shadow_capture(false, &capture_request(1000, None, None)), Err(ShadowCaptureRefusal::FeatureDisabled));
    assert_eq!(plan_shadow_capture(true, &capture_request(0, None, None)), Err(ShadowCaptureRefusal::EmptyWindow));
    match plan_shadow_capture(true, &capture_request(1000, Some("avi"), None)) {
        Err(ShadowCaptureRefusal::BadOption(e)) => assert_eq!(e.message, "unsupported container: avi"),
        other => panic!("unexpected {:?}", other),
    }
    match plan_shadow_capture(true, &capture_request(1000, None, Some("vp8"))) {
        Err(ShadowCaptureRefusal::BadOption(e)) => assert_eq!(e.message, "unsupported codec: vp8"),
        other => panic!("unexpected {:?}", other),
    }
    assert_eq!(
        plan_shadow_capture(true, &capture_request(1000, None, Some("  "))).unwrap(),
        ShadowCapturePlan { container: RecordingContainer::Raw, codec_override: None }
    );
    assert_eq!(
        plan_shadow_capture(true, &capture_request(1000, Some("MP4"), Some("avc"))).unwrap(),
        ShadowCapturePlan { container: RecordingContainer::Mp4, codec_override: Some(RecordingCodec::H264) }
    );
}

#[test]
fn shadow_capture_codec_comes_from_request_stream_or_mp4() {
    let raw = ShadowCapturePlan { container: RecordingContainer::Raw, codec_override: None };
    assert!(shadow_capture_needs_stream_codec(raw));
    assert_eq!(shadow_capture_codec(raw, RecordingCodec::H264), RecordingCodec::H264);
    let named = ShadowCapturePlan { container: RecordingContainer::Raw, codec_override: Some(RecordingCodec::H265) };
    assert!(!shadow_capture_needs_stream_codec(named));
    assert_eq!(shadow_capture_codec(named, RecordingCodec::H264), RecordingCodec::H265);
    let mp4 = ShadowCapturePlan { container: RecordingContainer::Mp4, codec_override: Some(RecordingCodec::H264) };
    assert!(!shadow_capture_needs_stream_codec(mp4));
    assert_eq!(shadow_capture_codec(mp4, RecordingCodec::H264), RecordingCodec::H265);
}

#[test]
fn recording_name_candidates_try_short_suffixes_then_full() {
    let names = recording_name_candidates("clip.mp4", "0123456789abcdef");
    assert_eq!(
        names,
        vec![
            "clip.mp4",
            "clip-01234567.mp4",
            "clip-01234567-2.mp4",
            "clip-01234567-3.mp4",
            "clip-01234567-4.mp4",
            "clip-01234567-5.mp4",
            "clip-01234567-6.mp4",
            "0123456789abcdef-clip.mp4",
        ]
    );
    let tar = recording_name_candidates("logs.tar.gz", "0123456789abcdef");
    assert_eq!(tar[1], "logs-01234567.tar.gz");
}

#[test]
fn the_first_free_name_is_picked() {
    assert_eq!(pick_media_name(&vec![false, true]), 0);
    assert_eq!(pick_media_name(&vec![true, true, false, false]), 2);
    assert_eq!(pick_media_name(&vec![true, true, true]), 2);
    assert_eq!(pick_media_name(&vec![true]), 0);
}

#[test]
fn timestamp_buffers_keep_the_partial_line() {
    let chunk = parse_frame_timestamp_buffer("100\n\n x \n 200 \n30");
    assert_eq!(chunk.values, vec![100, 200]);
    assert_eq!(chunk.carry, "30");
    let whole = parse_frame_timestamp_buffer("5\n6\n");
    assert_eq!(whole.values, vec![5, 6]);
    assert_eq!(whole.carry, "");
    let empty = parse_frame_timestamp_buffer("");
    assert!(empty.values.is_empty() && empty.carry.is_empty());
}

#[test]
fn timestamp_spans_need_two_increasing_readable_values() {
    assert_eq!(
        frame_timestamp_span("1000\n1033\n\n1066\n"),
        Some(TimestampSpan { count: 3, first: 1000, last: 1066 })
    );
    assert_eq!(frame_timestamp_span("1000\n"), None);
    assert_eq!(frame_timestamp_span("1000\nbad\n1066\n"), None);
    assert_eq!(frame_timestamp_span("1066\n1000\n"), None);
    assert_eq!(frame_timestamp_span(""), None);
}

#[test]
fn imu_samples_are_matched_at_or_before_the_frame() {
    let times = vec![10, 20, 20, 30];
    assert_eq!(select_imu_sample_at_or_before(&times, 25), Some(2));
    assert_eq!(select_imu_sample_at_or_before(&times, 30), Some(3));
    assert_eq!(select_imu_sample_at_or_before(&times, 9), None);
    assert_eq!(select_imu_sample_at_or_before(&Vec::new(), 9), None);
}

#[test]
fn frames_emit_samples_at_the_interval_until_the_limit() {
    let times = vec![1_000, 1_010, 1_020, 1_030, 1_040];
    let mut c = SidecarCursor { anchor: None, last_frame_ts: None, last_emitted_t_ms: None, samples: 0 };
    // First frame: anchored at 500, wall time 1000 + 0.
    assert_eq!(on_frame_timestamp(&mut c, 500, 1_000, &times, 20, Some(30)), FrameStep::Emit { t_ms: 0, sample: 0, stop: false });
    // Not moving forward: ignored.
    assert_eq!(on_frame_timestamp(&mut c, 500, 1_000, &times, 20, Some(30)), FrameStep::Skip);
    // Too soon after the last sample written.
    assert_eq!(on_frame_timestamp(&mut c, 510, 1_000, &times, 20, Some(30)), FrameStep::Skip);
    assert_eq!(on_frame_timestamp(&mut c, 525, 1_000, &times, 20, Some(30)), FrameStep::Emit { t_ms: 25, sample: 2, stop: false });
    assert_eq!(on_frame_timestamp(&mut c, 560, 1_000, &times, 20, Some(30)), FrameStep::Emit { t_ms: 60, sample: 4, stop: true });
    assert_eq!(c.samples, 3);
    assert_eq!(c.anchor, Some(500));
    assert_eq!(c.last_frame_ts, Some(560));
}

#[test]
fn frames_before_any_imu_sample_are_skipped() {
    let mut c = SidecarCursor { anchor: None, last_frame_ts: None, last_emitted_t_ms: None, samples: 0 };
    assert_eq!(on_frame_timestamp(&mut c, 1_700_000_000_000, 0, &vec![1_800_000_000_000], 0, None), FrameStep::Skip);
    assert_eq!(c.anchor, Some(1_700_000_000_000));
    assert_eq!(c.samples, 0);
}

#[test]
fn imu_history_keeps_ten_seconds() {
    let mut times = vec![0, 5_000, 9_000];
    assert_eq!(push_imu_history(&mut times, 12_000), 1);
    assert_eq!(times, vec![5_000, 9_000, 12_000]);
    assert_eq!(push_imu_history(&mut times, 12_001), 0);
    assert_eq!(times.len(), 4);
    let mut full: Vec<i64> = (0..4096).collect();
    assert_eq!(push_imu_history(&mut full, 4096), 1);
    assert_eq!(full.len(), 4096);
    assert_eq!(full[0], 1);
}

#[test]
fn sidecar_stops_at_deadline_or_after_the_tail() {
    assert!(sidecar_should_stop(true, None, None));
    assert!(!sidecar_should_stop(false, None, Some(10_000)));
    assert!(sidecar_should_stop(false, Some(5_000), None));
    assert!(!sidecar_should_stop(false, Some(100), Some(299)));
    assert!(sidecar_should_stop(false, Some(100), Some(300)));
    assert!(!sidecar_should_stop(false, Some(100), None));
    assert_eq!(sidecar_duration_limit(None), None);
    assert_eq!(sidecar_duration_limit(Some(0)), None);
    assert_eq!(sidecar_duration_limit(Some(750)), Some(750));
    assert_eq!(sidecar_duration_limit(Some(u64::MAX)), Some(i64::MAX));
}

#[test]
fn ensuring_an_extension_twice_changes_nothing_more() {
    for (base, ext) in [("a", "mp4"), (" clip.MP4 ", "mp4"), ("x.h264", "mp4"), (".hidden", "mp4"), ("a b", "jsonl.gz"), ("a", "MP4"), ("a", "")] {
        let once = ensure_extension(base, ext).unwrap();
        assert_eq!(ensure_extension(&once, ext), Some(once.clone()), "{:?} {:?}", base, ext);
    }
    assert_eq!(ensure_extension("x.h264", "mp4").as_deref(), Some("x.mp4"));
    assert_eq!(ensure_extension(" clip.MP4 ", "mp4").as_deref(), Some("clip.MP4"));
    assert_eq!(ensure_extension("   ", "mp4"), None);
    // An extension with a `.` and capitals is the one exception.
    let once = ensure_extension("a", "Tar.GZ").unwrap();
    assert_eq!(once, "a.Tar.GZ");
    assert_eq!(ensure_extension(&once, "Tar.GZ").as_deref(), Some("a.Tar.Tar.GZ"));
}
